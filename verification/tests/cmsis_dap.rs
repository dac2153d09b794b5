use embedded2020::cmsis_dap::adiv5::{select, ApBank, Register};
use embedded2020::cmsis_dap::ahb_ap::{block_read_plan, boundary_segments, supports_atomic_commands, BlockRead};
use embedded2020::cmsis_dap::cortex_m::{
    aircr_request, dcrsr_request, demcr_request, halt_check, halt_request, is_halted,
    resume_request, Register as CoreRegister,
};
use embedded2020::cmsis_dap::dap::{
    block_write_counts, capabilities_response, check_dpidr, check_response, check_swd,
    connect_response, debug_power_up_request, jtag_to_swd_swj_sequence, packet_size_response,
    transfer_block_read_response, transfer_block_write_response, transfer_command, Mode, Request,
    DAP_SWJ_CLOCK,
};
use embedded2020::cmsis_dap::sealed::Data;
use embedded2020::cmsis_dap::util::{round_down, round_up};
use embedded2020::cmsis_dap::{Dap, DapError};

#[test]
fn rounding() {
    assert_eq!(round_down(13, 4), 12);
    assert_eq!(round_down(12, 4), 12);
    assert_eq!(round_up(13, 4), 16);
    assert_eq!(round_up(16, 4), 16);
    assert_eq!(round_up(0, 4), 0);
    assert_eq!(round_down(59, 4), 56);
}

#[test]
fn commands_in_reports() {
    let mut dap = Dap::new();
    assert_eq!(dap.packet_size_value(), 4);
    dap.packet_size();
    assert_eq!(dap.hid_flush(), vec![0x00, 0x00, 0xff]);
    dap.set_packet_size(64);
    assert_eq!(dap.packet_size_value(), 64);
    dap.capabilities();
    assert_eq!(dap.report_len(), 2);
    assert_eq!(dap.hid_flush(), vec![0x00, 0x00, 0xf0]);
    dap.connect(Mode::SWD);
    assert_eq!(dap.hid_flush(), vec![0x00, 0x02, 0x01]);
    dap.swj_clock(4_000_000);
    assert_eq!(dap.hid_flush(), vec![0x00, DAP_SWJ_CLOCK, 0x00, 0x09, 0x3d, 0x00]);
    dap.swj_sequence(&[0xff, 0x9e]);
    assert_eq!(dap.hid_flush(), vec![0x00, 0x12, 16, 0xff, 0x9e]);
    dap.transfer_configure(0, 1, 0);
    assert_eq!(dap.hid_flush(), vec![0x00, 0x04, 0, 1, 0, 0, 0]);
    dap.transfer_block_read(Register::AHB_AP_DRW, 3);
    assert_eq!(dap.hid_flush(), vec![0x00, 0x06, 0, 3, 0, 0x0f]);
    dap.transfer_block_write(Register::AHB_AP_DRW, &[0x0403_0201]);
    assert_eq!(dap.hid_flush(), vec![0x00, 0x06, 0, 1, 0, 0x0d, 1, 2, 3, 4]);
    assert!(dap.hid_read_allowed(64));
    assert!(!dap.hid_read_allowed(65));
}

#[test]
fn transfer_requests_select_the_ap_bank() {
    let mut dap = Dap::new();
    dap.set_packet_size(64);
    dap.push_dap_transfer_requests(&[(Register::AHB_AP_TAR, Request::Write(0x2000_0000)), (Register::AHB_AP_DRW, Request::Read)]);
    assert_eq!(dap.queued(), 3);
    assert_eq!(dap.ap_bank(), Some(ApBank::AHB_AP(0)));
    let t = dap.execute_dap_transfer();
    assert_eq!(t.total_requests, 3);
    assert_eq!(t.read_requests, 1);
    assert_eq!(
        t.report,
        vec![0x00, 0x05, 0x00, 3, 0x08, 0, 0, 0, 0, 0x05, 0, 0, 0, 0x20, 0x0f]
    );
    assert_eq!(t.response_len(), 7);
    assert_eq!(t.response(&[0x05, 3, 1, 0x78, 0x56, 0x34, 0x12]), Ok(vec![0x1234_5678]));
    assert_eq!(t.response(&[0x05, 2, 1, 0, 0, 0, 0]), Err(DapError::Failed(0x05)));
    assert_eq!(dap.queued(), 0);
}

#[test]
fn transfer_command_without_queue() {
    assert_eq!(
        transfer_command(&[(Register::DP_DPIDR, Request::Read), (Register::DP_CTRL, Request::Write(0x5000_0000))]),
        vec![0x05, 0x00, 2, 0x02, 0x04, 0x00, 0x00, 0x00, 0x50]
    );
    assert_eq!(select(ApBank::AHB_AP(1)), 0x10);
}

#[test]
fn answers_to_commands() {
    assert_eq!(capabilities_response(&[0x00, 0x01, 0x13]), Ok(0x13));
    assert_eq!(capabilities_response(&[0x00, 0x02, 0x13]), Err(DapError::Failed(0x00)));
    assert_eq!(packet_size_response(&[0x00, 0x02, 0x40, 0x00]), Ok(64));
    assert_eq!(connect_response(&[0x02, 0x01]), Ok(()));
    assert_eq!(connect_response(&[0x02, 0x00]), Err(DapError::Failed(0x02)));
    assert_eq!(check_response(0x11, &[0x11, 0x00]), Ok(()));
    assert_eq!(check_response(0x11, &[0x11, 0xff]), Err(DapError::Failed(0x11)));
    assert_eq!(transfer_block_read_response(&[0x06, 1, 0, 1, 9, 8, 7, 6], 1), Ok(&[9u8, 8, 7, 6][..]));
    assert_eq!(transfer_block_read_response(&[0x06, 1, 0, 2, 9, 8, 7, 6], 1), Err(DapError::Failed(0x06)));
    assert_eq!(transfer_block_write_response(&[0x06, 2, 0, 1], 2), Ok(()));
}

#[test]
fn debug_port_checks() {
    assert_eq!(check_swd(0x01), Ok(()));
    assert_eq!(check_swd(0x02), Err(DapError::NoSwd));
    assert_eq!(check_dpidr(0x2ba0_1477), Ok(1));
    assert_eq!(check_dpidr(0x0bb1_2477), Ok(2));
    assert_eq!(check_dpidr(0x1234_5678), Err(DapError::NotArm(0x1234_5678)));
    assert_eq!(check_dpidr(0x0000_3477), Err(DapError::UnsupportedDebugPort(0x0000_3477)));
    assert_eq!(debug_power_up_request(0), Some(0x1000_0000));
    assert_eq!(debug_power_up_request(0x4000_0000), Some(0x5000_0000));
    assert_eq!(debug_power_up_request(0x2000_0000), None);
    assert_eq!(jtag_to_swd_swj_sequence().len(), 17);
    assert!(supports_atomic_commands(0x10));
    assert!(!supports_atomic_commands(0x01));
}

#[test]
fn access_planning() {
    assert_eq!(boundary_segments(0x3fc, 8), vec![(0x3fc, 4), (0x400, 4)]);
    assert_eq!(boundary_segments(0x100, 8), vec![(0x100, 8)]);
    assert_eq!(boundary_segments(0x100, 0), vec![]);
    assert_eq!(block_write_counts(16, 5), vec![2, 2, 1]);
    let (reads, end) = block_read_plan(9, 0x100, 5, 1);
    assert_eq!(
        reads,
        vec![BlockRead { addr: 0x100, count: 4, words: 1 }, BlockRead { addr: 0x104, count: 1, words: 1 }]
    );
    assert_eq!(end, 0x108);
}

#[test]
fn core_debug_registers() {
    assert_eq!(halt_request(0x0000_0000), Some(0xa05f_0003));
    assert_eq!(halt_request(0x0002_0003), None);
    assert!(is_halted(0x0002_0000));
    assert!(!is_halted(0x0000_0003));
    assert_eq!(halt_check(0x0002_0003), Ok(()));
    assert_eq!(halt_check(0x0002_0001), Err(DapError::HaltFailed(0x0002_0001)));
    assert_eq!(resume_request(0x0002_0003), 0xa05f_0001);
    assert_eq!(dcrsr_request(CoreRegister::R4, false), 4);
    assert_eq!(dcrsr_request(CoreRegister::R4, true), 0x0001_0004);
    assert_eq!(demcr_request(0, true), 1);
    assert_eq!(demcr_request(1, false), 0);
    assert_eq!(aircr_request(0), 0x05fa_0004);
}

#[test]
fn access_size_names() {
    assert_eq!(<u8 as Data>::acronym(), "B");
    assert_eq!(<u16 as Data>::acronym(), "H");
    assert_eq!(<u32 as Data>::acronym(), "W");
    assert_eq!(<u16 as Data>::bytes(), 2);
    assert_eq!(<u32 as Data>::csw_size(), 0b10);
}

#[test]
fn circular_buffer_read_needs_atomic_commands() {
    let mut dap = Dap::new();
    dap.set_packet_size(64);
    assert!(matches!(
        dap.read_hw_and_circbuf(0x01, 0x2000_0000, 0x2000_0100, 0, 16),
        Err(DapError::NoAtomicCommands)
    ));
    assert_eq!(dap.ap_bank(), None);
    let plan = dap.read_hw_and_circbuf(0x10, 0x2000_0000, 0x2000_0100, 0, 16).unwrap();
    assert_eq!(&plan.report[..3], &[0x00, 0x7f, 4]);
    assert_eq!(plan.first_len, 16);
    assert_eq!(plan.second_len, Some(24));
    assert_eq!(plan.resp_len, 60);
    assert_eq!(plan.start, 0x2000_0100);
    assert_eq!(dap.ap_bank(), Some(ApBank::AHB_AP(0)));
    let plan = dap.read_hw_and_circbuf(0x10, 0x2000_0000, 0x2000_0100, 0, 100).unwrap();
    assert_eq!(plan.first_len, 48);
    assert_eq!(plan.second_len, None);
    assert_eq!(plan.resp_len, 61);
    assert_eq!(plan.ncmds, 2);
}
