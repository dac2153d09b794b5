use embedded2020::cmsis_dap::core_ops::{CoreAction, CoreMachine, CoreOp};
use embedded2020::cmsis_dap::cortex_m::Register as CoreRegister;
use embedded2020::cmsis_dap::swd_setup::{SetupAction, SwdSetup};
use embedded2020::cmsis_dap::{Dap, DapError};

fn exchange(action: SetupAction) -> Vec<u8> {
    match action {
        SetupAction::Exchange(report) => report,
        SetupAction::Finished(r) => panic!("setup ended early: {:?}", r),
    }
}

fn finished(action: SetupAction) -> Result<u32, DapError> {
    match action {
        SetupAction::Exchange(report) => panic!("setup goes on with {:?}", report),
        SetupAction::Finished(r) => r,
    }
}

fn answer(setup: &mut SwdSetup, resp: &[u8]) -> SetupAction {
    assert_eq!(setup.expected_len() as usize, resp.len());
    setup.step(resp)
}

/// Drives the setup up to the DPIDR read and gives the machine there.
fn up_to_dpidr() -> SwdSetup {
    let (mut setup, first) = SwdSetup::start();
    assert_eq!(exchange(first), vec![0x00, 0x00, 0xf0]);
    let r = answer(&mut setup, &[0x00, 0x01, 0x13]);
    assert_eq!(exchange(r), vec![0x00, 0x02, 0x01]);
    let r = answer(&mut setup, &[0x02, 0x01]);
    assert_eq!(exchange(r), vec![0x00, 0x11, 0x00, 0x09, 0x3d, 0x00]);
    let r = answer(&mut setup, &[0x11, 0x00]);
    assert_eq!(exchange(r), vec![0x00, 0x04, 0x00, 0x01, 0x00, 0x00, 0x00]);
    let r = answer(&mut setup, &[0x04, 0x00]);
    let mut sequence = vec![0x00, 0x12, 136];
    sequence.extend_from_slice(&[
        0xff, 0xff, 0xff, 0xff, 0xff, 0xff, 0xff, 0x9e, 0xe7, 0xff, 0xff, 0xff, 0xff, 0xff, 0xff,
        0xff, 0x00,
    ]);
    assert_eq!(exchange(r), sequence);
    let r = answer(&mut setup, &[0x12, 0x00]);
    assert_eq!(exchange(r), vec![0x00, 0x05, 0x00, 0x01, 0x02]);
    setup
}

#[test]
fn swd_setup_with_powered_target() {
    let mut setup = up_to_dpidr();
    // DPv1, ARM
    let r = answer(&mut setup, &[0x05, 0x01, 0x01, 0x77, 0x14, 0xa0, 0x2b]);
    assert_eq!(exchange(r), vec![0x00, 0x05, 0x00, 0x01, 0x06]);
    let r = answer(&mut setup, &[0x05, 0x01, 0x01, 0x00, 0x00, 0x00, 0xf0]);
    assert_eq!(finished(r), Ok(1));
}

#[test]
fn swd_setup_powers_up_target() {
    let mut setup = up_to_dpidr();
    // DPv2, ARM
    let r = answer(&mut setup, &[0x05, 0x01, 0x01, 0x77, 0x24, 0x00, 0x0b]);
    assert_eq!(exchange(r), vec![0x00, 0x05, 0x00, 0x01, 0x06]);
    let r = answer(&mut setup, &[0x05, 0x01, 0x01, 0x00, 0x00, 0x00, 0x00]);
    assert_eq!(
        exchange(r),
        vec![0x00, 0x05, 0x00, 0x02, 0x04, 0x00, 0x00, 0x00, 0x10, 0x06]
    );
    let r = answer(&mut setup, &[0x05, 0x02, 0x01, 0x00, 0x00, 0x00, 0x20]);
    assert_eq!(
        exchange(r),
        vec![0x00, 0x05, 0x00, 0x02, 0x04, 0x00, 0x00, 0x00, 0x40, 0x06]
    );
    let r = answer(&mut setup, &[0x05, 0x02, 0x01, 0x00, 0x00, 0x00, 0xa0]);
    assert_eq!(finished(r), Ok(2));
}

#[test]
fn swd_setup_failures() {
    let (mut setup, _) = SwdSetup::start();
    assert_eq!(finished(answer(&mut setup, &[0x00, 0x01, 0x02])), Err(DapError::NoSwd));

    let (mut setup, _) = SwdSetup::start();
    assert_eq!(finished(answer(&mut setup, &[0x00, 0x02, 0x01])), Err(DapError::Failed(0x00)));

    let (mut setup, _) = SwdSetup::start();
    let _ = answer(&mut setup, &[0x00, 0x01, 0x01]);
    assert_eq!(finished(answer(&mut setup, &[0x02, 0x00])), Err(DapError::Failed(0x02)));

    let mut setup = up_to_dpidr();
    assert_eq!(
        finished(answer(&mut setup, &[0x05, 0x01, 0x01, 0x00, 0x10, 0x00, 0x00])),
        Err(DapError::NotArm(0x1000))
    );

    let mut setup = up_to_dpidr();
    assert_eq!(
        finished(answer(&mut setup, &[0x05, 0x01, 0x01, 0x77, 0x34, 0x00, 0x00])),
        Err(DapError::UnsupportedDebugPort(0x3477))
    );

    let mut setup = up_to_dpidr();
    assert_eq!(
        finished(answer(&mut setup, &[0x05, 0x01, 0x02, 0x77, 0x14, 0x00, 0x00])),
        Err(DapError::Failed(0x05))
    );

    let mut setup = up_to_dpidr();
    let _ = answer(&mut setup, &[0x05, 0x01, 0x01, 0x77, 0x14, 0x00, 0x00]);
    let _ = answer(&mut setup, &[0x05, 0x01, 0x01, 0x00, 0x00, 0x00, 0x00]);
    assert_eq!(
        finished(answer(&mut setup, &[0x05, 0x02, 0x01, 0x00, 0x00, 0x00, 0x00])),
        Err(DapError::DebugPowerUp)
    );
}

fn read_word(action: CoreAction) -> u32 {
    match action {
        CoreAction::ReadWord(addr) => addr,
        _ => panic!("expected a word read"),
    }
}

fn write_word(action: CoreAction) -> (u32, u32) {
    match action {
        CoreAction::WriteWord(addr, val) => (addr, val),
        _ => panic!("expected a word write"),
    }
}

fn core_result(action: CoreAction) -> Result<u32, DapError> {
    match action {
        CoreAction::Finished(r) => r,
        _ => panic!("expected the end of the operation"),
    }
}

#[test]
fn halt_enables_halting_debug_first() {
    let mut dap = Dap::new();
    let (mut m, a) = CoreMachine::start(CoreOp::Halt, &dap);
    assert_eq!(read_word(a), 0xe000_edf0);
    let a = m.step(&mut dap, 0);
    assert_eq!(write_word(a), (0xe000_edf0, 0xa05f_0001));
    let a = m.step(&mut dap, 0);
    assert_eq!(read_word(a), 0xe000_edf0);
    let a = m.step(&mut dap, 0x0000_0001);
    assert_eq!(dap.debugen(), Some(true));
    assert_eq!(read_word(a), 0xe000_edf0);
    let a = m.step(&mut dap, 0x0000_0001);
    assert_eq!(write_word(a), (0xe000_edf0, 0xa05f_0003));
    let a = m.step(&mut dap, 0);
    assert_eq!(read_word(a), 0xe000_edf0);
    let a = m.step(&mut dap, 0x0002_0003);
    assert_eq!(core_result(a), Ok(0));
}

#[test]
fn halt_failure_and_debugen_failure() {
    let mut dap = Dap::new();
    let (mut m, _) = CoreMachine::start(CoreOp::Halt, &dap);
    let _ = m.step(&mut dap, 0);
    let _ = m.step(&mut dap, 0);
    let a = m.step(&mut dap, 0);
    assert_eq!(core_result(a), Err(DapError::DebugenFailed(0)));
    assert_eq!(dap.debugen(), None);

    let mut dap = Dap::new();
    let (mut m, _) = CoreMachine::start(CoreOp::Halt, &dap);
    let _ = m.step(&mut dap, 1);
    let _ = m.step(&mut dap, 1);
    let _ = m.step(&mut dap, 0);
    let a = m.step(&mut dap, 1);
    assert_eq!(core_result(a), Err(DapError::HaltFailed(1)));
}

#[test]
fn core_register_read_polls_until_ready() {
    let mut dap = Dap::new();
    let (mut m, a) = CoreMachine::start(CoreOp::ReadRegister(CoreRegister::R0), &dap);
    assert_eq!(write_word(a), (0xe000_edf4, 0));
    let a = m.step(&mut dap, 0);
    assert_eq!(read_word(a), 0xe000_edf0);
    let a = m.step(&mut dap, 0);
    assert!(matches!(a, CoreAction::Sleep));
    let a = m.step(&mut dap, 0);
    assert_eq!(read_word(a), 0xe000_edf0);
    let a = m.step(&mut dap, 1 << 16);
    assert_eq!(read_word(a), 0xe000_edf8);
    let a = m.step(&mut dap, 0x1234_5678);
    assert_eq!(core_result(a), Ok(0x1234_5678));
}

#[test]
fn core_register_write_needs_halted_core() {
    let dap = Dap::new();
    let (_, a) = CoreMachine::start(CoreOp::WriteRegister(CoreRegister::R0, 7), &dap);
    assert_eq!(core_result(a), Err(DapError::NotHalted));
}

#[test]
fn reset_and_halt_sequence() {
    let mut dap = Dap::new();
    let (mut m, _) = CoreMachine::start(CoreOp::Reset(true), &dap);
    let a = m.step(&mut dap, 1);
    assert_eq!(read_word(a), 0xe000_edfc);
    let a = m.step(&mut dap, 0);
    assert_eq!(write_word(a), (0xe000_edfc, 1));
    let a = m.step(&mut dap, 0);
    assert_eq!(read_word(a), 0xe000_ed0c);
    let a = m.step(&mut dap, 0xfa05_0000);
    assert_eq!(write_word(a), (0xe000_ed0c, 0x05fa_0004));
    let a = m.step(&mut dap, 0);
    assert!(matches!(a, CoreAction::ReadStat));
    let a = m.step(&mut dap, 0);
    assert!(matches!(a, CoreAction::Sleep));
    let a = m.step(&mut dap, 0);
    assert!(matches!(a, CoreAction::ReadStat));
    let a = m.step(&mut dap, 0xa000_0000);
    assert_eq!(core_result(a), Ok(0));
}
