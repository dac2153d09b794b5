use embedded2020::cmsis_dap::cortex_m::Register;
use embedded2020::semidap::{
    buffer_symbol, channel_buffer, check_section, cursor_count, drain_step, exception_name,
    exception_registers, exit_status, find_range, frame_step, function_range, gimli2cortex,
    half_word, half_word_location, offset_address, parse_command, parse_hex, show_plan, show_rows,
    special_registers, strip_hash, syscall, vectactive, vectors, BufferSymbol, Command, DrainRead, FrameStep,
    Overrun, Part, ParseHexError, RegisterCache, SectionError, ShowPlan, Slot, Stacked, Syscall,
    WordRange, LR_END, SYS_ABORT, SYS_EXCEPTION, SYS_EXIT,
};

#[test]
fn cpuid_parts() {
    assert_eq!(Part::from(0x410f_c241), Part::CortexM4);
    assert_eq!(Part::from(0x410c_c601), Part::CortexM0Plus);
    assert_eq!(Part::from(0x410f_c270), Part::CortexM7);
    assert_eq!(Part::from(0x420f_c241), Part::Unknown);
    assert_eq!(Part::CortexM4.name(), "ARM Cortex-M4");
    assert_eq!(Part::Unknown.name(), "unknown part");
}

#[test]
fn hex_ids() {
    assert_eq!(parse_hex("0d28"), Ok(0x0d28));
    assert_eq!(parse_hex("FFFF"), Ok(0xffff));
    assert_eq!(parse_hex("10000"), Err(ParseHexError));
    assert_eq!(parse_hex(""), Err(ParseHexError));
    assert_eq!(parse_hex("12g4"), Err(ParseHexError));
}

#[test]
fn sections() {
    assert_eq!(check_section(0x2000_0000, 0x100), Ok(0x2000_0000));
    assert_eq!(check_section(0x1_0000_0000, 4), Err(SectionError::OutsideAddressSpace));
    assert_eq!(check_section(0xffff_fff0, 0x20), Err(SectionError::OutsideAddressSpace));
    assert_eq!(check_section(0x2000_0002, 4), Err(SectionError::Misaligned(0x2000_0002, 4)));
    assert_eq!(check_section(0x2000_0000, 6), Err(SectionError::Misaligned(0x2000_0000, 6)));
}

#[test]
fn vector_table() {
    let v = vectors(0x100, &[0x00, 0x00, 0x04, 0x20, 0x41, 0x01, 0x00, 0x00, 0xff]);
    assert_eq!(v.vtor, 0x100);
    assert_eq!(v.sp, 0x2004_0000);
    assert_eq!(v.pc, 0x141);
}

#[test]
fn hashes_are_stripped() {
    assert_eq!(strip_hash("app::main::hd881d91ced85c2b0"), "app::main");
    assert_eq!(strip_hash("app::main"), "app::main");
    assert_eq!(strip_hash(""), "");
}

#[test]
fn hash_length_counts_bytes() {
    // nineteen bytes: `::h` and eight two-byte characters
    assert_eq!(strip_hash("::h\u{e9}\u{e9}\u{e9}\u{e9}\u{e9}\u{e9}\u{e9}\u{e9}"), "");
    assert_eq!(strip_hash("f::h\u{e9}\u{e9}\u{e9}\u{e9}\u{e9}\u{e9}\u{e9}\u{e9}"), "f");
    // nineteen characters but more bytes: the last nineteen bytes do not start with `::h`
    let long = "::h\u{e9}\u{e9}\u{e9}\u{e9}\u{e9}\u{e9}\u{e9}\u{e9}\u{e9}\u{e9}\u{e9}\u{e9}\u{e9}\u{e9}\u{e9}\u{e9}";
    assert_eq!(strip_hash(long), long);
}

#[test]
fn symbols() {
    assert_eq!(function_range(0x101, 0x20), (0x100, 0x120));
    assert_eq!(cursor_count(8), 4);
    assert_eq!(buffer_symbol(0x2000_0000, 1024), BufferSymbol::Buffer(0x2000_0000, 1024));
    assert_eq!(buffer_symbol(0x2000_0000, 1000), BufferSymbol::Malformed);
    assert_eq!(buffer_symbol(0x1_0000_0000, 1024), BufferSymbol::OutOfRange);
    assert_eq!(channel_buffer(0x2000_0000, 1024, 4, 3), (0x2000_0300, 256));
}

#[test]
fn drain_in_one_read() {
    let step = drain_step(10, 4, 16, 0x1000).unwrap();
    assert_eq!(step.available, 6);
    assert_eq!(step.next_read, 10);
    assert_eq!(step.read, DrainRead::Single(0x1004, 6));
}

#[test]
fn drain_wrapping_around_the_buffer() {
    let step = drain_step(20, 12, 16, 0x1000).unwrap();
    assert_eq!(step.available, 8);
    assert_eq!(step.next_read, 20);
    assert_eq!(step.read, DrainRead::Split(0x100c, 4, 0x1000, 4));
    let step = drain_step(20, 13, 16, 0x1000).unwrap();
    assert_eq!(step.read, DrainRead::Split(0x100d, 4, 0x1000, 3));
}

#[test]
fn drain_overrun() {
    assert_eq!(drain_step(40, 4, 16, 0x1000), Err(Overrun));
}

#[test]
fn drain_with_wrapped_cursors() {
    // the cursors are compared as 32-bit numbers: a write cursor that wrapped past 16 bits
    // looks like an overrun
    assert_eq!(drain_step(2, 0xfffe, 16, 0x1000), Err(Overrun));
}

#[test]
fn system_calls() {
    assert_eq!(syscall(SYS_EXIT), Syscall::Exit);
    assert_eq!(syscall(SYS_EXCEPTION), Syscall::Exception);
    assert_eq!(syscall(SYS_ABORT), Syscall::Abort);
    assert_eq!(syscall(0x4770), Syscall::Unknown(0x4770));
    assert_eq!(exit_status(0xffff_ffff), -1);
    assert_eq!(exit_status(3), 3);
}

#[test]
fn exceptions() {
    assert_eq!(vectactive(0x0040_0803), 3);
    assert_eq!(exception_name(3), "HardFault");
    assert_eq!(exception_name(15), "SysTick");
    assert_eq!(exception_name(21), "IRQ5");
    assert_eq!(exception_name(7), "??? (ICSR.VECTACTIVE = 7)");
    assert_eq!(special_registers(0x0102_0304), (1, 2, 3, 4));
}

#[test]
fn stacked_registers() {
    let words = [1, 2, 3, 4, 12, 0x101, 0x200, 0x0100_0000];
    let s = Stacked::from_words(&words);
    assert_eq!(s.pc, 0x200);
    assert_eq!(s.xpsr, 0x0100_0000);
    assert!(!s.overflowed(1, 2, 3, 4, 12));
    assert!(s.overflowed(1, 2, 3, 5, 12));
    let core: Vec<u32> = (0..13).collect();
    let regs = exception_registers(&core, 0x2000_0000, s, false);
    assert_eq!(regs.len(), 17);
    assert_eq!(regs[0], (Register::R0, 0));
    assert_eq!(regs[12], (Register::R12, 12));
    assert_eq!(regs[13], (Register::SP, 0x2000_0020));
    assert_eq!(regs[14], (Register::PC, 0x200));
    assert_eq!(regs[15], (Register::LR, 0x101));
    assert_eq!(regs[16], (Register::XPSR, 0x0100_0000));
    assert_eq!(exception_registers(&core, 0x2000_0000, s, true).len(), 14);
}

#[test]
fn unwinding() {
    assert_eq!(gimli2cortex(13), Register::SP);
    assert_eq!(gimli2cortex(14), Register::LR);
    assert_eq!(gimli2cortex(7), Register::R7);
    assert_eq!(offset_address(0x2000_0010, -8), 0x2000_0008);
    assert_eq!(frame_step(LR_END, 0, true), FrameStep::End);
    assert_eq!(frame_step(0x101, 0x101, false), FrameStep::Corrupted);
    assert_eq!(frame_step(0xffff_fff9, 0x100, true), FrameStep::ExceptionEntry);
    assert_eq!(frame_step(0x100, 0x200, true), FrameStep::NoThumbBit(0x100));
    assert_eq!(frame_step(0x101, 0x200, true), FrameStep::Next(0x100));

    let mut cache = RegisterCache::new(0x101, 0x2000_0000);
    assert_eq!(cache.lookup(Register::LR), Some(0x101));
    assert_eq!(cache.lookup(Register::R4), None);
    cache.insert(Register::R4, 7);
    cache.insert(Register::LR, 0x301);
    assert_eq!(cache.lookup(Register::R4), Some(7));
    assert_eq!(cache.lookup(Register::LR), Some(0x301));
    assert_eq!(cache.lookup(Register::SP), Some(0x2000_0000));
}

#[test]
fn binary_search_of_ranges() {
    let ranges = [(0x100, 0x120), (0x120, 0x180), (0x200, 0x210)];
    assert_eq!(find_range(&ranges, 0x100), Some(0));
    assert_eq!(find_range(&ranges, 0x17f), Some(1));
    assert_eq!(find_range(&ranges, 0x20f), Some(2));
    assert_eq!(find_range(&ranges, 0x180), None);
    assert_eq!(find_range(&ranges, 0x210), None);
    assert_eq!(find_range(&[], 0), None);
}

#[test]
fn prompt_commands() {
    assert_eq!(parse_command("   "), Command::Empty);
    assert_eq!(parse_command("# comment"), Command::Empty);
    assert_eq!(parse_command(" help "), Command::Help);
    assert_eq!(parse_command("quit# bye"), Command::Quit);
    assert_eq!(parse_command("quit # bye"), Command::Unknown);
    assert_eq!(parse_command("frobnicate"), Command::Unknown);
    assert_eq!(
        parse_command("show 0x2000_0000 4"),
        Command::Show(Some(0x2000_0000), Some(WordRange { start: 0, end: 4 }))
    );
    assert_eq!(
        parse_command("show 1024 -2"),
        Command::Show(Some(1024), Some(WordRange { start: -2, end: 1 }))
    );
    assert_eq!(
        parse_command("show 0x10 -1 2"),
        Command::Show(Some(0x10), Some(WordRange { start: -1, end: 3 }))
    );
    assert_eq!(parse_command("show zz 1"), Command::Show(None, Some(WordRange { start: 0, end: 1 })));
    assert_eq!(parse_command("show 0x10 1 2"), Command::Show(Some(0x10), None));
}

#[test]
fn show_plans() {
    assert_eq!(show_plan(0x2000_0002, WordRange { start: 0, end: 1 }), ShowPlan::Misaligned);
    assert_eq!(show_plan(0x2000_0000, WordRange { start: 0, end: 0 }), ShowPlan::Nothing);
    assert_eq!(
        show_plan(0x2000_0010, WordRange { start: -1, end: 2 }),
        ShowPlan::Read { start: 0x2000_000c, end: 0x2000_0018, n: 3 }
    );
}

#[test]
fn memory_dump_rows() {
    let rows = show_rows(0x2000_0010, 0x2000_000c, 0x2000_0018);
    assert_eq!(rows.len(), 2);
    assert_eq!(rows[0].address, 0x2000_0000);
    assert_eq!(rows[0].slots, vec![Slot::Blank, Slot::Blank, Slot::Blank, Slot::Word(0, false)]);
    assert_eq!(rows[1].address, 0x2000_0010);
    assert_eq!(rows[1].slots, vec![Slot::Word(1, true), Slot::Word(2, false), Slot::Blank, Slot::Blank]);
}

#[test]
fn cfa_updates_and_half_words() {
    let mut cache = RegisterCache::new(0x101, 0x2000_0000);
    assert!(!cache.update_sp(0x2000_0000));
    assert!(cache.update_sp(0x2000_0010));
    assert_eq!(cache.lookup(Register::SP), Some(0x2000_0010));
    assert_eq!(half_word_location(0x2000_0004), (0x2000_0004, false));
    assert_eq!(half_word_location(0x2000_0006), (0x2000_0004, true));
    assert_eq!(half_word(0x1234_5678, true), 0x1234);
    assert_eq!(half_word(0x1234_5678, false), 0x5678);
}

#[test]
fn drain_limits() {
    assert!(embedded2020::semidap::drain_step_accepts(10, 4, 16, 0x1000));
    assert!(!embedded2020::semidap::drain_step_accepts(10, 4, 0, 0x1000));
    assert!(!embedded2020::semidap::drain_step_accepts(10, 4, 16, 0xffff_fffe));
    // overruns are reported by `drain_step`, whatever the address
    assert!(embedded2020::semidap::drain_step_accepts(40, 4, 16, 0xffff_ffe0));
}

#[test]
fn a_halt_is_handled_on_the_second_poll() {
    let mut w = embedded2020::semidap::HaltWatch::new();
    assert!(!w.poll(false));
    assert!(!w.poll(true));
    assert!(w.poll(true));
    assert!(!w.poll(false));
    assert!(w.poll(true));
}
