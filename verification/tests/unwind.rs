use embedded2020::cmsis_dap::cortex_m::Register;
use embedded2020::semidap::unwind::{
    CfaRule, RegisterRule, UnwindAction, UnwindEnd, UnwindEvent, UnwindRow, Unwinder,
};
use embedded2020::semidap::Stacked;

fn row(cfa: CfaRule, registers: Vec<(u16, RegisterRule)>) -> UnwindEvent {
    UnwindEvent::Row(UnwindRow { cfa, registers })
}

fn step(u: &mut Unwinder, ev: UnwindEvent) -> UnwindAction {
    assert!(u.accepts(&ev));
    u.step(ev)
}

#[test]
fn unwinds_two_frames_to_the_end() {
    let (mut u, a) = Unwinder::new(0x0800_0101, 0x0800_0200, 0x2000_1000);
    assert_eq!(a, UnwindAction::Lookup(0, 0x0800_0200));

    // CFA = SP + 8; LR saved at CFA - 4, R7 at CFA - 8
    let a = step(
        &mut u,
        row(
            CfaRule::RegisterAndOffset(13, 8),
            vec![(14, RegisterRule::Offset(-4)), (7, RegisterRule::Offset(-8))],
        ),
    );
    assert_eq!(a, UnwindAction::ReadWord(0x2000_1004));
    let a = step(&mut u, UnwindEvent::Word(0x0800_0301));
    assert_eq!(a, UnwindAction::ReadWord(0x2000_1000));
    let a = step(&mut u, UnwindEvent::Word(0x2000_0ff0));
    assert_eq!(a, UnwindAction::Lookup(1, 0x0800_0300));

    // CFA = R7 + 16 (R7 is known now); LR saved at CFA - 4
    let a = step(
        &mut u,
        row(CfaRule::RegisterAndOffset(7, 16), vec![(14, RegisterRule::Offset(-4))]),
    );
    assert_eq!(a, UnwindAction::ReadWord(0x2000_0ffc));
    let a = step(&mut u, UnwindEvent::Word(0xffff_ffff));
    assert_eq!(a, UnwindAction::Finished(UnwindEnd::End));
}

#[test]
fn reads_the_cfa_base_when_unknown() {
    let (mut u, _) = Unwinder::new(0x0800_0101, 0x0800_0200, 0x2000_1000);
    let a = step(&mut u, row(CfaRule::RegisterAndOffset(4, 4), vec![]));
    assert_eq!(a, UnwindAction::ReadRegister(Register::R4));
    // no rule: LR stays, the CFA changed, LR has the Thumb bit
    let a = step(&mut u, UnwindEvent::RegisterValue(0x2000_0800));
    assert_eq!(a, UnwindAction::Lookup(1, 0x0800_0100));
}

#[test]
fn exception_entry_and_stack_corruption() {
    let (mut u, _) = Unwinder::new(0xffff_fff9, 0x0800_0200, 0x2000_1000);
    let a = step(&mut u, row(CfaRule::RegisterAndOffset(13, 0), vec![]));
    assert_eq!(a, UnwindAction::ReadStacked(0x2000_1000));
    let stacked = Stacked::from_words(&[0, 1, 2, 3, 12, 0x0800_0400, 0x0800_0400, 0x0100_0000]);
    let a = step(&mut u, UnwindEvent::Stacked(stacked));
    assert_eq!(a, UnwindAction::Lookup(1, 0x0800_0400));
    // SP moved past the stacked registers and the CFA rule keeps it; LR equals PC
    let a = step(&mut u, row(CfaRule::RegisterAndOffset(13, 0), vec![]));
    assert_eq!(a, UnwindAction::Finished(UnwindEnd::Corrupted));
}

#[test]
fn lr_without_thumb_bit() {
    let (mut u, _) = Unwinder::new(0x0800_0100, 0x0800_0200, 0x2000_1000);
    let a = step(&mut u, row(CfaRule::RegisterAndOffset(13, 8), vec![]));
    assert_eq!(a, UnwindAction::Finished(UnwindEnd::NoThumbBit(0x0800_0100)));
}

#[test]
fn unsupported_events() {
    let (u, _) = Unwinder::new(0x0800_0101, 0x0800_0200, 0x2000_1000);
    assert!(!u.accepts(&row(CfaRule::Expression, vec![])));
    assert!(!u.accepts(&row(
        CfaRule::RegisterAndOffset(13, 0),
        vec![(14, RegisterRule::Undefined)]
    )));
    assert!(!u.accepts(&row(CfaRule::RegisterAndOffset(0, 0), vec![])));
    assert!(!u.accepts(&UnwindEvent::Word(0)));
    assert!(!u.accepts(&row(
        CfaRule::RegisterAndOffset(13, 0),
        vec![(14, RegisterRule::Offset(i64::MAX))]
    )));
}
