//! The stack unwinder of the backtrace: given the unwind table row of each frame and the
//! register and memory values it asks for, it decides the next access and the next frame. The
//! caller looks the rows up in `.debug_frame`, reads the target and steps the unwinder with
//! what it got.
use vstd::prelude::*;

use crate::cmsis_dap::cortex_m::Register;
use crate::semidap::{
    dwarf_register_spec, frame_step, frame_step_spec, gimli2cortex, offset_address, FrameStep,
    RegisterCache, Stacked, STACKED_SIZE,
};

verus! {

/// How the canonical frame address (CFA) of a frame is computed.
#[derive(Clone, Copy, PartialEq, Eq, Debug, Structural)]
pub enum CfaRule {
    /// The value of the register with this DWARF number, plus the offset
    RegisterAndOffset(u16, i64),
    /// A DWARF expression
    Expression,
}

/// How the value that a register had in the caller is found.
#[derive(Clone, Copy, PartialEq, Eq, Debug, Structural)]
pub enum RegisterRule {
    /// The value cannot be recovered
    Undefined,
    /// The register was not changed
    SameValue,
    /// Saved at the CFA plus this offset
    Offset(i64),
    /// The CFA plus this offset
    ValOffset(i64),
    /// In the register with this DWARF number
    Register(u16),
    /// Saved at the address that a DWARF expression gives
    Expression,
    /// The value that a DWARF expression gives
    ValExpression,
    /// Defined by the architecture
    Architectural,
}

/// The unwind table row of a frame: how its CFA is computed and, for each register with a
/// rule, its DWARF number and rule.
pub struct UnwindRow {
    /// The CFA rule
    pub cfa: CfaRule,
    /// The register rules
    pub registers: Vec<(u16, RegisterRule)>,
}

/// Where the unwinder stands: what it waits for.
#[derive(Clone, Copy, PartialEq, Eq, Debug, Structural)]
pub enum UnwindPhase {
    /// The unwind table row of the current frame
    AwaitRow,
    /// The value of this register, the base of the CFA, to which this offset is added
    AwaitCfaBase(Register, i64),
    /// The word saved for this register
    AwaitSaved(Register),
    /// The registers stacked on exception entry
    AwaitStacked,
    /// Nothing: the backtrace is over
    Done,
}

/// How the backtrace ends.
#[derive(Clone, Copy, PartialEq, Eq, Debug, Structural)]
pub enum UnwindEnd {
    /// LR holds its reset value: the stack ends here
    End,
    /// The stack appears to be corrupted beyond the last frame
    Corrupted,
    /// LR lacks the Thumb bit
    NoThumbBit(u32),
}

/// What the caller does next.
#[derive(Clone, Copy, PartialEq, Eq, Debug, Structural)]
pub enum UnwindAction {
    /// Show frame number `.0` at PC `.1`, and look up its unwind table row
    Lookup(u32, u32),
    /// Read this core register
    ReadRegister(Register),
    /// Read the word at this address
    ReadWord(u32),
    /// Read the eight registers stacked at this address on exception entry
    ReadStacked(u32),
    /// The backtrace is over
    Finished(UnwindEnd),
}

/// What the caller got.
pub enum UnwindEvent {
    /// The unwind table row of the current frame
    Row(UnwindRow),
    /// The value of the register asked for
    RegisterValue(u32),
    /// The word asked for
    Word(u32),
    /// The stacked registers asked for
    Stacked(Stacked),
}

/// The state of the unwinder, as plain values.
pub struct UnwindState {
    /// PC of the current frame
    pub pc: u32,
    /// Number of the current frame
    pub frame: u32,
    /// What the unwinder waits for
    pub phase: UnwindPhase,
    /// Whether the current frame's rules changed the CFA
    pub cfa_changed: bool,
    /// The register rules of the current frame
    pub rules: Seq<(u16, RegisterRule)>,
    /// Index of the next rule to apply
    pub index: int,
    /// The register values known
    pub known: Map<Register, u32>,
}

/// The stack unwinder
pub struct Unwinder {
    /// PC of the current frame
    pub pc: u32,
    /// Number of the current frame
    pub frame: u32,
    /// What the unwinder waits for
    pub phase: UnwindPhase,
    /// Whether the current frame's rules changed the CFA
    pub cfa_changed: bool,
    /// The register rules of the current frame
    pub rules: Vec<(u16, RegisterRule)>,
    /// Index of the next rule to apply
    pub index: usize,
    /// The register values known
    pub cache: RegisterCache,
}

impl View for Unwinder {
    type V = UnwindState;

    open spec fn view(&self) -> UnwindState {
        UnwindState {
            pc: self.pc,
            frame: self.frame,
            phase: self.phase,
            cfa_changed: self.cfa_changed,
            rules: self.rules@,
            index: self.index as int,
            known: self.cache.known(),
        }
    }
}

/// The DWARF register numbers that the unwinder knows: R4 to R11, SP and LR.
pub open spec fn dwarf_known(reg: u16) -> bool {
    4 <= reg <= 11 || reg == 13 || reg == 14
}

/// The rows that the unwinder follows: the CFA is a register plus an offset, and each register
/// rule saves a register that it knows at an offset from the CFA.
pub open spec fn row_supported(cfa: CfaRule, rules: Seq<(u16, RegisterRule)>) -> bool {
    &&& cfa matches CfaRule::RegisterAndOffset(b, _) && dwarf_known(b)
    &&& forall|i: int| 0 <= i < rules.len() ==> dwarf_known((#[trigger] rules[i]).0) && rules[i].1 is Offset
}

/// The offset of a rule that saves a register at an offset from the CFA.
pub open spec fn rule_offset(rule: RegisterRule) -> i64 {
    match rule {
        RegisterRule::Offset(o) => o,
        _ => 0,
    }
}

/// The state with `cfa` as the new SP, remembering whether it changed.
pub open spec fn with_cfa(st: UnwindState, cfa: u32) -> UnwindState {
    UnwindState {
        cfa_changed: !(st.known.contains_key(Register::SP) && st.known[Register::SP] == cfa),
        known: st.known.insert(Register::SP, cfa),
        ..st
    }
}

/// The number of the frame after frame `f`, wrapping around.
pub open spec fn next_frame(f: u32) -> u32 {
    if f < u32::MAX { (f + 1) as u32 } else { 0 }
}

/// What the unwinder does once the frame's rules have been applied, LR being `lr`.
pub open spec fn frame_decide(st: UnwindState, lr: u32) -> (UnwindState, UnwindAction) {
    match frame_step_spec(lr, st.pc, st.cfa_changed) {
        FrameStep::End => (UnwindState { phase: UnwindPhase::Done, ..st }, UnwindAction::Finished(UnwindEnd::End)),
        FrameStep::Corrupted => (UnwindState { phase: UnwindPhase::Done, ..st }, UnwindAction::Finished(UnwindEnd::Corrupted)),
        FrameStep::NoThumbBit(l) => (UnwindState { phase: UnwindPhase::Done, ..st }, UnwindAction::Finished(UnwindEnd::NoThumbBit(l))),
        FrameStep::ExceptionEntry => (UnwindState { phase: UnwindPhase::AwaitStacked, ..st }, UnwindAction::ReadStacked(st.known[Register::SP])),
        FrameStep::Next(next) => (
            UnwindState { pc: next, frame: next_frame(st.frame), phase: UnwindPhase::AwaitRow, ..st },
            UnwindAction::Lookup(next_frame(st.frame), next),
        ),
    }
}

/// The next rule of the frame to apply, or, once they are all applied, what follows the frame.
pub open spec fn next_rule(st: UnwindState) -> (UnwindState, UnwindAction) {
    if st.index < st.rules.len() {
        let (reg, rule) = st.rules[st.index];
        (
            UnwindState { phase: UnwindPhase::AwaitSaved(dwarf_register_spec(reg)), ..st },
            UnwindAction::ReadWord((st.known[Register::SP] + rule_offset(rule)) as u32),
        )
    } else {
        frame_decide(st, st.known[Register::LR])
    }
}

/// What the unwinder does with the unwind table row of its frame: it computes the CFA when it
/// knows the base register, or asks for it, and goes on with the row's rules.
pub open spec fn row_step(st: UnwindState, cfa: CfaRule, rules: Seq<(u16, RegisterRule)>) -> (UnwindState, UnwindAction) {
    let st1 = UnwindState { rules: rules, index: 0, ..st };
    match cfa {
        CfaRule::RegisterAndOffset(b, o) => {
            let r = dwarf_register_spec(b);
            if st.known.contains_key(r) {
                next_rule(with_cfa(st1, (st.known[r] + o) as u32))
            } else {
                (UnwindState { phase: UnwindPhase::AwaitCfaBase(r, o), ..st1 }, UnwindAction::ReadRegister(r))
            }
        },
        CfaRule::Expression => (st, UnwindAction::Finished(UnwindEnd::End)),
    }
}

/// What the unwinder does with an event: its next state and action.
pub open spec fn unwind_step(st: UnwindState, ev: UnwindEvent) -> (UnwindState, UnwindAction) {
    match (st.phase, ev) {
        (UnwindPhase::AwaitRow, UnwindEvent::Row(row)) => row_step(st, row.cfa, row.registers@),
        (UnwindPhase::AwaitCfaBase(r, o), UnwindEvent::RegisterValue(v)) => {
            next_rule(with_cfa(UnwindState { known: st.known.insert(r, v), ..st }, (v + o) as u32))
        },
        (UnwindPhase::AwaitSaved(r), UnwindEvent::Word(w)) => {
            next_rule(UnwindState { known: st.known.insert(r, w), index: st.index + 1, ..st })
        },
        (UnwindPhase::AwaitStacked, UnwindEvent::Stacked(s)) => {
            let sp = st.known[Register::SP];
            (
                UnwindState {
                    known: st.known.insert(Register::LR, s.lr).insert(Register::SP, (sp + STACKED_SIZE) as u32),
                    pc: s.pc,
                    frame: next_frame(st.frame),
                    phase: UnwindPhase::AwaitRow,
                    ..st
                },
                UnwindAction::Lookup(next_frame(st.frame), s.pc),
            )
        },
        _ => (st, UnwindAction::Finished(UnwindEnd::End)),
    }
}

/// Whether the address of the next rule to apply, if any, is computed without overflow, SP
/// being `sp`.
pub open spec fn next_rule_fits(rules: Seq<(u16, RegisterRule)>, index: int, sp: u32) -> bool {
    index < rules.len() ==> sp + rule_offset(rules[index].1) <= i64::MAX
}

/// Whether the unwinder takes an unwind table row in its present state: it waits for one, the
/// row is supported, and the CFA and the address of the first saved register are computed
/// without overflow.
pub open spec fn row_fits(st: UnwindState, cfa: CfaRule, rules: Seq<(u16, RegisterRule)>) -> bool {
    &&& st.phase == UnwindPhase::AwaitRow
    &&& row_supported(cfa, rules)
    &&& cfa matches CfaRule::RegisterAndOffset(b, o) && (st.known.contains_key(dwarf_register_spec(b)) ==> {
        &&& st.known[dwarf_register_spec(b)] + o <= i64::MAX
        &&& next_rule_fits(rules, 0, (st.known[dwarf_register_spec(b)] + o) as u32)
    })
}

/// The events that the unwinder takes in each phase: the one it waits for, with a supported row,
/// and values for which the CFA, the addresses of the saved registers and SP after the
/// exception entry are computed without overflow.
pub open spec fn event_fits(st: UnwindState, ev: UnwindEvent) -> bool {
    match (st.phase, ev) {
        (_, UnwindEvent::Row(row)) => row_fits(st, row.cfa, row.registers@),
        (UnwindPhase::AwaitCfaBase(_, o), UnwindEvent::RegisterValue(v)) => {
            &&& v + o <= i64::MAX
            &&& next_rule_fits(st.rules, st.index, (v + o) as u32)
        },
        (UnwindPhase::AwaitSaved(r), UnwindEvent::Word(w)) => {
            next_rule_fits(st.rules, st.index + 1, if r == Register::SP { w } else { st.known[Register::SP] })
        },
        (UnwindPhase::AwaitStacked, UnwindEvent::Stacked(_)) => st.known[Register::SP] + STACKED_SIZE <= u32::MAX,
        _ => false,
    }
}

impl Unwinder {
    /// The unwinder is in order: SP and LR are known, and the rules of the frame are supported.
    pub open spec fn wf(&self) -> bool {
        &&& self.cache.wf()
        &&& self@.known.contains_key(Register::SP)
        &&& self@.known.contains_key(Register::LR)
        &&& self.index <= self.rules@.len()
        &&& forall|i: int| 0 <= i < self.rules@.len() ==> dwarf_known((#[trigger] self.rules@[i]).0) && self.rules@[i].1 is Offset
        &&& self.phase matches UnwindPhase::AwaitCfaBase(_, _) ==> self.index == 0
        &&& self.phase matches UnwindPhase::AwaitSaved(_) ==> self.index < self.rules@.len()
    }

    /// Starts the backtrace of the frame at `pc`, with `lr` and `sp`; the first action shows it.
    pub fn new(lr: u32, pc: u32, sp: u32) -> (r: (Unwinder, UnwindAction))
        ensures
            r.0.wf(),
            r.0@.pc == pc,
            r.0@.frame == 0,
            r.0@.phase == UnwindPhase::AwaitRow,
            r.0@.known == map![Register::LR => lr, Register::SP => sp],
            r.1 == UnwindAction::Lookup(0, pc),
    {
        let cache = RegisterCache::new(lr, sp);
        let u = Unwinder {
            pc,
            frame: 0,
            phase: UnwindPhase::AwaitRow,
            cfa_changed: false,
            rules: Vec::new(),
            index: 0,
            cache,
        };
        assert(u@.known =~= map![Register::LR => lr, Register::SP => sp]);
        (u, UnwindAction::Lookup(0, pc))
    }

    /// Records the value of a register.
    fn set(&mut self, reg: Register, val: u32)
        requires
            old(self).wf(),
        ensures
            final(self).wf(),
            final(self)@ == (UnwindState { known: old(self)@.known.insert(reg, val), ..old(self)@ }),
    {
        self.cache.insert(reg, val);
        assert(self@.known =~= old(self)@.known.insert(reg, val));
    }

    /// Records the CFA as the new SP.
    fn set_cfa(&mut self, cfa: u32)
        requires
            old(self).wf(),
        ensures
            final(self).wf(),
            final(self)@ == with_cfa(old(self)@, cfa),
    {
        let changed = self.cache.update_sp(cfa);
        self.cfa_changed = changed;
        assert(self@.known =~= old(self)@.known.insert(Register::SP, cfa));
    }

    /// The value known for a register that is always known.
    fn known(&self, reg: Register) -> (r: u32)
        requires
            self.wf(),
            reg == Register::SP || reg == Register::LR,
        ensures
            r == self@.known[reg],
    {
        match self.cache.lookup(reg) {
            Some(v) => v,
            None => 0,
        }
    }

    /// Decides what follows the frame once its rules are applied.
    fn decide(&mut self) -> (r: UnwindAction)
        requires
            old(self).wf(),
            old(self).index == old(self).rules@.len(),
        ensures
            final(self).wf(),
            (final(self)@, r) == frame_decide(old(self)@, old(self)@.known[Register::LR]),
    {
        let lr = self.known(Register::LR);
        match frame_step(lr, self.pc, self.cfa_changed) {
            FrameStep::End => {
                self.phase = UnwindPhase::Done;
                UnwindAction::Finished(UnwindEnd::End)
            },
            FrameStep::Corrupted => {
                self.phase = UnwindPhase::Done;
                UnwindAction::Finished(UnwindEnd::Corrupted)
            },
            FrameStep::NoThumbBit(l) => {
                self.phase = UnwindPhase::Done;
                UnwindAction::Finished(UnwindEnd::NoThumbBit(l))
            },
            FrameStep::ExceptionEntry => {
                self.phase = UnwindPhase::AwaitStacked;
                UnwindAction::ReadStacked(self.known(Register::SP))
            },
            FrameStep::Next(next) => {
                let frame = if self.frame < u32::MAX { self.frame + 1 } else { 0 };
                self.pc = next;
                self.frame = frame;
                self.phase = UnwindPhase::AwaitRow;
                UnwindAction::Lookup(frame, next)
            },
        }
    }

    /// Applies the next rule of the frame, or decides what follows the frame.
    fn next(&mut self) -> (r: UnwindAction)
        requires
            old(self).wf(),
            next_rule_fits(old(self)@.rules, old(self)@.index, old(self)@.known[Register::SP]),
        ensures
            final(self).wf(),
            (final(self)@, r) == next_rule(old(self)@),
    {
        if self.index < self.rules.len() {
            let (reg, rule) = self.rules[self.index];
            let offset = match rule {
                RegisterRule::Offset(o) => o,
                _ => 0,
            };
            let sp = self.known(Register::SP);
            self.phase = UnwindPhase::AwaitSaved(gimli2cortex(reg));
            UnwindAction::ReadWord(offset_address(sp, offset))
        } else {
            self.decide()
        }
    }

    /// Steps the unwinder with what the caller got for its last action.
    pub fn step(&mut self, ev: UnwindEvent) -> (r: UnwindAction)
        requires
            old(self).wf(),
            event_fits(old(self)@, ev),
        ensures
            final(self).wf(),
            (final(self)@, r) == unwind_step(old(self)@, ev),
    {
        match ev {
            UnwindEvent::Row(row) => {
                let ghost st = self@;
                let (b, o) = match row.cfa {
                    CfaRule::RegisterAndOffset(b, o) => (b, o),
                    CfaRule::Expression => (13, 0),
                };
                self.rules = row.registers;
                self.index = 0;
                let r = gimli2cortex(b);
                match self.cache.lookup(r) {
                    Some(v) => {
                        self.set_cfa(offset_address(v, o));
                        self.next()
                    },
                    None => {
                        self.phase = UnwindPhase::AwaitCfaBase(r, o);
                        UnwindAction::ReadRegister(r)
                    },
                }
            },
            UnwindEvent::RegisterValue(v) => {
                let (r, o) = match self.phase {
                    UnwindPhase::AwaitCfaBase(r, o) => (r, o),
                    _ => (Register::SP, 0),
                };
                self.set(r, v);
                self.set_cfa(offset_address(v, o));
                self.next()
            },
            UnwindEvent::Word(w) => {
                assert(self.phase is AwaitSaved);
                let r = match self.phase {
                    UnwindPhase::AwaitSaved(r) => r,
                    _ => Register::SP,
                };
                self.set(r, w);
                assert(self.index < self.rules.len());
                self.phase = UnwindPhase::AwaitRow;
                self.index = self.index + 1;
                self.next()
            },
            UnwindEvent::Stacked(s) => {
                let sp = self.known(Register::SP);
                self.set(Register::LR, s.lr);
                self.set(Register::SP, sp + STACKED_SIZE);
                let frame = if self.frame < u32::MAX { self.frame + 1 } else { 0 };
                self.pc = s.pc;
                self.frame = frame;
                self.phase = UnwindPhase::AwaitRow;
                UnwindAction::Lookup(frame, s.pc)
            },
        }
    }
}

/// Whether the address of the rule at `index`, if any, is computed without overflow, SP being `sp`.
fn rule_fits(rules: &Vec<(u16, RegisterRule)>, index: usize, sp: u32) -> (r: bool)
    ensures
        r == next_rule_fits(rules@, index as int, sp),
{
    if index < rules.len() {
        let o = match rules[index].1 {
            RegisterRule::Offset(o) => o,
            _ => 0,
        };
        o <= i64::MAX - sp as i64
    } else {
        true
    }
}

/// Whether the unwinder knows the DWARF register number.
fn known_number(reg: u16) -> (r: bool)
    ensures
        r == dwarf_known(reg),
{
    4 <= reg && reg <= 11 || reg == 13 || reg == 14
}

/// Whether the row's rules are supported.
fn rules_supported(rules: &Vec<(u16, RegisterRule)>) -> (r: bool)
    ensures
        r == forall|i: int| 0 <= i < rules@.len() ==> dwarf_known((#[trigger] rules@[i]).0) && rules@[i].1 is Offset,
{
    let mut i: usize = 0;
    while i < rules.len()
        invariant
            i <= rules@.len(),
            forall|k: int| 0 <= k < i ==> dwarf_known((#[trigger] rules@[k]).0) && rules@[k].1 is Offset,
        decreases rules.len() - i,
    {
        let (reg, rule) = rules[i];
        let offset = match rule {
            RegisterRule::Offset(_) => true,
            _ => false,
        };
        if !known_number(reg) || !offset {
            return false;
        }
        i = i + 1;
    }
    true
}

impl Unwinder {
    /// Whether the unwinder takes the event in its present state.
    pub fn accepts(&self, ev: &UnwindEvent) -> (r: bool)
        requires
            self.wf(),
        ensures
            r == event_fits(self@, *ev),
    {
        match ev {
            UnwindEvent::Row(row) => {
                if self.phase != UnwindPhase::AwaitRow {
                    return false;
                }
                let (b, o) = match row.cfa {
                    CfaRule::RegisterAndOffset(b, o) => (b, o),
                    CfaRule::Expression => return false,
                };
                if !known_number(b) || !rules_supported(&row.registers) {
                    return false;
                }
                match self.cache.lookup(gimli2cortex(b)) {
                    Some(v) => {
                        if o > i64::MAX - v as i64 {
                            return false;
                        }
                        rule_fits(&row.registers, 0, offset_address(v, o))
                    },
                    None => true,
                }
            },
            UnwindEvent::RegisterValue(v) => match self.phase {
                UnwindPhase::AwaitCfaBase(_, o) => {
                    if o > i64::MAX - *v as i64 {
                        return false;
                    }
                    rule_fits(&self.rules, self.index, offset_address(*v, o))
                },
                _ => false,
            },
            UnwindEvent::Word(w) => match self.phase {
                UnwindPhase::AwaitSaved(r) => {
                    let sp = if r == Register::SP { *w } else { self.known(Register::SP) };
                    assert(self.index < self.rules.len());
                    rule_fits(&self.rules, self.index + 1, sp)
                },
                _ => false,
            },
            UnwindEvent::Stacked(_) => match self.phase {
                UnwindPhase::AwaitStacked => self.known(Register::SP) <= u32::MAX - STACKED_SIZE,
                _ => false,
            },
        }
    }
}

} // verus!
