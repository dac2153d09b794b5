//! The Cortex-M peripherals that the register API describes.
//!
//! # References
//!
//! - (TRM) Cortex-M4 r0p0 Technical Reference Manual (ARM DDI 0439B)
//! - (ARM) ARMv7-M Architecture Reference Manual (ARM DDI 0403E.b)
use vstd::prelude::*;

use crate::regen::ir::{Access, Bitfield, Device, Instances, Peripheral, Register, Width};
use crate::regen::verify::{
    device_computable, fields_computable, first_field_error, first_peripheral_error, first_register_error, overlap,
    overlaps_earlier, peripheral_error, register_error,
};

verus! {

/// The name, offset, width and description of each bitfield of `fs`, in order.
pub open spec fn fields(fs: Seq<Bitfield>) -> Seq<(Seq<char>, u8, u8, Option<Seq<char>>)> {
    fs.map_values(
        |f: Bitfield|
            (
                f.name@,
                f.offset,
                f.width,
                match f.description {
                    Some(d) => Some(d@),
                    None => None,
                },
            ),
    )
}

/// An undocumented bitfield, as `fields` gives it.
pub open spec fn bits(name: Seq<char>, offset: u8, width: u8) -> (Seq<char>, u8, u8, Option<Seq<char>>) {
    (name, offset, width, None)
}

/// A documented bitfield, as `fields` gives it.
pub open spec fn described_bits(name: Seq<char>, offset: u8, width: u8, description: Seq<char>) -> (Seq<char>, u8, u8, Option<Seq<char>>) {
    (name, offset, width, Some(description))
}

fn text(s: &str) -> (r: String)
    ensures
        r@ == s@,
{
    s.to_owned()
}

fn field(description: Option<&str>, name: &str, offset: u8, width: u8) -> (r: Bitfield)
    ensures
        r.name@ == name@,
        r.offset == offset,
        r.width == width,
        match description {
            Some(d) => r.description matches Some(t) && t@ == d@,
            None => r.description is None,
        },
{
    Bitfield {
        description: match description {
            Some(d) => Some(text(d)),
            None => None,
        },
        name: text(name),
        offset,
        width,
    }
}

/// Debug Halting Control and Status Register
pub open spec fn is_dcb_dhcsr(r: Register) -> bool {
    &&& r.name@ == "DHCSR"@
    &&& (r.description matches Some(d) && d@ == "Debug Halting Control and Status Register"@)
    &&& r.offset == 0x0
    &&& r.access == (Access::ReadWrite { unsafe_write: false })
    &&& r.width == Width::U32
    &&& fields(r.r_fields@) == seq![
            bits("C_DEBUGEN"@, 0, 1),
            bits("C_HALT"@, 1, 1),
            bits("C_STEP"@, 2, 1),
            bits("C_MASKINTS"@, 3, 1),
            bits("C_SNAPSTALL"@, 5, 1),
            bits("S_REGRDY"@, 16, 1),
            bits("S_HALT"@, 17, 1),
            bits("S_SLEEP"@, 18, 1),
            bits("S_LOCKUP"@, 19, 1),
            bits("S_RETIRE_ST"@, 24, 1),
            bits("S_RESET_ST"@, 25, 1),
        ]
    &&& fields(r.w_fields@) == seq![
            bits("C_DEBUGEN"@, 0, 1),
            bits("C_HALT"@, 1, 1),
            bits("C_STEP"@, 2, 1),
            bits("C_MASKINTS"@, 3, 1),
            bits("C_SNAPSTALL"@, 5, 1),
            bits("DBGKEY"@, 16, 16),
        ]
}

/// Debug Halting Control and Status Register
fn dcb_dhcsr() -> (r: Register)
    ensures
        is_dcb_dhcsr(r),
{
    let mut r_fields: Vec<Bitfield> = Vec::new();
    r_fields.push(field(None, "C_DEBUGEN", 0, 1));
    r_fields.push(field(None, "C_HALT", 1, 1));
    r_fields.push(field(None, "C_STEP", 2, 1));
    r_fields.push(field(None, "C_MASKINTS", 3, 1));
    r_fields.push(field(None, "C_SNAPSTALL", 5, 1));
    r_fields.push(field(None, "S_REGRDY", 16, 1));
    r_fields.push(field(None, "S_HALT", 17, 1));
    r_fields.push(field(None, "S_SLEEP", 18, 1));
    r_fields.push(field(None, "S_LOCKUP", 19, 1));
    r_fields.push(field(None, "S_RETIRE_ST", 24, 1));
    r_fields.push(field(None, "S_RESET_ST", 25, 1));
    let mut w_fields: Vec<Bitfield> = Vec::new();
    w_fields.push(field(None, "C_DEBUGEN", 0, 1));
    w_fields.push(field(None, "C_HALT", 1, 1));
    w_fields.push(field(None, "C_STEP", 2, 1));
    w_fields.push(field(None, "C_MASKINTS", 3, 1));
    w_fields.push(field(None, "C_SNAPSTALL", 5, 1));
    w_fields.push(field(None, "DBGKEY", 16, 16));
    proof {
        assert(fields(r_fields@) =~= seq![
                bits("C_DEBUGEN"@, 0, 1),
                bits("C_HALT"@, 1, 1),
                bits("C_STEP"@, 2, 1),
                bits("C_MASKINTS"@, 3, 1),
                bits("C_SNAPSTALL"@, 5, 1),
                bits("S_REGRDY"@, 16, 1),
                bits("S_HALT"@, 17, 1),
                bits("S_SLEEP"@, 18, 1),
                bits("S_LOCKUP"@, 19, 1),
                bits("S_RETIRE_ST"@, 24, 1),
                bits("S_RESET_ST"@, 25, 1),
            ]);
        assert(fields(w_fields@) =~= seq![
                bits("C_DEBUGEN"@, 0, 1),
                bits("C_HALT"@, 1, 1),
                bits("C_STEP"@, 2, 1),
                bits("C_MASKINTS"@, 3, 1),
                bits("C_SNAPSTALL"@, 5, 1),
                bits("DBGKEY"@, 16, 16),
            ]);
    }
    Register {
        access: Access::ReadWrite { unsafe_write: false },
        description: Some(text("Debug Halting Control and Status Register")),
        name: text("DHCSR"),
        offset: 0x0,
        r_fields,
        w_fields,
        width: Width::U32,
    }
}

/// Debug Core Register Selector Register
pub open spec fn is_dcb_dcrsr(r: Register) -> bool {
    &&& r.name@ == "DCRSR"@
    &&& (r.description matches Some(d) && d@ == "Debug Core Register Selector Register"@)
    &&& r.offset == 0x4
    &&& r.access == (Access::WriteOnly { unsafe_write: false })
    &&& r.width == Width::U32
    &&& r.r_fields@.len() == 0
    &&& fields(r.w_fields@) == seq![
            bits("REGSEL"@, 0, 7),
            bits("REGWnR"@, 16, 1),
        ]
}

/// Debug Core Register Selector Register
fn dcb_dcrsr() -> (r: Register)
    ensures
        is_dcb_dcrsr(r),
{
    let mut r_fields: Vec<Bitfield> = Vec::new();
    let mut w_fields: Vec<Bitfield> = Vec::new();
    w_fields.push(field(None, "REGSEL", 0, 7));
    w_fields.push(field(None, "REGWnR", 16, 1));
    proof {
        assert(fields(w_fields@) =~= seq![
                bits("REGSEL"@, 0, 7),
                bits("REGWnR"@, 16, 1),
            ]);
    }
    Register {
        access: Access::WriteOnly { unsafe_write: false },
        description: Some(text("Debug Core Register Selector Register")),
        name: text("DCRSR"),
        offset: 0x4,
        r_fields,
        w_fields,
        width: Width::U32,
    }
}

/// Debug Core Register Data Register
pub open spec fn is_dcb_dcrdr(r: Register) -> bool {
    &&& r.name@ == "DCRDR"@
    &&& (r.description matches Some(d) && d@ == "Debug Core Register Data Register"@)
    &&& r.offset == 0x8
    &&& r.access == (Access::ReadWrite { unsafe_write: true })
    &&& r.width == Width::U32
    &&& r.r_fields@.len() == 0
    &&& r.w_fields@.len() == 0
}

/// Debug Core Register Data Register
fn dcb_dcrdr() -> (r: Register)
    ensures
        is_dcb_dcrdr(r),
{
    let mut r_fields: Vec<Bitfield> = Vec::new();
    let mut w_fields: Vec<Bitfield> = Vec::new();
    Register {
        access: Access::ReadWrite { unsafe_write: true },
        description: Some(text("Debug Core Register Data Register")),
        name: text("DCRDR"),
        offset: 0x8,
        r_fields,
        w_fields,
        width: Width::U32,
    }
}

/// Debug Exception and Monitor Control Register
pub open spec fn is_dcb_demcr(r: Register) -> bool {
    &&& r.name@ == "DEMCR"@
    &&& (r.description matches Some(d) && d@ == "Debug Exception and Monitor Control Register"@)
    &&& r.offset == 0xc
    &&& r.access == (Access::ReadWrite { unsafe_write: false })
    &&& r.width == Width::U32
    &&& fields(r.r_fields@) == seq![
            bits("VC_CORERESET"@, 0, 1),
            bits("VC_MMERR"@, 4, 1),
            bits("VC_NOCPERR"@, 5, 1),
            bits("VC_CHKERR"@, 6, 1),
            bits("VC_STATERR"@, 7, 1),
            bits("VC_BUSERR"@, 8, 1),
            bits("VC_INTERR"@, 9, 1),
            bits("VC_HARDERR"@, 10, 1),
            bits("MON_EN"@, 16, 1),
            bits("MON_PEND"@, 17, 1),
            bits("MON_STEP"@, 18, 1),
            bits("MON_REQ"@, 19, 1),
            described_bits("TRCENA"@, 24, 1, "Enables the DWT and ITM:\n0: DWT and ITM are disabled.\n1: DWT and ITM are enabled."@),
        ]
    &&& fields(r.w_fields@) == seq![
            bits("VC_CORERESET"@, 0, 1),
            bits("VC_MMERR"@, 4, 1),
            bits("VC_NOCPERR"@, 5, 1),
            bits("VC_CHKERR"@, 6, 1),
            bits("VC_STATERR"@, 7, 1),
            bits("VC_BUSERR"@, 8, 1),
            bits("VC_INTERR"@, 9, 1),
            bits("VC_HARDERR"@, 10, 1),
            bits("MON_EN"@, 16, 1),
            bits("MON_PEND"@, 17, 1),
            bits("MON_STEP"@, 18, 1),
            bits("MON_REQ"@, 19, 1),
            described_bits("TRCENA"@, 24, 1, "Enables the DWT and ITM:\n0: DWT and ITM are disabled.\n1: DWT and ITM are enabled."@),
        ]
}

/// Debug Exception and Monitor Control Register
fn dcb_demcr() -> (r: Register)
    ensures
        is_dcb_demcr(r),
{
    let mut r_fields: Vec<Bitfield> = Vec::new();
    r_fields.push(field(None, "VC_CORERESET", 0, 1));
    r_fields.push(field(None, "VC_MMERR", 4, 1));
    r_fields.push(field(None, "VC_NOCPERR", 5, 1));
    r_fields.push(field(None, "VC_CHKERR", 6, 1));
    r_fields.push(field(None, "VC_STATERR", 7, 1));
    r_fields.push(field(None, "VC_BUSERR", 8, 1));
    r_fields.push(field(None, "VC_INTERR", 9, 1));
    r_fields.push(field(None, "VC_HARDERR", 10, 1));
    r_fields.push(field(None, "MON_EN", 16, 1));
    r_fields.push(field(None, "MON_PEND", 17, 1));
    r_fields.push(field(None, "MON_STEP", 18, 1));
    r_fields.push(field(None, "MON_REQ", 19, 1));
    r_fields.push(field(Some("Enables the DWT and ITM:\n0: DWT and ITM are disabled.\n1: DWT and ITM are enabled."), "TRCENA", 24, 1));
    let mut w_fields: Vec<Bitfield> = Vec::new();
    w_fields.push(field(None, "VC_CORERESET", 0, 1));
    w_fields.push(field(None, "VC_MMERR", 4, 1));
    w_fields.push(field(None, "VC_NOCPERR", 5, 1));
    w_fields.push(field(None, "VC_CHKERR", 6, 1));
    w_fields.push(field(None, "VC_STATERR", 7, 1));
    w_fields.push(field(None, "VC_BUSERR", 8, 1));
    w_fields.push(field(None, "VC_INTERR", 9, 1));
    w_fields.push(field(None, "VC_HARDERR", 10, 1));
    w_fields.push(field(None, "MON_EN", 16, 1));
    w_fields.push(field(None, "MON_PEND", 17, 1));
    w_fields.push(field(None, "MON_STEP", 18, 1));
    w_fields.push(field(None, "MON_REQ", 19, 1));
    w_fields.push(field(Some("Enables the DWT and ITM:\n0: DWT and ITM are disabled.\n1: DWT and ITM are enabled."), "TRCENA", 24, 1));
    proof {
        assert(fields(r_fields@) =~= seq![
                bits("VC_CORERESET"@, 0, 1),
                bits("VC_MMERR"@, 4, 1),
                bits("VC_NOCPERR"@, 5, 1),
                bits("VC_CHKERR"@, 6, 1),
                bits("VC_STATERR"@, 7, 1),
                bits("VC_BUSERR"@, 8, 1),
                bits("VC_INTERR"@, 9, 1),
                bits("VC_HARDERR"@, 10, 1),
                bits("MON_EN"@, 16, 1),
                bits("MON_PEND"@, 17, 1),
                bits("MON_STEP"@, 18, 1),
                bits("MON_REQ"@, 19, 1),
                described_bits("TRCENA"@, 24, 1, "Enables the DWT and ITM:\n0: DWT and ITM are disabled.\n1: DWT and ITM are enabled."@),
            ]);
        assert(fields(w_fields@) =~= seq![
                bits("VC_CORERESET"@, 0, 1),
                bits("VC_MMERR"@, 4, 1),
                bits("VC_NOCPERR"@, 5, 1),
                bits("VC_CHKERR"@, 6, 1),
                bits("VC_STATERR"@, 7, 1),
                bits("VC_BUSERR"@, 8, 1),
                bits("VC_INTERR"@, 9, 1),
                bits("VC_HARDERR"@, 10, 1),
                bits("MON_EN"@, 16, 1),
                bits("MON_PEND"@, 17, 1),
                bits("MON_STEP"@, 18, 1),
                bits("MON_REQ"@, 19, 1),
                described_bits("TRCENA"@, 24, 1, "Enables the DWT and ITM:\n0: DWT and ITM are disabled.\n1: DWT and ITM are enabled."@),
            ]);
    }
    Register {
        access: Access::ReadWrite { unsafe_write: false },
        description: Some(text("Debug Exception and Monitor Control Register")),
        name: text("DEMCR"),
        offset: 0xc,
        r_fields,
        w_fields,
        width: Width::U32,
    }
}

/// Control register
pub open spec fn is_dwt_ctrl(r: Register) -> bool {
    &&& r.name@ == "CTRL"@
    &&& (r.description matches Some(d) && d@ == "Control register"@)
    &&& r.offset == 0x0
    &&& r.access == (Access::ReadWrite { unsafe_write: false })
    &&& r.width == Width::U32
    &&& fields(r.r_fields@) == seq![
            described_bits("CYCCNTENA"@, 0, 1, "Enables the cycle counter.\n0: Counter disabled.\n1: Counter enabled."@),
            bits("POSTPRESET"@, 1, 1),
            bits("POSTINIT"@, 5, 4),
            bits("CYCTAP"@, 9, 1),
            bits("SYNCTAP"@, 10, 2),
            bits("PCSAMPLENA"@, 12, 1),
            bits("EXCTRCENA"@, 16, 1),
            bits("CPIEVTENA"@, 17, 1),
            bits("EXCEVTENA"@, 18, 1),
            bits("SLEEPEVTENA"@, 19, 1),
            bits("LSUEVTENA"@, 20, 1),
            bits("FOLDEVTENA"@, 21, 1),
            bits("CYCEVTENA"@, 22, 1),
            bits("NOPRFCNT"@, 24, 1),
            bits("NOCYCCNT"@, 25, 1),
            bits("NOEXTTRIG"@, 26, 1),
            bits("NOTRCPKT"@, 27, 1),
            bits("NUMCOMP"@, 28, 4),
        ]
    &&& fields(r.w_fields@) == seq![
            described_bits("CYCCNTENA"@, 0, 1, "Enables the cycle counter.\n0: Counter disabled.\n1: Counter enabled."@),
            bits("POSTPRESET"@, 1, 1),
            bits("POSTINIT"@, 5, 4),
            bits("CYCTAP"@, 9, 1),
            bits("SYNCTAP"@, 10, 2),
            bits("PCSAMPLENA"@, 12, 1),
            bits("EXCTRCENA"@, 16, 1),
            bits("CPIEVTENA"@, 17, 1),
            bits("EXCEVTENA"@, 18, 1),
            bits("SLEEPEVTENA"@, 19, 1),
            bits("LSUEVTENA"@, 20, 1),
            bits("FOLDEVTENA"@, 21, 1),
            bits("CYCEVTENA"@, 22, 1),
        ]
}

/// Control register
fn dwt_ctrl() -> (r: Register)
    ensures
        is_dwt_ctrl(r),
{
    let mut r_fields: Vec<Bitfield> = Vec::new();
    r_fields.push(field(Some("Enables the cycle counter.\n0: Counter disabled.\n1: Counter enabled."), "CYCCNTENA", 0, 1));
    r_fields.push(field(None, "POSTPRESET", 1, 1));
    r_fields.push(field(None, "POSTINIT", 5, 4));
    r_fields.push(field(None, "CYCTAP", 9, 1));
    r_fields.push(field(None, "SYNCTAP", 10, 2));
    r_fields.push(field(None, "PCSAMPLENA", 12, 1));
    r_fields.push(field(None, "EXCTRCENA", 16, 1));
    r_fields.push(field(None, "CPIEVTENA", 17, 1));
    r_fields.push(field(None, "EXCEVTENA", 18, 1));
    r_fields.push(field(None, "SLEEPEVTENA", 19, 1));
    r_fields.push(field(None, "LSUEVTENA", 20, 1));
    r_fields.push(field(None, "FOLDEVTENA", 21, 1));
    r_fields.push(field(None, "CYCEVTENA", 22, 1));
    r_fields.push(field(None, "NOPRFCNT", 24, 1));
    r_fields.push(field(None, "NOCYCCNT", 25, 1));
    r_fields.push(field(None, "NOEXTTRIG", 26, 1));
    r_fields.push(field(None, "NOTRCPKT", 27, 1));
    r_fields.push(field(None, "NUMCOMP", 28, 4));
    let mut w_fields: Vec<Bitfield> = Vec::new();
    w_fields.push(field(Some("Enables the cycle counter.\n0: Counter disabled.\n1: Counter enabled."), "CYCCNTENA", 0, 1));
    w_fields.push(field(None, "POSTPRESET", 1, 1));
    w_fields.push(field(None, "POSTINIT", 5, 4));
    w_fields.push(field(None, "CYCTAP", 9, 1));
    w_fields.push(field(None, "SYNCTAP", 10, 2));
    w_fields.push(field(None, "PCSAMPLENA", 12, 1));
    w_fields.push(field(None, "EXCTRCENA", 16, 1));
    w_fields.push(field(None, "CPIEVTENA", 17, 1));
    w_fields.push(field(None, "EXCEVTENA", 18, 1));
    w_fields.push(field(None, "SLEEPEVTENA", 19, 1));
    w_fields.push(field(None, "LSUEVTENA", 20, 1));
    w_fields.push(field(None, "FOLDEVTENA", 21, 1));
    w_fields.push(field(None, "CYCEVTENA", 22, 1));
    proof {
        assert(fields(r_fields@) =~= seq![
                described_bits("CYCCNTENA"@, 0, 1, "Enables the cycle counter.\n0: Counter disabled.\n1: Counter enabled."@),
                bits("POSTPRESET"@, 1, 1),
                bits("POSTINIT"@, 5, 4),
                bits("CYCTAP"@, 9, 1),
                bits("SYNCTAP"@, 10, 2),
                bits("PCSAMPLENA"@, 12, 1),
                bits("EXCTRCENA"@, 16, 1),
                bits("CPIEVTENA"@, 17, 1),
                bits("EXCEVTENA"@, 18, 1),
                bits("SLEEPEVTENA"@, 19, 1),
                bits("LSUEVTENA"@, 20, 1),
                bits("FOLDEVTENA"@, 21, 1),
                bits("CYCEVTENA"@, 22, 1),
                bits("NOPRFCNT"@, 24, 1),
                bits("NOCYCCNT"@, 25, 1),
                bits("NOEXTTRIG"@, 26, 1),
                bits("NOTRCPKT"@, 27, 1),
                bits("NUMCOMP"@, 28, 4),
            ]);
        assert(fields(w_fields@) =~= seq![
                described_bits("CYCCNTENA"@, 0, 1, "Enables the cycle counter.\n0: Counter disabled.\n1: Counter enabled."@),
                bits("POSTPRESET"@, 1, 1),
                bits("POSTINIT"@, 5, 4),
                bits("CYCTAP"@, 9, 1),
                bits("SYNCTAP"@, 10, 2),
                bits("PCSAMPLENA"@, 12, 1),
                bits("EXCTRCENA"@, 16, 1),
                bits("CPIEVTENA"@, 17, 1),
                bits("EXCEVTENA"@, 18, 1),
                bits("SLEEPEVTENA"@, 19, 1),
                bits("LSUEVTENA"@, 20, 1),
                bits("FOLDEVTENA"@, 21, 1),
                bits("CYCEVTENA"@, 22, 1),
            ]);
    }
    Register {
        access: Access::ReadWrite { unsafe_write: false },
        description: Some(text("Control register")),
        name: text("CTRL"),
        offset: 0x0,
        r_fields,
        w_fields,
        width: Width::U32,
    }
}

/// Cycle Count register
pub open spec fn is_dwt_cyccnt(r: Register) -> bool {
    &&& r.name@ == "CYCCNT"@
    &&& (r.description matches Some(d) && d@ == "Cycle Count register"@)
    &&& r.offset == 0x4
    &&& r.access == (Access::ReadWrite { unsafe_write: false })
    &&& r.width == Width::U32
    &&& r.r_fields@.len() == 0
    &&& r.w_fields@.len() == 0
}

/// Cycle Count register
fn dwt_cyccnt() -> (r: Register)
    ensures
        is_dwt_cyccnt(r),
{
    let mut r_fields: Vec<Bitfield> = Vec::new();
    let mut w_fields: Vec<Bitfield> = Vec::new();
    Register {
        access: Access::ReadWrite { unsafe_write: false },
        description: Some(text("Cycle Count register")),
        name: text("CYCCNT"),
        offset: 0x4,
        r_fields,
        w_fields,
        width: Width::U32,
    }
}

/// Interrupt Set-Enable Register 0
pub open spec fn is_nvic_iser0(r: Register) -> bool {
    &&& r.name@ == "ISER0"@
    &&& (r.description matches Some(d) && d@ == "Interrupt Set-Enable Register 0"@)
    &&& r.offset == 0x0
    &&& r.access == (Access::ReadWrite { unsafe_write: true })
    &&& r.width == Width::U32
    &&& r.r_fields@.len() == 0
    &&& r.w_fields@.len() == 0
}

/// Interrupt Set-Enable Register 0
fn nvic_iser0() -> (r: Register)
    ensures
        is_nvic_iser0(r),
{
    let mut r_fields: Vec<Bitfield> = Vec::new();
    let mut w_fields: Vec<Bitfield> = Vec::new();
    Register {
        access: Access::ReadWrite { unsafe_write: true },
        description: Some(text("Interrupt Set-Enable Register 0")),
        name: text("ISER0"),
        offset: 0x0,
        r_fields,
        w_fields,
        width: Width::U32,
    }
}

/// Interrupt Set-Enable Register 1
pub open spec fn is_nvic_iser1(r: Register) -> bool {
    &&& r.name@ == "ISER1"@
    &&& (r.description matches Some(d) && d@ == "Interrupt Set-Enable Register 1"@)
    &&& r.offset == 0x4
    &&& r.access == (Access::ReadWrite { unsafe_write: true })
    &&& r.width == Width::U32
    &&& r.r_fields@.len() == 0
    &&& r.w_fields@.len() == 0
}

/// Interrupt Set-Enable Register 1
fn nvic_iser1() -> (r: Register)
    ensures
        is_nvic_iser1(r),
{
    let mut r_fields: Vec<Bitfield> = Vec::new();
    let mut w_fields: Vec<Bitfield> = Vec::new();
    Register {
        access: Access::ReadWrite { unsafe_write: true },
        description: Some(text("Interrupt Set-Enable Register 1")),
        name: text("ISER1"),
        offset: 0x4,
        r_fields,
        w_fields,
        width: Width::U32,
    }
}

/// Interrupt Clear-Enable Register 0
pub open spec fn is_nvic_icer0(r: Register) -> bool {
    &&& r.name@ == "ICER0"@
    &&& (r.description matches Some(d) && d@ == "Interrupt Clear-Enable Register 0"@)
    &&& r.offset == 0x80
    &&& r.access == (Access::ReadWrite { unsafe_write: false })
    &&& r.width == Width::U32
    &&& r.r_fields@.len() == 0
    &&& r.w_fields@.len() == 0
}

/// Interrupt Clear-Enable Register 0
fn nvic_icer0() -> (r: Register)
    ensures
        is_nvic_icer0(r),
{
    let mut r_fields: Vec<Bitfield> = Vec::new();
    let mut w_fields: Vec<Bitfield> = Vec::new();
    Register {
        access: Access::ReadWrite { unsafe_write: false },
        description: Some(text("Interrupt Clear-Enable Register 0")),
        name: text("ICER0"),
        offset: 0x80,
        r_fields,
        w_fields,
        width: Width::U32,
    }
}

/// Interrupt Clear-Enable Register 1
pub open spec fn is_nvic_icer1(r: Register) -> bool {
    &&& r.name@ == "ICER1"@
    &&& (r.description matches Some(d) && d@ == "Interrupt Clear-Enable Register 1"@)
    &&& r.offset == 0x84
    &&& r.access == (Access::ReadWrite { unsafe_write: false })
    &&& r.width == Width::U32
    &&& r.r_fields@.len() == 0
    &&& r.w_fields@.len() == 0
}

/// Interrupt Clear-Enable Register 1
fn nvic_icer1() -> (r: Register)
    ensures
        is_nvic_icer1(r),
{
    let mut r_fields: Vec<Bitfield> = Vec::new();
    let mut w_fields: Vec<Bitfield> = Vec::new();
    Register {
        access: Access::ReadWrite { unsafe_write: false },
        description: Some(text("Interrupt Clear-Enable Register 1")),
        name: text("ICER1"),
        offset: 0x84,
        r_fields,
        w_fields,
        width: Width::U32,
    }
}

/// CPUID Base register
pub open spec fn is_scb_cpuid(r: Register) -> bool {
    &&& r.name@ == "CPUID"@
    &&& (r.description matches Some(d) && d@ == "CPUID Base register"@)
    &&& r.offset == 0x0
    &&& r.access == Access::ReadOnly
    &&& r.width == Width::U32
    &&& fields(r.r_fields@) == seq![
            bits("REVISION"@, 0, 4),
            bits("PARTNO"@, 4, 12),
            bits("ARCHITECTURE"@, 16, 4),
            bits("VARIANT"@, 20, 4),
            bits("IMPLEMENTER"@, 24, 8),
        ]
    &&& r.w_fields@.len() == 0
}

/// CPUID Base register
fn scb_cpuid() -> (r: Register)
    ensures
        is_scb_cpuid(r),
{
    let mut r_fields: Vec<Bitfield> = Vec::new();
    r_fields.push(field(None, "REVISION", 0, 4));
    r_fields.push(field(None, "PARTNO", 4, 12));
    r_fields.push(field(None, "ARCHITECTURE", 16, 4));
    r_fields.push(field(None, "VARIANT", 20, 4));
    r_fields.push(field(None, "IMPLEMENTER", 24, 8));
    let mut w_fields: Vec<Bitfield> = Vec::new();
    proof {
        assert(fields(r_fields@) =~= seq![
                bits("REVISION"@, 0, 4),
                bits("PARTNO"@, 4, 12),
                bits("ARCHITECTURE"@, 16, 4),
                bits("VARIANT"@, 20, 4),
                bits("IMPLEMENTER"@, 24, 8),
            ]);
    }
    Register {
        access: Access::ReadOnly,
        description: Some(text("CPUID Base register")),
        name: text("CPUID"),
        offset: 0x0,
        r_fields,
        w_fields,
        width: Width::U32,
    }
}

/// Interrupt Control and State Register
pub open spec fn is_scb_icsr(r: Register) -> bool {
    &&& r.name@ == "ICSR"@
    &&& (r.description matches Some(d) && d@ == "Interrupt Control and State Register"@)
    &&& r.offset == 0x4
    &&& r.access == (Access::ReadWrite { unsafe_write: false })
    &&& r.width == Width::U32
    &&& fields(r.r_fields@) == seq![
            bits("PENDSTSET"@, 26, 1),
            bits("PENDSVSET"@, 28, 1),
            bits("NMIPENDSET"@, 31, 1),
            described_bits("VECTACTIVE"@, 0, 9, "The vector table index of the exception currently being executed.\n0: Thread mode\n!0: Exception context"@),
            bits("RETTOBASE"@, 11, 1),
            bits("VECTPENDING"@, 12, 9),
            bits("ISRPENDING"@, 22, 1),
            bits("ISRPREEMPT"@, 23, 1),
        ]
    &&& fields(r.w_fields@) == seq![
            bits("PENDSTSET"@, 26, 1),
            bits("PENDSVSET"@, 28, 1),
            bits("NMIPENDSET"@, 31, 1),
            bits("PENDSTCLR"@, 25, 1),
            bits("PENDSVCLR"@, 27, 1),
        ]
}

/// Interrupt Control and State Register
fn scb_icsr() -> (r: Register)
    ensures
        is_scb_icsr(r),
{
    let mut r_fields: Vec<Bitfield> = Vec::new();
    r_fields.push(field(None, "PENDSTSET", 26, 1));
    r_fields.push(field(None, "PENDSVSET", 28, 1));
    r_fields.push(field(None, "NMIPENDSET", 31, 1));
    r_fields.push(field(Some("The vector table index of the exception currently being executed.\n0: Thread mode\n!0: Exception context"), "VECTACTIVE", 0, 9));
    r_fields.push(field(None, "RETTOBASE", 11, 1));
    r_fields.push(field(None, "VECTPENDING", 12, 9));
    r_fields.push(field(None, "ISRPENDING", 22, 1));
    r_fields.push(field(None, "ISRPREEMPT", 23, 1));
    let mut w_fields: Vec<Bitfield> = Vec::new();
    w_fields.push(field(None, "PENDSTSET", 26, 1));
    w_fields.push(field(None, "PENDSVSET", 28, 1));
    w_fields.push(field(None, "NMIPENDSET", 31, 1));
    w_fields.push(field(None, "PENDSTCLR", 25, 1));
    w_fields.push(field(None, "PENDSVCLR", 27, 1));
    proof {
        assert(fields(r_fields@) =~= seq![
                bits("PENDSTSET"@, 26, 1),
                bits("PENDSVSET"@, 28, 1),
                bits("NMIPENDSET"@, 31, 1),
                described_bits("VECTACTIVE"@, 0, 9, "The vector table index of the exception currently being executed.\n0: Thread mode\n!0: Exception context"@),
                bits("RETTOBASE"@, 11, 1),
                bits("VECTPENDING"@, 12, 9),
                bits("ISRPENDING"@, 22, 1),
                bits("ISRPREEMPT"@, 23, 1),
            ]);
        assert(fields(w_fields@) =~= seq![
                bits("PENDSTSET"@, 26, 1),
                bits("PENDSVSET"@, 28, 1),
                bits("NMIPENDSET"@, 31, 1),
                bits("PENDSTCLR"@, 25, 1),
                bits("PENDSVCLR"@, 27, 1),
            ]);
    }
    Register {
        access: Access::ReadWrite { unsafe_write: false },
        description: Some(text("Interrupt Control and State Register")),
        name: text("ICSR"),
        offset: 0x4,
        r_fields,
        w_fields,
        width: Width::U32,
    }
}

/// Vector Table Offset Register
pub open spec fn is_scb_vtor(r: Register) -> bool {
    &&& r.name@ == "VTOR"@
    &&& (r.description matches Some(d) && d@ == "Vector Table Offset Register"@)
    &&& r.offset == 0x8
    &&& r.access == (Access::ReadWrite { unsafe_write: true })
    &&& r.width == Width::U32
    &&& fields(r.r_fields@) == seq![
            bits("TBLOFF"@, 7, 25),
        ]
    &&& fields(r.w_fields@) == seq![
            bits("TBLOFF"@, 7, 25),
        ]
}

/// Vector Table Offset Register
fn scb_vtor() -> (r: Register)
    ensures
        is_scb_vtor(r),
{
    let mut r_fields: Vec<Bitfield> = Vec::new();
    r_fields.push(field(None, "TBLOFF", 7, 25));
    let mut w_fields: Vec<Bitfield> = Vec::new();
    w_fields.push(field(None, "TBLOFF", 7, 25));
    proof {
        assert(fields(r_fields@) =~= seq![
                bits("TBLOFF"@, 7, 25),
            ]);
        assert(fields(w_fields@) =~= seq![
                bits("TBLOFF"@, 7, 25),
            ]);
    }
    Register {
        access: Access::ReadWrite { unsafe_write: true },
        description: Some(text("Vector Table Offset Register")),
        name: text("VTOR"),
        offset: 0x8,
        r_fields,
        w_fields,
        width: Width::U32,
    }
}

/// Application Interrupt and Reset Control Register
pub open spec fn is_scb_aircr(r: Register) -> bool {
    &&& r.name@ == "AIRCR"@
    &&& (r.description matches Some(d) && d@ == "Application Interrupt and Reset Control Register"@)
    &&& r.offset == 0xc
    &&& r.access == (Access::ReadWrite { unsafe_write: false })
    &&& r.width == Width::U32
    &&& fields(r.r_fields@) == seq![
            bits("SYSRESETREQ"@, 2, 1),
            bits("PRIGROUP"@, 8, 3),
            bits("ENDIANNESS"@, 15, 1),
            bits("VECTKEYSTAT"@, 16, 16),
        ]
    &&& fields(r.w_fields@) == seq![
            bits("SYSRESETREQ"@, 2, 1),
            bits("PRIGROUP"@, 8, 3),
            bits("VECTRESET"@, 0, 1),
            bits("VECTCLRACTIVE"@, 1, 1),
            bits("VECTKEY"@, 16, 16),
        ]
}

/// Application Interrupt and Reset Control Register
fn scb_aircr() -> (r: Register)
    ensures
        is_scb_aircr(r),
{
    let mut r_fields: Vec<Bitfield> = Vec::new();
    r_fields.push(field(None, "SYSRESETREQ", 2, 1));
    r_fields.push(field(None, "PRIGROUP", 8, 3));
    r_fields.push(field(None, "ENDIANNESS", 15, 1));
    r_fields.push(field(None, "VECTKEYSTAT", 16, 16));
    let mut w_fields: Vec<Bitfield> = Vec::new();
    w_fields.push(field(None, "SYSRESETREQ", 2, 1));
    w_fields.push(field(None, "PRIGROUP", 8, 3));
    w_fields.push(field(None, "VECTRESET", 0, 1));
    w_fields.push(field(None, "VECTCLRACTIVE", 1, 1));
    w_fields.push(field(None, "VECTKEY", 16, 16));
    proof {
        assert(fields(r_fields@) =~= seq![
                bits("SYSRESETREQ"@, 2, 1),
                bits("PRIGROUP"@, 8, 3),
                bits("ENDIANNESS"@, 15, 1),
                bits("VECTKEYSTAT"@, 16, 16),
            ]);
        assert(fields(w_fields@) =~= seq![
                bits("SYSRESETREQ"@, 2, 1),
                bits("PRIGROUP"@, 8, 3),
                bits("VECTRESET"@, 0, 1),
                bits("VECTCLRACTIVE"@, 1, 1),
                bits("VECTKEY"@, 16, 16),
            ]);
    }
    Register {
        access: Access::ReadWrite { unsafe_write: false },
        description: Some(text("Application Interrupt and Reset Control Register")),
        name: text("AIRCR"),
        offset: 0xc,
        r_fields,
        w_fields,
        width: Width::U32,
    }
}

/// Debug Control Block
pub open spec fn is_dcb(p: Peripheral) -> bool {
    &&& p.name@ == "DCB"@
    &&& (p.description matches Some(d) && d@ == "Debug Control Block"@)
    &&& p.instances == (Instances::Single { base_address: 0xe000edf0 })
    &&& p.registers@.len() == 4
    &&& is_dcb_dhcsr(p.registers@[0])
    &&& is_dcb_dcrsr(p.registers@[1])
    &&& is_dcb_dcrdr(p.registers@[2])
    &&& is_dcb_demcr(p.registers@[3])
}

/// Debug Control Block
fn dcb() -> (r: Peripheral)
    ensures
        is_dcb(r),
{
    let mut registers: Vec<Register> = Vec::new();
    registers.push(dcb_dhcsr());
    registers.push(dcb_dcrsr());
    registers.push(dcb_dcrdr());
    registers.push(dcb_demcr());
    Peripheral {
        description: Some(text("Debug Control Block")),
        instances: Instances::Single { base_address: 0xe000edf0 },
        name: text("DCB"),
        registers,
    }
}

/// Data Watchpoint and Trace
pub open spec fn is_dwt(p: Peripheral) -> bool {
    &&& p.name@ == "DWT"@
    &&& (p.description matches Some(d) && d@ == "Data Watchpoint and Trace"@)
    &&& p.instances == (Instances::Single { base_address: 0xe0001000 })
    &&& p.registers@.len() == 2
    &&& is_dwt_ctrl(p.registers@[0])
    &&& is_dwt_cyccnt(p.registers@[1])
}

/// Data Watchpoint and Trace
fn dwt() -> (r: Peripheral)
    ensures
        is_dwt(r),
{
    let mut registers: Vec<Register> = Vec::new();
    registers.push(dwt_ctrl());
    registers.push(dwt_cyccnt());
    Peripheral {
        description: Some(text("Data Watchpoint and Trace")),
        instances: Instances::Single { base_address: 0xe0001000 },
        name: text("DWT"),
        registers,
    }
}

/// Nested Vector Interrupt Controller
pub open spec fn is_nvic(p: Peripheral) -> bool {
    &&& p.name@ == "NVIC"@
    &&& (p.description matches Some(d) && d@ == "Nested Vector Interrupt Controller"@)
    &&& p.instances == (Instances::Single { base_address: 0xe000e100 })
    &&& p.registers@.len() == 4
    &&& is_nvic_iser0(p.registers@[0])
    &&& is_nvic_iser1(p.registers@[1])
    &&& is_nvic_icer0(p.registers@[2])
    &&& is_nvic_icer1(p.registers@[3])
}

/// Nested Vector Interrupt Controller
fn nvic() -> (r: Peripheral)
    ensures
        is_nvic(r),
{
    let mut registers: Vec<Register> = Vec::new();
    registers.push(nvic_iser0());
    registers.push(nvic_iser1());
    registers.push(nvic_icer0());
    registers.push(nvic_icer1());
    Peripheral {
        description: Some(text("Nested Vector Interrupt Controller")),
        instances: Instances::Single { base_address: 0xe000e100 },
        name: text("NVIC"),
        registers,
    }
}

/// System Control Block
pub open spec fn is_scb(p: Peripheral) -> bool {
    &&& p.name@ == "SCB"@
    &&& (p.description matches Some(d) && d@ == "System Control Block"@)
    &&& p.instances == (Instances::Single { base_address: 0xe000ed00 })
    &&& p.registers@.len() == 4
    &&& is_scb_cpuid(p.registers@[0])
    &&& is_scb_icsr(p.registers@[1])
    &&& is_scb_vtor(p.registers@[2])
    &&& is_scb_aircr(p.registers@[3])
}

/// System Control Block
fn scb() -> (r: Peripheral)
    ensures
        is_scb(r),
{
    let mut registers: Vec<Register> = Vec::new();
    registers.push(scb_cpuid());
    registers.push(scb_icsr());
    registers.push(scb_vtor());
    registers.push(scb_aircr());
    Peripheral {
        description: Some(text("System Control Block")),
        instances: Instances::Single { base_address: 0xe000ed00 },
        name: text("SCB"),
        registers,
    }
}

/// The bitfields, as `fields` gives them, are named, not empty, and fit in `w` bits.
spec fn parts_fit(s: Seq<(Seq<char>, u8, u8, Option<Seq<char>>)>, w: u8) -> bool {
    forall|i: int| 0 <= i < s.len() ==> (#[trigger] s[i]).0.len() > 0 && s[i].2 > 0 && s[i].1 + s[i].2 <= w
}

/// No two of the bitfields, as `fields` gives them, share a bit.
spec fn parts_disjoint(s: Seq<(Seq<char>, u8, u8, Option<Seq<char>>)>) -> bool {
    forall|i: int, j: int| 0 <= j < i < s.len() ==> !((#[trigger] s[j]).1 < (#[trigger] s[i]).1 + s[i].2 && s[i].1 < s[j].1 + s[j].2)
}

proof fn lemma_fields_fit(p: Seq<char>, reg: Seq<char>, fs: Seq<Bitfield>, w: u8)
    requires
        parts_fit(fields(fs), w),
    ensures
        first_field_error(p, reg, fs, w) is None,
    decreases fs.len(),
{
    if fs.len() > 0 {
        assert(fields(fs)[0].0 == fs[0].name@);
        assert(fields(fs.skip(1)) =~= fields(fs).skip(1));
        lemma_fields_fit(p, reg, fs.skip(1), w);
    }
}

/// A register whose bitfields are named, not empty, fit in it and do not overlap passes the
/// checks, and its bitfields' masks can be computed.
proof fn lemma_register_fits(p: Seq<char>, r: Register)
    requires
        r.name@.len() > 0,
        r.width.bits_spec() <= 64,
        parts_fit(fields(r.r_fields@), r.width.bits_spec()),
        parts_fit(fields(r.w_fields@), r.width.bits_spec()),
        parts_disjoint(fields(r.r_fields@)),
        parts_disjoint(fields(r.w_fields@)),
        r.width.bits_spec() < 64,
    ensures
        register_error(p, r) is None,
        fields_computable(r.r_fields@),
        fields_computable(r.w_fields@),
{
    let w = r.width.bits_spec();
    let all = r.r_fields@ + r.w_fields@;
    assert(fields(all) =~= fields(r.r_fields@) + fields(r.w_fields@));
    assert(parts_fit(fields(all), w)) by {
        assert forall|i: int| 0 <= i < fields(all).len() implies (#[trigger] fields(all)[i]).0.len() > 0 && fields(all)[i].2 > 0
            && fields(all)[i].1 + fields(all)[i].2 <= w by {
            if i < r.r_fields@.len() {
                assert(fields(all)[i] == fields(r.r_fields@)[i]);
            } else {
                assert(fields(all)[i] == fields(r.w_fields@)[i - r.r_fields@.len()]);
            }
        }
    }
    lemma_fields_fit(p, r.name@, all, w);
    assert forall|k: int| 0 <= k < r.r_fields@.len() implies !overlaps_earlier(r.r_fields@, k) by {
        assert forall|j: int| 0 <= j < k implies !overlap(#[trigger] r.r_fields@[j], r.r_fields@[k]) by {
            assert(fields(r.r_fields@)[j].1 == r.r_fields@[j].offset);
            assert(fields(r.r_fields@)[k].1 == r.r_fields@[k].offset);
        }
    }
    assert forall|k: int| 0 <= k < r.w_fields@.len() implies !overlaps_earlier(r.w_fields@, k) by {
        assert forall|j: int| 0 <= j < k implies !overlap(#[trigger] r.w_fields@[j], r.w_fields@[k]) by {
            assert(fields(r.w_fields@)[j].1 == r.w_fields@[j].offset);
            assert(fields(r.w_fields@)[k].1 == r.w_fields@[k].offset);
        }
    }
    assert forall|i: int| 0 <= i < r.r_fields@.len() implies #[trigger] r.r_fields@[i].width != 64 && r.r_fields@[i].width + r.r_fields@[i].offset <= 255 by {
        assert(fields(r.r_fields@)[i].2 == r.r_fields@[i].width);
    }
    assert forall|i: int| 0 <= i < r.w_fields@.len() implies #[trigger] r.w_fields@[i].width != 64 && r.w_fields@[i].width + r.w_fields@[i].offset <= 255 by {
        assert(fields(r.w_fields@)[i].2 == r.w_fields@[i].width);
    }
}

proof fn lemma_dcb_dhcsr_fits(p: Seq<char>, r: Register)
    requires
        is_dcb_dhcsr(r),
    ensures
        register_error(p, r) is None,
        fields_computable(r.r_fields@),
        fields_computable(r.w_fields@),
{
    reveal_strlit("DHCSR");
    reveal_strlit("C_DEBUGEN");
    reveal_strlit("C_HALT");
    reveal_strlit("C_STEP");
    reveal_strlit("C_MASKINTS");
    reveal_strlit("C_SNAPSTALL");
    reveal_strlit("S_REGRDY");
    reveal_strlit("S_HALT");
    reveal_strlit("S_SLEEP");
    reveal_strlit("S_LOCKUP");
    reveal_strlit("S_RETIRE_ST");
    reveal_strlit("S_RESET_ST");
    reveal_strlit("DBGKEY");
    assert(parts_fit(fields(r.r_fields@), 32));
    assert(parts_fit(fields(r.w_fields@), 32));
    assert(parts_disjoint(fields(r.r_fields@)));
    assert(parts_disjoint(fields(r.w_fields@)));
    lemma_register_fits(p, r);
}

proof fn lemma_dcb_dcrsr_fits(p: Seq<char>, r: Register)
    requires
        is_dcb_dcrsr(r),
    ensures
        register_error(p, r) is None,
        fields_computable(r.r_fields@),
        fields_computable(r.w_fields@),
{
    reveal_strlit("DCRSR");
    reveal_strlit("REGSEL");
    reveal_strlit("REGWnR");
    assert(parts_fit(fields(r.r_fields@), 32));
    assert(parts_fit(fields(r.w_fields@), 32));
    assert(parts_disjoint(fields(r.r_fields@)));
    assert(parts_disjoint(fields(r.w_fields@)));
    lemma_register_fits(p, r);
}

proof fn lemma_dcb_dcrdr_fits(p: Seq<char>, r: Register)
    requires
        is_dcb_dcrdr(r),
    ensures
        register_error(p, r) is None,
        fields_computable(r.r_fields@),
        fields_computable(r.w_fields@),
{
    reveal_strlit("DCRDR");
    assert(parts_fit(fields(r.r_fields@), 32));
    assert(parts_fit(fields(r.w_fields@), 32));
    assert(parts_disjoint(fields(r.r_fields@)));
    assert(parts_disjoint(fields(r.w_fields@)));
    lemma_register_fits(p, r);
}

proof fn lemma_dcb_demcr_fits(p: Seq<char>, r: Register)
    requires
        is_dcb_demcr(r),
    ensures
        register_error(p, r) is None,
        fields_computable(r.r_fields@),
        fields_computable(r.w_fields@),
{
    reveal_strlit("DEMCR");
    reveal_strlit("VC_CORERESET");
    reveal_strlit("VC_MMERR");
    reveal_strlit("VC_NOCPERR");
    reveal_strlit("VC_CHKERR");
    reveal_strlit("VC_STATERR");
    reveal_strlit("VC_BUSERR");
    reveal_strlit("VC_INTERR");
    reveal_strlit("VC_HARDERR");
    reveal_strlit("MON_EN");
    reveal_strlit("MON_PEND");
    reveal_strlit("MON_STEP");
    reveal_strlit("MON_REQ");
    reveal_strlit("TRCENA");
    assert(parts_fit(fields(r.r_fields@), 32));
    assert(parts_fit(fields(r.w_fields@), 32));
    assert(parts_disjoint(fields(r.r_fields@)));
    assert(parts_disjoint(fields(r.w_fields@)));
    lemma_register_fits(p, r);
}

proof fn lemma_dwt_ctrl_fits(p: Seq<char>, r: Register)
    requires
        is_dwt_ctrl(r),
    ensures
        register_error(p, r) is None,
        fields_computable(r.r_fields@),
        fields_computable(r.w_fields@),
{
    reveal_strlit("CTRL");
    reveal_strlit("CYCCNTENA");
    reveal_strlit("POSTPRESET");
    reveal_strlit("POSTINIT");
    reveal_strlit("CYCTAP");
    reveal_strlit("SYNCTAP");
    reveal_strlit("PCSAMPLENA");
    reveal_strlit("EXCTRCENA");
    reveal_strlit("CPIEVTENA");
    reveal_strlit("EXCEVTENA");
    reveal_strlit("SLEEPEVTENA");
    reveal_strlit("LSUEVTENA");
    reveal_strlit("FOLDEVTENA");
    reveal_strlit("CYCEVTENA");
    reveal_strlit("NOPRFCNT");
    reveal_strlit("NOCYCCNT");
    reveal_strlit("NOEXTTRIG");
    reveal_strlit("NOTRCPKT");
    reveal_strlit("NUMCOMP");
    assert(parts_fit(fields(r.r_fields@), 32));
    assert(parts_fit(fields(r.w_fields@), 32));
    assert(parts_disjoint(fields(r.r_fields@)));
    assert(parts_disjoint(fields(r.w_fields@)));
    lemma_register_fits(p, r);
}

proof fn lemma_dwt_cyccnt_fits(p: Seq<char>, r: Register)
    requires
        is_dwt_cyccnt(r),
    ensures
        register_error(p, r) is None,
        fields_computable(r.r_fields@),
        fields_computable(r.w_fields@),
{
    reveal_strlit("CYCCNT");
    assert(parts_fit(fields(r.r_fields@), 32));
    assert(parts_fit(fields(r.w_fields@), 32));
    assert(parts_disjoint(fields(r.r_fields@)));
    assert(parts_disjoint(fields(r.w_fields@)));
    lemma_register_fits(p, r);
}

proof fn lemma_nvic_iser0_fits(p: Seq<char>, r: Register)
    requires
        is_nvic_iser0(r),
    ensures
        register_error(p, r) is None,
        fields_computable(r.r_fields@),
        fields_computable(r.w_fields@),
{
    reveal_strlit("ISER0");
    assert(parts_fit(fields(r.r_fields@), 32));
    assert(parts_fit(fields(r.w_fields@), 32));
    assert(parts_disjoint(fields(r.r_fields@)));
    assert(parts_disjoint(fields(r.w_fields@)));
    lemma_register_fits(p, r);
}

proof fn lemma_nvic_iser1_fits(p: Seq<char>, r: Register)
    requires
        is_nvic_iser1(r),
    ensures
        register_error(p, r) is None,
        fields_computable(r.r_fields@),
        fields_computable(r.w_fields@),
{
    reveal_strlit("ISER1");
    assert(parts_fit(fields(r.r_fields@), 32));
    assert(parts_fit(fields(r.w_fields@), 32));
    assert(parts_disjoint(fields(r.r_fields@)));
    assert(parts_disjoint(fields(r.w_fields@)));
    lemma_register_fits(p, r);
}

proof fn lemma_nvic_icer0_fits(p: Seq<char>, r: Register)
    requires
        is_nvic_icer0(r),
    ensures
        register_error(p, r) is None,
        fields_computable(r.r_fields@),
        fields_computable(r.w_fields@),
{
    reveal_strlit("ICER0");
    assert(parts_fit(fields(r.r_fields@), 32));
    assert(parts_fit(fields(r.w_fields@), 32));
    assert(parts_disjoint(fields(r.r_fields@)));
    assert(parts_disjoint(fields(r.w_fields@)));
    lemma_register_fits(p, r);
}

proof fn lemma_nvic_icer1_fits(p: Seq<char>, r: Register)
    requires
        is_nvic_icer1(r),
    ensures
        register_error(p, r) is None,
        fields_computable(r.r_fields@),
        fields_computable(r.w_fields@),
{
    reveal_strlit("ICER1");
    assert(parts_fit(fields(r.r_fields@), 32));
    assert(parts_fit(fields(r.w_fields@), 32));
    assert(parts_disjoint(fields(r.r_fields@)));
    assert(parts_disjoint(fields(r.w_fields@)));
    lemma_register_fits(p, r);
}

proof fn lemma_scb_cpuid_fits(p: Seq<char>, r: Register)
    requires
        is_scb_cpuid(r),
    ensures
        register_error(p, r) is None,
        fields_computable(r.r_fields@),
        fields_computable(r.w_fields@),
{
    reveal_strlit("CPUID");
    reveal_strlit("REVISION");
    reveal_strlit("PARTNO");
    reveal_strlit("ARCHITECTURE");
    reveal_strlit("VARIANT");
    reveal_strlit("IMPLEMENTER");
    assert(parts_fit(fields(r.r_fields@), 32));
    assert(parts_fit(fields(r.w_fields@), 32));
    assert(parts_disjoint(fields(r.r_fields@)));
    assert(parts_disjoint(fields(r.w_fields@)));
    lemma_register_fits(p, r);
}

proof fn lemma_scb_icsr_fits(p: Seq<char>, r: Register)
    requires
        is_scb_icsr(r),
    ensures
        register_error(p, r) is None,
        fields_computable(r.r_fields@),
        fields_computable(r.w_fields@),
{
    reveal_strlit("ICSR");
    reveal_strlit("PENDSTSET");
    reveal_strlit("PENDSVSET");
    reveal_strlit("NMIPENDSET");
    reveal_strlit("VECTACTIVE");
    reveal_strlit("RETTOBASE");
    reveal_strlit("VECTPENDING");
    reveal_strlit("ISRPENDING");
    reveal_strlit("ISRPREEMPT");
    reveal_strlit("PENDSTCLR");
    reveal_strlit("PENDSVCLR");
    assert(parts_fit(fields(r.r_fields@), 32));
    assert(parts_fit(fields(r.w_fields@), 32));
    assert(parts_disjoint(fields(r.r_fields@)));
    assert(parts_disjoint(fields(r.w_fields@)));
    lemma_register_fits(p, r);
}

proof fn lemma_scb_vtor_fits(p: Seq<char>, r: Register)
    requires
        is_scb_vtor(r),
    ensures
        register_error(p, r) is None,
        fields_computable(r.r_fields@),
        fields_computable(r.w_fields@),
{
    reveal_strlit("VTOR");
    reveal_strlit("TBLOFF");
    assert(parts_fit(fields(r.r_fields@), 32));
    assert(parts_fit(fields(r.w_fields@), 32));
    assert(parts_disjoint(fields(r.r_fields@)));
    assert(parts_disjoint(fields(r.w_fields@)));
    lemma_register_fits(p, r);
}

proof fn lemma_scb_aircr_fits(p: Seq<char>, r: Register)
    requires
        is_scb_aircr(r),
    ensures
        register_error(p, r) is None,
        fields_computable(r.r_fields@),
        fields_computable(r.w_fields@),
{
    reveal_strlit("AIRCR");
    reveal_strlit("SYSRESETREQ");
    reveal_strlit("PRIGROUP");
    reveal_strlit("ENDIANNESS");
    reveal_strlit("VECTKEYSTAT");
    reveal_strlit("VECTRESET");
    reveal_strlit("VECTCLRACTIVE");
    reveal_strlit("VECTKEY");
    assert(parts_fit(fields(r.r_fields@), 32));
    assert(parts_fit(fields(r.w_fields@), 32));
    assert(parts_disjoint(fields(r.r_fields@)));
    assert(parts_disjoint(fields(r.w_fields@)));
    lemma_register_fits(p, r);
}

/// The Cortex-M peripherals, each with its registers and their bitfields: DCB, DWT, NVIC and
/// SCB.
pub open spec fn is_cortex_m(ps: Seq<Peripheral>) -> bool {
    &&& ps.len() == 4
    &&& is_dcb(ps[0])
    &&& is_dwt(ps[1])
    &&& is_nvic(ps[2])
    &&& is_scb(ps[3])
}

/// The registers of `regs` pass the checks when each does.
proof fn lemma_registers_fit(p: Seq<char>, regs: Seq<Register>)
    requires
        forall|k: int| 0 <= k < regs.len() ==> register_error(p, #[trigger] regs[k]) is None,
    ensures
        first_register_error(p, regs) is None,
    decreases regs.len(),
{
    if regs.len() > 0 {
        assert(register_error(p, regs[0]) is None);
        assert forall|k: int| 0 <= k < regs.skip(1).len() implies register_error(p, #[trigger] regs.skip(1)[k]) is None by {
            assert(regs.skip(1)[k] == regs[k + 1]);
        }
        lemma_registers_fit(p, regs.skip(1));
    }
}

/// The peripherals of `ps` pass the checks when each does.
proof fn lemma_peripherals_fit(ps: Seq<Peripheral>)
    requires
        forall|k: int| 0 <= k < ps.len() ==> peripheral_error(#[trigger] ps[k]) is None,
    ensures
        first_peripheral_error(ps) is None,
    decreases ps.len(),
{
    if ps.len() > 0 {
        assert(peripheral_error(ps[0]) is None);
        assert forall|k: int| 0 <= k < ps.skip(1).len() implies peripheral_error(#[trigger] ps.skip(1)[k]) is None by {
            assert(ps.skip(1)[k] == ps[k + 1]);
        }
        lemma_peripherals_fit(ps.skip(1));
    }
}

proof fn lemma_dcb_fits(p: Peripheral)
    requires
        is_dcb(p),
    ensures
        peripheral_error(p) is None,
        forall|k: int| 0 <= k < p.registers@.len() ==> {
            let reg = #[trigger] p.registers@[k];
            fields_computable(reg.r_fields@) && fields_computable(reg.w_fields@)
        },
{
    reveal_strlit("DCB");
    lemma_dcb_dhcsr_fits(p.name@, p.registers@[0]);
    lemma_dcb_dcrsr_fits(p.name@, p.registers@[1]);
    lemma_dcb_dcrdr_fits(p.name@, p.registers@[2]);
    lemma_dcb_demcr_fits(p.name@, p.registers@[3]);
    lemma_registers_fit(p.name@, p.registers@);
}

proof fn lemma_dwt_fits(p: Peripheral)
    requires
        is_dwt(p),
    ensures
        peripheral_error(p) is None,
        forall|k: int| 0 <= k < p.registers@.len() ==> {
            let reg = #[trigger] p.registers@[k];
            fields_computable(reg.r_fields@) && fields_computable(reg.w_fields@)
        },
{
    reveal_strlit("DWT");
    lemma_dwt_ctrl_fits(p.name@, p.registers@[0]);
    lemma_dwt_cyccnt_fits(p.name@, p.registers@[1]);
    lemma_registers_fit(p.name@, p.registers@);
}

proof fn lemma_nvic_fits(p: Peripheral)
    requires
        is_nvic(p),
    ensures
        peripheral_error(p) is None,
        forall|k: int| 0 <= k < p.registers@.len() ==> {
            let reg = #[trigger] p.registers@[k];
            fields_computable(reg.r_fields@) && fields_computable(reg.w_fields@)
        },
{
    reveal_strlit("NVIC");
    lemma_nvic_iser0_fits(p.name@, p.registers@[0]);
    lemma_nvic_iser1_fits(p.name@, p.registers@[1]);
    lemma_nvic_icer0_fits(p.name@, p.registers@[2]);
    lemma_nvic_icer1_fits(p.name@, p.registers@[3]);
    lemma_registers_fit(p.name@, p.registers@);
}

proof fn lemma_scb_fits(p: Peripheral)
    requires
        is_scb(p),
    ensures
        peripheral_error(p) is None,
        forall|k: int| 0 <= k < p.registers@.len() ==> {
            let reg = #[trigger] p.registers@[k];
            fields_computable(reg.r_fields@) && fields_computable(reg.w_fields@)
        },
{
    reveal_strlit("SCB");
    lemma_scb_cpuid_fits(p.name@, p.registers@[0]);
    lemma_scb_icsr_fits(p.name@, p.registers@[1]);
    lemma_scb_vtor_fits(p.name@, p.registers@[2]);
    lemma_scb_aircr_fits(p.name@, p.registers@[3]);
    lemma_registers_fit(p.name@, p.registers@);
}

/// The Cortex-M description passes every check of `Device::verify`, and the masks of all its
/// bitfields can be computed.
pub proof fn cortex_m_fits(d: Device)
    requires
        is_cortex_m(d.peripherals@),
    ensures
        first_peripheral_error(d.peripherals@) is None,
        device_computable(d),
{
    let ps = d.peripherals@;
    lemma_dcb_fits(ps[0]);
    lemma_dwt_fits(ps[1]);
    lemma_nvic_fits(ps[2]);
    lemma_scb_fits(ps[3]);
    lemma_peripherals_fit(ps);
}

/// The Cortex-M peripherals: DCB, DWT, NVIC and SCB.
pub fn peripherals() -> (r: Vec<Peripheral>)
    ensures
        is_cortex_m(r@),
{
    let mut r: Vec<Peripheral> = Vec::new();
    r.push(dcb());
    r.push(dwt());
    r.push(nvic());
    r.push(scb());
    r
}

/// The description of the Cortex-M register API; it passes every check of `Device::verify`.
pub fn device() -> (r: Device)
    ensures
        r.name@ == "Cortex-M"@,
        r.extra_docs matches Some(d) && d@ == "# References\n- ARMv7-M Architecture Reference Manual (ARM DDI 0403E.b)"@,
        is_cortex_m(r.peripherals@),
        first_peripheral_error(r.peripherals@) is None,
        device_computable(r),
{
    let r = Device {
        extra_docs: Some(text("# References\n- ARMv7-M Architecture Reference Manual (ARM DDI 0403E.b)")),
        name: text("Cortex-M"),
        peripherals: peripherals(),
    };
    proof {
        cortex_m_fits(r);
    }
    r
}

} // verus!
