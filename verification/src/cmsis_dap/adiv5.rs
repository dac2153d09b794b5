//! ARM Debug Interface v5
use vstd::prelude::*;

verus! {

/// ADIv5 registers
#[allow(non_camel_case_types)]
#[derive(Clone, Copy, Debug, PartialEq, Eq, Structural)]
pub enum Register {
    /// Debug Port Identification Register
    DP_DPIDR,
    /// DP Control register
    DP_CTRL,
    /// DP Status register
    DP_STAT,
    /// AP Select Register
    DP_SELECT,
    /// Read Buffer
    DP_RDBUFF,
    /// Control/Status Word
    AHB_AP_CSW,
    /// Transfer Address
    AHB_AP_TAR,
    /// Data Read/Write
    AHB_AP_DRW,
    /// Banked Data 0
    AHB_AP_BD0,
    /// Banked Data 1
    AHB_AP_BD1,
    /// Banked Data 2
    AHB_AP_BD2,
    /// Banked Data 3
    AHB_AP_BD3,
}

/// AP bank
#[allow(non_camel_case_types)]
#[derive(Clone, Copy, PartialEq, Eq, Debug, Structural)]
pub enum ApBank {
    AHB_AP(u8),
}

/// The banked data register through which the word at `addr` is accessed.
pub open spec fn banked_data_spec(addr: u32) -> Register {
    let k = addr & 0xf;
    if k == 0 {
        Register::AHB_AP_BD0
    } else if k == 4 {
        Register::AHB_AP_BD1
    } else if k == 8 {
        Register::AHB_AP_BD2
    } else {
        Register::AHB_AP_BD3
    }
}

/// The AP bank that a register lives in; `None` for the Debug Port registers.
pub open spec fn ap_bank_spec(reg: Register) -> Option<ApBank> {
    match reg {
        Register::DP_DPIDR | Register::DP_CTRL | Register::DP_STAT | Register::DP_SELECT
        | Register::DP_RDBUFF => None,
        Register::AHB_AP_CSW | Register::AHB_AP_TAR | Register::AHB_AP_DRW => Some(
            ApBank::AHB_AP(0),
        ),
        Register::AHB_AP_BD0 | Register::AHB_AP_BD1 | Register::AHB_AP_BD2
        | Register::AHB_AP_BD3 => Some(ApBank::AHB_AP(1)),
    }
}

impl Register {
    /// The banked data register for the 4-byte aligned address `addr`.
    pub fn banked_data(addr: u32) -> (r: Self)
        requires
            addr % 4 == 0,
        ensures
            r == banked_data_spec(addr),
    {
        let k = addr & 0xf;
        assert(k == 0 || k == 4 || k == 8 || k == 0xc) by (bit_vector)
            requires
                addr % 4 == 0,
                k == addr & 0xf,
        ;
        if k == 0x0 {
            Register::AHB_AP_BD0
        } else if k == 0x4 {
            Register::AHB_AP_BD1
        } else if k == 0x8 {
            Register::AHB_AP_BD2
        } else {
            Register::AHB_AP_BD3
        }
    }

    /// The AP bank of this register; `None` for the Debug Port registers.
    pub fn ap_bank(&self) -> (r: Option<ApBank>)
        ensures
            r == ap_bank_spec(*self),
    {
        match *self {
            Register::DP_DPIDR | Register::DP_CTRL | Register::DP_STAT | Register::DP_SELECT
            | Register::DP_RDBUFF => None,
            Register::AHB_AP_CSW | Register::AHB_AP_TAR | Register::AHB_AP_DRW => Some(
                ApBank::AHB_AP(0),
            ),
            Register::AHB_AP_BD0 | Register::AHB_AP_BD1 | Register::AHB_AP_BD2
            | Register::AHB_AP_BD3 => Some(ApBank::AHB_AP(1)),
        }
    }
}

/// Reserved field
pub const DP_DPIDR_RESERVED: u32 = 1;

/// JEDEC Manufacturer ID
pub const DP_DPIDR_MANUFACTURER_ARM: u32 = 0x476;

/// System power-up acknowledge
pub const DP_STAT_CSYSPWRUPACK: u32 = 0x8000_0000;

/// System power-up request
pub const DP_CTRL_CSYSPWRUPREQ: u32 = 0x4000_0000;

/// Debug power-up acknowledge
pub const DP_STAT_CDBGPWRUPACK: u32 = 0x2000_0000;

/// Debug power-up request
pub const DP_CTRL_CDBGPWRUPREQ: u32 = 0x1000_0000;

/// APSEL = AHB-AP
pub const DP_SELECT_APSEL_AHB_AP: u32 = 0;

/// Offset of the APBANKSEL field
pub const DP_SELECT_APBANKSEL_OFFSET: u8 = 4;

/// The value of `DP_SELECT` that selects `bank`.
pub open spec fn select_value(bank: ApBank) -> u32 {
    match bank {
        ApBank::AHB_AP(n) => DP_SELECT_APSEL_AHB_AP | ((n as u32) << DP_SELECT_APBANKSEL_OFFSET),
    }
}

/// The value of `DP_SELECT` that selects `bank`.
pub fn select(bank: ApBank) -> (r: u32)
    ensures
        r == select_value(bank),
{
    match bank {
        ApBank::AHB_AP(n) => DP_SELECT_APSEL_AHB_AP | ((n as u32) << DP_SELECT_APBANKSEL_OFFSET),
    }
}

} // verus!
