use embedded2020::regen::cm::{device, peripherals};
use embedded2020::regen::codegen::util::{bitwidth2ty, field_docs, hex, ident, r2wmask, unsuffixed, width2ty};
use embedded2020::regen::codegen::{footprint, mod_name, peripheral_plan, register_plan, ReadPlan, RmwPlan, WritePlan};
use embedded2020::regen::fmt::Hex;
use embedded2020::regen::ir::{Access, Bitfield, Device, Instances, Peripheral, Register, Width};
use embedded2020::regen::verify::VerifyError;

fn bitfield(name: &str, offset: u8, width: u8, description: Option<&str>) -> Bitfield {
    Bitfield { description: description.map(String::from), name: String::from(name), offset, width }
}

fn register(name: &str, access: Access, r_fields: Vec<Bitfield>, w_fields: Vec<Bitfield>) -> Register {
    Register {
        access,
        description: None,
        name: String::from(name),
        offset: 0x10,
        r_fields,
        w_fields,
        width: Width::U32,
    }
}

fn device_with(reg: Register) -> Device {
    Device {
        extra_docs: None,
        name: String::from("D"),
        peripherals: vec![Peripheral {
            description: None,
            instances: Instances::Single { base_address: 0x4000_0000 },
            name: String::from("P"),
            registers: vec![reg],
        }],
    }
}

#[test]
fn cortex_m_description_verifies() {
    let d = device();
    assert_eq!(d.name, "Cortex-M");
    assert!(d.verify().is_ok());
    assert_eq!(peripherals().len(), 4);
}

#[test]
fn cortex_m_register_layouts() {
    let ps = peripherals();
    let names: Vec<&str> = ps.iter().map(|p| p.name.as_str()).collect();
    assert_eq!(names, ["DCB", "DWT", "NVIC", "SCB"]);
    let d = &ps[0].registers[0];
    assert_eq!(d.name, "DHCSR");
    assert_eq!(d.r_fields.len(), 11);
    assert_eq!(d.w_fields.len(), 6);
    assert_eq!((d.w_fields[5].name.as_str(), d.w_fields[5].offset, d.w_fields[5].width), ("DBGKEY", 16, 16));
    let dev = device();
    assert_eq!(r2wmask(&dev.peripherals[0].registers[0]), 0x030f_0000);
    assert_eq!(r2wmask(&dev.peripherals[0].registers[3]), 0);
    assert_eq!(r2wmask(&dev.peripherals[1].registers[0]), 0xff00_0000);
    assert_eq!(r2wmask(&dev.peripherals[3].registers[1]), 0x00df_f9ff);
    assert_eq!(r2wmask(&dev.peripherals[3].registers[3]), 0xffff_8000);
}

#[test]
fn overlapping_bitfields_are_reported() {
    let reg = register(
        "CTRL",
        Access::ReadWrite { unsafe_write: false },
        vec![bitfield("A", 0, 4, None), bitfield("B", 3, 2, None)],
        vec![],
    );
    match device_with(reg).verify() {
        Err(VerifyError::Overlap { peripheral, register, field }) => {
            assert_eq!(peripheral, "P");
            assert_eq!(register, "CTRL");
            assert_eq!(field, "B");
        }
        _ => panic!("B overlaps A"),
    }
}

#[test]
fn bitfield_beyond_register_width_is_reported() {
    let mut reg = register("CTRL", Access::ReadOnly, vec![bitfield("A", 30, 4, None)], vec![]);
    reg.width = Width::U32;
    match device_with(reg).verify() {
        Err(VerifyError::ExceedsWidth { offset, width, reg_width, .. }) => {
            assert_eq!((offset, width, reg_width), (30, 4, 32));
        }
        _ => panic!("A exceeds the register"),
    }
}

#[test]
fn bitfield_wider_than_any_register_is_reported() {
    let mut reg = register("CTRL", Access::ReadOnly, vec![], vec![bitfield("WIDE", 0, 100, None)]);
    reg.width = Width::U64;
    match device_with(reg).verify() {
        Err(VerifyError::ExceedsWidth { field, offset, width, reg_width, .. }) => {
            assert_eq!(field, "WIDE");
            assert_eq!((offset, width, reg_width), (0, 100, 64));
        }
        _ => panic!("WIDE exceeds the register"),
    }
}

#[test]
fn zero_width_and_unnamed_items_are_reported() {
    let reg = register("CTRL", Access::ReadOnly, vec![bitfield("A", 0, 0, None)], vec![]);
    assert!(matches!(device_with(reg).verify(), Err(VerifyError::ZeroWidth { .. })));
    let reg = register("", Access::ReadOnly, vec![], vec![]);
    assert!(matches!(device_with(reg).verify(), Err(VerifyError::UnnamedRegister { offset: 0x10, .. })));
}

#[test]
fn literals_and_types() {
    assert_eq!(hex(0x7), "0x07");
    assert_eq!(hex(0x1234), "0x1234");
    assert_eq!(hex(0xe000_ed00), "0xe000_ed00");
    assert_eq!(Hex(0xabu8).to_string(), "0xab");
    assert_eq!(Hex(0x1_0000u64).to_string(), "0x0001_0000");
    assert_eq!(unsuffixed(17), "17");
    assert_eq!(bitwidth2ty(1), Width::U8);
    assert_eq!(bitwidth2ty(9), Width::U16);
    assert_eq!(bitwidth2ty(32), Width::U32);
    assert_eq!(width2ty(Width::U16), "u16");
    assert_eq!(ident("in"), "in_");
    assert_eq!(ident("ctrl"), "ctrl");
}

#[test]
fn names_of_modules() {
    assert_eq!(mod_name("DHCSR"), "dhcsr");
    assert_eq!(mod_name("CycCnt"), "cyc_cnt");
    assert_eq!(mod_name("IN"), "in_");
}

#[test]
fn docs_and_footprints() {
    assert_eq!(field_docs(&bitfield("EN", 0, 1, Some("Enable"))), "(Bit 0) Enable");
    assert_eq!(field_docs(&bitfield("N", 4, 4, None)), "(Bits 4..=8)");
    let reg = register(
        "CTRL",
        Access::ReadWrite { unsafe_write: false },
        vec![bitfield("EN", 0, 1, None), bitfield("N", 4, 4, None)],
        vec![bitfield("EN", 0, 1, None)],
    );
    assert_eq!(footprint(&reg), "CTRL {{ N: {4:8}, EN: {0} }}");
    assert_eq!(r2wmask(&reg), 0xf0);
}

#[test]
fn register_plans() {
    let reg = register(
        "CTRL",
        Access::ReadWrite { unsafe_write: true },
        vec![bitfield("EN", 0, 1, None), bitfield("N", 4, 4, None)],
        vec![bitfield("EN", 0, 1, None)],
    );
    let p = register_plan(&reg);
    assert_eq!(p.name, "CTRL");
    assert_eq!(p.mod_name, "ctrl");
    assert!(p.write_unsafe);
    assert!(p.pointer_mut);
    assert_eq!(p.address_offset.as_deref(), Some("0x10"));
    assert_eq!(p.doc, "CTRL register");
    match &p.read {
        ReadPlan::Fields { fields, bits_ty, footprint } => {
            assert_eq!(fields.len(), 2);
            assert_eq!(fields[1].mask, "0x0f");
            assert_eq!(fields[1].offset, "4");
            assert_eq!(fields[1].adapter, "Hex1");
            assert_eq!(fields[0].adapter, "Bin1");
            assert_eq!(*bits_ty, Width::U8);
            assert_eq!(footprint, "CTRL {{ N: {4:8}, EN: {0} }}");
        }
        _ => panic!("readable through fields"),
    }
    assert!(matches!(&p.write, WritePlan::Fields { fields } if fields.len() == 1));
    assert!(matches!(&p.rmw, RmwPlan::Fields { r2wmask: Some(m) } if m == "0xf0"));

    let ro = register("ID", Access::ReadOnly, vec![], vec![]);
    let p = register_plan(&ro);
    assert!(matches!(p.read, ReadPlan::Bits));
    assert!(matches!(p.write, WritePlan::NotWritable));
    assert!(matches!(p.rmw, RmwPlan::Unavailable));
    assert!(!p.pointer_mut);
}

#[test]
fn peripheral_plans_of_cortex_m() {
    let d = device();
    let p = peripheral_plan(&d.peripherals[0]);
    assert_eq!(p.name, "DCB");
    assert_eq!(p.mod_name, "dcb");
    assert_eq!(p.base_address, "0xe000_edf0");
    assert_eq!(p.registers.len(), 4);
    assert_eq!(p.registers[0].name, "DHCSR");
    assert_eq!(p.registers[1].address_offset.as_deref(), Some("0x04"));
}
