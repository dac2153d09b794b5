use embedded2020::regen::ir::{Access, Instances, Width};
use embedded2020::regen::translate::svd::{
    access, bit_range, device, fields, peripheral, register, register_size, SvdAccess,
    SvdBitRange, SvdChild, SvdCluster, SvdClusterInfo, SvdDevice, SvdDim, SvdField, SvdFieldInfo,
    SvdPeripheral, SvdRegister, SvdRegisterCluster, SvdRegisterInfo, SvdRegisterProperties,
};

fn field(name: &str, offset: u32, width: u32, access: Option<SvdAccess>) -> SvdField {
    SvdField::Single(SvdFieldInfo {
        name: String::from(name),
        description: None,
        bit_range: SvdBitRange { offset, width },
        access,
    })
}

fn reg(name: &str, offset: u32, fields: Option<Vec<SvdField>>) -> SvdRegisterInfo {
    SvdRegisterInfo {
        name: String::from(name),
        description: Some(String::from("a register")),
        address_offset: offset,
        size: None,
        access: None,
        fields,
    }
}

fn defaults() -> SvdRegisterProperties {
    SvdRegisterProperties { size: Some(32), access: Some(SvdAccess::ReadWrite) }
}

#[test]
fn accesses_and_sizes() {
    assert_eq!(access(SvdAccess::ReadOnly), Access::ReadOnly);
    assert_eq!(access(SvdAccess::WriteOnly), Access::WriteOnly { unsafe_write: false });
    assert_eq!(access(SvdAccess::ReadWrite), Access::ReadWrite { unsafe_write: false });
    assert_eq!(register_size(8), Width::U8);
    assert_eq!(register_size(64), Width::U64);
    assert_eq!(bit_range(SvdBitRange { offset: 4, width: 3 }), (4, 3));
}

#[test]
fn fields_split_by_access() {
    let fs = vec![
        field("A", 0, 1, Some(SvdAccess::ReadOnly)),
        field("B", 1, 2, Some(SvdAccess::WriteOnly)),
        field("C", 3, 1, None),
    ];
    let (r, w) = fields(&fs, Some(SvdAccess::ReadWrite));
    assert_eq!(r.iter().map(|f| f.name.as_str()).collect::<Vec<_>>(), vec!["A", "C"]);
    assert_eq!(w.iter().map(|f| f.name.as_str()).collect::<Vec<_>>(), vec!["B", "C"]);
    assert_eq!((w[0].offset, w[0].width), (1, 2));
}

#[test]
fn register_inherits_properties() {
    let r = reg("CTRL", 0x10, None);
    let out = register(&r, None, &[defaults()]);
    assert_eq!(out.name, "CTRL");
    assert_eq!(out.offset, 0x10);
    assert_eq!(out.width, Width::U32);
    assert_eq!(out.access, Access::ReadWrite { unsafe_write: false });
    assert_eq!(out.description.as_deref(), Some("a register"));
    assert!(out.r_fields.is_empty() && out.w_fields.is_empty());

    let mut own = reg("STAT", 0x4, None);
    own.size = Some(8);
    own.access = Some(SvdAccess::ReadOnly);
    let cluster = SvdClusterInfo {
        name: String::from("CH0"),
        address_offset: 0x100,
        default_register_properties: SvdRegisterProperties { size: None, access: None },
        children: vec![],
    };
    let out = register(&own, Some(&cluster), &[defaults()]);
    assert_eq!(out.name, "CH0_STAT");
    assert_eq!(out.offset, 0x104);
    assert_eq!(out.width, Width::U8);
    assert_eq!(out.access, Access::ReadOnly);
}

fn example_peripheral() -> (SvdPeripheral, Vec<SvdRegisterCluster>) {
    let regs = vec![
        SvdRegisterCluster::Register(SvdRegister::Single(reg("CTRL", 0x0, None))),
        SvdRegisterCluster::Register(SvdRegister::Array(
            reg("DATA[%s]", 0x10, None),
            SvdDim { dim: 2, dim_increment: 4, has_dim_index: false },
        )),
        SvdRegisterCluster::Cluster(SvdCluster::Array(
            SvdClusterInfo {
                name: String::from("CH[%s]"),
                address_offset: 0x100,
                default_register_properties: SvdRegisterProperties { size: Some(16), access: None },
                children: vec![SvdChild::Register(SvdRegister::Single(reg("CFG", 0x2, None)))],
            },
            SvdDim { dim: 2, dim_increment: 0x20, has_dim_index: false },
        )),
    ];
    let p = SvdPeripheral {
        name: String::from("TIMER"),
        description: None,
        base_address: 0x4000_8000,
        derived_from: false,
        registers: Some(vec![]),
    };
    (p, regs)
}

#[test]
fn peripheral_flattens_arrays_and_clusters() {
    let (p, regs) = example_peripheral();
    let out = peripheral(&p, &regs, &defaults());
    assert_eq!(out.name, "TIMER");
    assert!(matches!(out.instances, Instances::Single { base_address: 0x4000_8000 }));
    let names: Vec<(&str, u64, Width)> = out.registers.iter().map(|r| (r.name.as_str(), r.offset, r.width)).collect();
    assert_eq!(
        names,
        vec![
            ("CTRL", 0x0, Width::U32),
            ("DATA0", 0x10, Width::U32),
            ("DATA1", 0x14, Width::U32),
            ("CH0_CFG", 0x102, Width::U16),
            ("CH1_CFG", 0x122, Width::U16),
        ]
    );
}

#[test]
fn device_keeps_whitelisted_peripherals() {
    let (mut p, regs) = example_peripheral();
    p.registers = Some(regs);
    let other = SvdPeripheral {
        name: String::from("UART"),
        description: Some(String::from("serial port")),
        base_address: 0x4000_2000,
        derived_from: false,
        registers: Some(vec![]),
    };
    let empty = SvdPeripheral {
        name: String::from("GPIO"),
        description: None,
        base_address: 0x5000_0000,
        derived_from: false,
        registers: None,
    };
    let d = SvdDevice {
        name: String::from("nrf52"),
        default_register_properties: defaults(),
        peripherals: vec![p, other, empty],
    };
    let out = device(&d, &["TIMER", "GPIO"]);
    assert_eq!(out.name, "nrf52");
    assert_eq!(out.peripherals.len(), 1);
    assert_eq!(out.peripherals[0].name, "TIMER");
    assert_eq!(out.peripherals[0].registers.len(), 5);
}
