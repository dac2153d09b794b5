use embedded2020::semidap::image::{image, image_fits, ElfSection, ElfSymbol, ImageError};
use embedded2020::semidap::{SectionError, Vectors};

fn section(name: &str, flags: u64, address: u64, data: Vec<u8>) -> ElfSection {
    ElfSection {
        name: Ok(name.to_string()),
        flags,
        no_bits: false,
        address,
        size: data.len() as u64,
        data,
        symbols: vec![],
    }
}

fn symbol(name: &str, shndx: u16, value: u64, size: u64) -> ElfSymbol {
    ElfSymbol {
        name: Some(name.to_string()),
        shndx,
        value,
        size,
    }
}

fn sections() -> Vec<ElfSection> {
    let mut bss = section(".bss", 2, 0x2000_1000, vec![]);
    bss.no_bits = true;
    bss.size = 16;
    let mut symtab = section(".symtab", 0, 0, vec![0; 16]);
    symtab.symbols = vec![
        symbol("main", 2, 0x2000_000d, 2),
        symbol("_ZN3foo3bar17h0123456789abcdefE", 2, 0x2000_0009, 4),
        symbol("{} is {}", 4, 1, 0),
        symbol("SEMIDAP_CURSOR", 7, 0x2000_0100, 4),
        symbol("SEMIDAP_BUFFER", 7, 0x2000_0200, 256),
        symbol("SEMIDAP_BUFFER", 7, 0x2000_0300, 100),
        ElfSymbol {
            name: None,
            shndx: 2,
            value: 0x2000_0000,
            size: 8,
        },
    ];
    vec![
        section("", 0, 0, vec![]),
        section(
            ".vectors",
            2,
            0x2000_0000,
            vec![0x00, 0x00, 0x01, 0x20, 0x09, 0x00, 0x00, 0x20],
        ),
        section(".text", 6, 0x2000_0008, vec![0; 8]),
        bss,
        section(".binfmt", 0, 0, vec![0; 4]),
        symtab,
        section(".debug_frame", 0, 0, vec![1, 2, 3]),
    ]
}

#[test]
fn image_of_a_program() {
    let secs = sections();
    assert!(image_fits(&secs));
    let img = image(&secs).unwrap();
    assert_eq!(img.load, vec![(1, 0x2000_0000), (2, 0x2000_0008)]);
    assert_eq!(
        img.vectors,
        Vectors {
            vtor: 0x2000_0000,
            sp: 0x2001_0000,
            pc: 0x2000_0009,
        }
    );
    assert_eq!(img.symbols.footprints.len(), 1);
    assert_eq!(img.symbols.footprints[&1], "{} is {}");
    assert_eq!(
        img.symbols.functions,
        vec![
            ((0x2000_0008, 0x2000_000c), "foo::bar".to_string()),
            ((0x2000_000c, 0x2000_000e), "main".to_string()),
        ]
    );
    assert_eq!(img.symbols.cursor, Some((0x2000_0100, 2)));
    assert_eq!(img.symbols.buffer, Some((0x2000_0200, 256)));
    assert_eq!(img.symbols.malformed_buffers, vec![100]);
    assert_eq!(img.debug_frame, Some(6));
}

#[test]
fn image_errors() {
    let mut secs = sections();
    secs[2].address = 0x2000_0006;
    assert!(image_fits(&secs));
    assert_eq!(
        image(&secs).err(),
        Some(ImageError::Section(2, SectionError::Misaligned(0x2000_0006, 8)))
    );

    let mut secs = sections();
    secs[2].address = 0xffff_fffc;
    assert_eq!(
        image(&secs).err(),
        Some(ImageError::Section(2, SectionError::OutsideAddressSpace))
    );

    let mut secs = sections();
    secs[2].name = Err("invalid name".to_string());
    assert_eq!(image(&secs).err(), Some(ImageError::Name(2)));

    let mut secs = sections();
    secs[1].name = Ok(".isr_vector".to_string());
    assert_eq!(image(&secs).err(), Some(ImageError::NoVectors));

    // the first section that cannot be loaded is reported
    let mut secs = sections();
    secs[1].address = 0x2000_0001;
    secs[2].name = Err("invalid name".to_string());
    assert_eq!(
        image(&secs).err(),
        Some(ImageError::Section(1, SectionError::Misaligned(0x2000_0001, 8)))
    );
}

#[test]
fn image_limits() {
    let mut secs = sections();
    secs[1].data.truncate(4);
    secs[1].size = 4;
    assert!(!image_fits(&secs));

    let mut secs = sections();
    secs[5].symbols[0].value = u64::MAX - 1;
    assert!(!image_fits(&secs));

    // a section that cannot be loaded comes first: nothing after it is reached
    let mut secs = sections();
    secs[0] = section(".data", 2, 0x2000_0002, vec![0; 4]);
    secs[1].data.truncate(4);
    secs[1].size = 4;
    assert!(image_fits(&secs));
    assert_eq!(
        image(&secs).err(),
        Some(ImageError::Section(0, SectionError::Misaligned(0x2000_0002, 4)))
    );
}
