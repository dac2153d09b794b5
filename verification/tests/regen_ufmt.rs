use embedded2020::regen_ufmt::{Bin1, Bin2, Bin3, Hex1, Hex2, Hex3, Hex4, Hex6, Hex7, Hex8};

#[test]
fn binary_adapters() {
    assert_eq!(Bin1(0).to_string(), "0");
    assert_eq!(Bin1(1).to_string(), "1");
    assert_eq!(Bin2(1).to_string(), "0b01");
    assert_eq!(Bin2(2).to_string(), "0b10");
    assert_eq!(Bin3(5).to_string(), "0b101");
    assert_eq!(Bin2(5).to_string(), "0b01");
}

#[test]
fn hex_adapters() {
    assert_eq!(Hex1(0xa).to_string(), "0xa");
    assert_eq!(Hex2(0x0f).to_string(), "0x0f");
    assert_eq!(Hex3(0xabc).to_string(), "0xabc");
    assert_eq!(Hex4(0x12).to_string(), "0x0012");
    assert_eq!(Hex6(0x12_3456).to_string(), "0x12_3456");
    assert_eq!(Hex7(0x0abc_def0).to_string(), "0xabc_def0");
    assert_eq!(Hex8(0xdead_beef).to_string(), "0xdead_beef");
    assert_eq!(Hex8(0x1).to_string(), "0x0000_0001");
}
