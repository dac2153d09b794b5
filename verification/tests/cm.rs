use embedded2020::cm::dcb::{dcrsr, demcr, dhcsr};
use embedded2020::cm::dwt::ctrl;
use embedded2020::cm::nvic::{icer1, iser0};
use embedded2020::cm::scb::{self, aircr, cpuid, icsr, vtor};

#[test]
fn peripheral_is_taken_once() {
    let mut claim = scb::Claim::new();
    assert!(scb::Registers::take(&mut claim).is_some());
    assert!(scb::Registers::take(&mut claim).is_none());

    let mut sealed = scb::Claim::new();
    scb::Registers::seal(&mut sealed);
    assert!(scb::Registers::take(&mut sealed).is_none());
}

#[test]
fn register_addresses() {
    assert_eq!(cpuid::Register::address(), 0xe000_ed00);
    assert_eq!(icsr::Register::address(), 0xe000_ed04);
    assert_eq!(vtor::Register::address(), 0xe000_ed08);
    assert_eq!(aircr::Register::address(), 0xe000_ed0c);
    assert_eq!(dhcsr::Register::address(), 0xe000_edf0);
    assert_eq!(dcrsr::Register::address(), 0xe000_edf4);
    assert_eq!(demcr::Register::address(), 0xe000_edfc);
    assert_eq!(ctrl::Register::address(), 0xe000_1000);
    assert_eq!(iser0::Register::address(), 0xe000_e100);
    assert_eq!(icer1::Register::address(), 0xe000_e184);
}

#[test]
fn cpuid_fields() {
    let r = cpuid::R::from(0x410f_c241);
    assert_eq!(r.IMPLEMENTER(), 0x41);
    assert_eq!(r.VARIANT(), 0);
    assert_eq!(r.ARCHITECTURE(), 0xf);
    assert_eq!(r.PARTNO(), 0xc24);
    assert_eq!(r.REVISION(), 1);
}

#[test]
fn setters_write_what_getters_read() {
    let mut w = vtor::W::zero();
    w.TBLOFF(0x40);
    let bits = u32::from(w);
    assert_eq!(bits, 0x2000);
    assert_eq!(vtor::R::from(bits).TBLOFF(), 0x40);

    let mut w = demcr::W::zero();
    w.TRCENA(1).VC_CORERESET(1);
    let r = demcr::R::from(u32::from(w));
    assert_eq!(r.TRCENA(), 1);
    assert_eq!(r.VC_CORERESET(), 1);
    assert_eq!(r.MON_EN(), 0);
}

#[test]
fn debug_key_and_status_bits() {
    let r = dhcsr::R::from(0x0003_0003);
    assert_eq!(r.S_HALT(), 1);
    assert_eq!(r.S_REGRDY(), 1);
    assert_eq!(r.C_HALT(), 1);
    let mut w = dhcsr::W::from(r);
    w.DBGKEY(0xa05f).C_HALT(0);
    assert_eq!(u32::from(w), 0xa05f_0001);
}

#[test]
fn dwt_and_icsr_fields() {
    let r = ctrl::R::from(0x4000_0001);
    assert_eq!(r.NUMCOMP(), 4);
    assert_eq!(r.CYCCNTENA(), 1);
    let r = icsr::R::from(0x0040_0803);
    assert_eq!(r.VECTACTIVE(), 3);
    let mut w = aircr::W::zero();
    w.VECTKEY(0x05fa).SYSRESETREQ(1);
    assert_eq!(u32::from(w), 0x05fa_0004);
}
