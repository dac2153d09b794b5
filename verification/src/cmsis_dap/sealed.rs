//! Data that can be read from memory using the AHB-AP (Access Port)
use vstd::prelude::*;

verus! {

/// The bytes of a 4-byte chunk of the data read, rotated left by `k`.
pub open spec fn rotate_left(c: Seq<u8>, k: int) -> Seq<u8> {
    c.skip(k) + c.take(k)
}

/// Data that can be read from memory using the AHB-AP (Access Port)
pub trait Data: Sized {
    /// Size of one item, in bytes.
    spec fn bytes_spec() -> u16;

    /// Value of the `Size` field of the AHB-AP's CSW register for items of this size.
    spec fn csw_size_spec() -> u32;

    /// The items that `push` takes out of the words read from the AHB-AP's DRW register.
    spec fn decode(bytes: Seq<u8>, offset: u32, count: u16) -> Seq<Self>;

    /// Whether `push` may take `count` items out of `bytes` at `offset`.
    spec fn push_ok(bytes: Seq<u8>, offset: u32, count: u16) -> bool;

    /// Size of one item, in bytes.
    fn bytes() -> (r: u16)
        ensures
            r == Self::bytes_spec(),
    ;

    /// Value of the `Size` field of the AHB-AP's CSW register for items of this size.
    fn csw_size() -> (r: u32)
        ensures
            r == Self::csw_size_spec(),
    ;

    /// One-letter name of the access size: byte, half-word or word.
    spec fn acronym_spec() -> Seq<char>;

    /// One-letter name of the access size: byte, half-word or word.
    fn acronym() -> (r: &'static str)
        ensures
            r@ == Self::acronym_spec(),
    ;

    /// Appends to `memory` the `count` items carried by the words in `bytes`, whose first item
    /// starts `offset` bytes into the first word.
    fn push(memory: &mut Vec<Self>, bytes: &[u8], offset: u32, count: u16)
        requires
            Self::push_ok(bytes@, offset, count),
        ensures
            final(memory)@ == old(memory)@ + Self::decode(bytes@, offset, count),
    ;
}

} // verus!
