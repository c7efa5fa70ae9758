//! The byte-addressable RAM a simulated user program can reach, consumed by
//! stack instructions such as push and pop.

use vstd::prelude::*;

verus! {

/// A flat byte address into user RAM.
#[derive(Clone, Copy, Debug, PartialEq, Eq, Structural)]
pub struct RamAddress(pub usize);

/// A byte-addressable RAM with fixed start and end addresses.  Writes
/// truncate to a byte; reads zero-extend.  Addressing beyond the end is a
/// configuration error and is excluded by precondition.
pub trait UserRam: Sized {
    /// The first address of the RAM region.
    spec fn spec_start_address() -> usize;

    /// The last address of the RAM region.
    spec fn spec_end_address() -> usize;

    /// The byte currently stored at `address`.
    spec fn spec_byte(self, address: usize) -> nat;

    /// Well-formedness of the store.
    spec fn inv(self) -> bool;

    /// A freshly cleared RAM: every byte in range is zero.
    fn new() -> (r: Self)
        ensures
            r.inv(),
            forall|a: usize| a <= Self::spec_end_address() ==> r.spec_byte(a) == 0,
    ;

    /// Store `value`, truncated to a byte, at `address`.
    fn write_to(&mut self, address: RamAddress, value: usize)
        requires
            old(self).inv(),
            address.0 <= Self::spec_end_address(),
        ensures
            final(self).inv(),
            final(self).spec_byte(address.0) == value as nat % 256,
            forall|a: usize|
                a <= Self::spec_end_address() && a != address.0 ==> final(self).spec_byte(a)
                    == old(self).spec_byte(a),
    ;

    /// The byte stored at `address`, zero-extended.
    fn read_from(&mut self, address: RamAddress) -> (r: usize)
        requires
            old(self).inv(),
            address.0 <= Self::spec_end_address(),
        ensures
            *final(self) == *old(self),
            r as nat == old(self).spec_byte(address.0),
    ;

    /// The first address of the RAM region, as an executable answer.
    fn get_start_address() -> (r: usize)
        ensures
            r == Self::spec_start_address(),
    ;

    /// The last address of the RAM region, as an executable answer.
    fn get_end_address() -> (r: usize)
        ensures
            r == Self::spec_end_address(),
    ;
}

/// A reference RAM layout: 2304 bytes, with the user region beginning at
/// `0x0100` and ending at `0x08FF`.
#[derive(Clone, Debug, PartialEq)]
pub struct ExampleUserRam(pub Vec<u8>);

impl UserRam for ExampleUserRam {
    /// The user region begins at `0x0100`.
    open spec fn spec_start_address() -> usize {
        0x0100
    }

    /// The user region ends at `0x08FF`.
    open spec fn spec_end_address() -> usize {
        0x08FF
    }

    /// The byte stored at `address`.
    open spec fn spec_byte(self, address: usize) -> nat {
        self.0@[address as int] as nat
    }

    /// The backing vector covers every address up to the end address.
    open spec fn inv(self) -> bool {
        self.0@.len() == 0x900
    }

    /// A freshly cleared RAM.
    fn new() -> (r: ExampleUserRam) {
        ExampleUserRam(vec![0u8; 0x8FF + 1])
    }

    /// Store `value`, truncated to a byte, at `address`.
    fn write_to(&mut self, address: RamAddress, value: usize) {
        proof {
            lemma_byte_truncation(value);
        }
        self.0[address.0] = #[verifier::truncate] (value as u8);
    }

    /// The byte stored at `address`, zero-extended.
    fn read_from(&mut self, address: RamAddress) -> (r: usize) {
        self.0[address.0] as usize
    }

    /// The first address of the RAM region.
    fn get_start_address() -> (r: usize) {
        0x0100
    }

    /// The last address of the RAM region.
    fn get_end_address() -> (r: usize) {
        0x08FF
    }
}

/// Casting an engine word down to a byte keeps its value modulo 256.
pub proof fn lemma_byte_truncation(value: usize)
    ensures
        (value as u8) as nat == value as nat % 256,
{
    assert(value as u8 == value % 256) by (bit_vector);
}

} // verus!
