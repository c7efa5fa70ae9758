//! The flat data space collaborator: a byte store keyed by address that
//! side-effecting instructions read and write.

use vstd::prelude::*;
use crate::RegisterSize;

verus! {

/// An address into the data space.
pub enum DataAddress {
    /// A flat byte index.
    Byte(RegisterSize),
}

/// The byte index an address denotes.
pub open spec fn spec_data_index(address: DataAddress) -> nat {
    match address {
        DataAddress::Byte(index) => index as nat,
    }
}

/// A flat byte store keyed by address.  Writes truncate to a byte; reads
/// zero-extend.  Addressing beyond the capacity is a configuration error
/// and is excluded by precondition.
pub trait DataSpace: Sized {
    /// The number of addressable bytes.
    spec fn spec_capacity() -> nat;

    /// The byte currently stored at index `index`.
    spec fn spec_byte(self, index: nat) -> nat;

    /// Well-formedness of the store.
    spec fn inv(self) -> bool;

    /// A freshly cleared data space: every byte in range is zero.
    fn new() -> (r: Self)
        ensures
            r.inv(),
            forall|i: nat| i < Self::spec_capacity() ==> r.spec_byte(i) == 0,
    ;

    /// Store `value`, truncated to a byte, at `address`.
    fn write_to(&mut self, address: DataAddress, value: RegisterSize)
        requires
            old(self).inv(),
            spec_data_index(address) < Self::spec_capacity(),
        ensures
            final(self).inv(),
            final(self).spec_byte(spec_data_index(address)) == value as nat % 256,
            forall|i: nat|
                i < Self::spec_capacity() && i != spec_data_index(address)
                    ==> final(self).spec_byte(i) == old(self).spec_byte(i),
    ;

    /// The byte stored at `address`, zero-extended.
    fn read_from(&self, address: DataAddress) -> (r: RegisterSize)
        requires
            self.inv(),
            spec_data_index(address) < Self::spec_capacity(),
        ensures
            r as nat == self.spec_byte(spec_data_index(address)),
    ;
}

/// A reference data space of 2048 bytes.
pub struct ExampleDataSpace(pub Vec<u8>);

impl DataSpace for ExampleDataSpace {
    /// 2048 addressable bytes.
    open spec fn spec_capacity() -> nat {
        2048
    }

    /// The byte stored at index `index`.
    open spec fn spec_byte(self, index: nat) -> nat {
        self.0@[index as int] as nat
    }

    /// The backing vector covers the whole capacity.
    open spec fn inv(self) -> bool {
        self.0@.len() == 2048
    }

    /// A freshly cleared data space.
    fn new() -> (r: ExampleDataSpace) {
        ExampleDataSpace(vec![0u8; 2048])
    }

    /// Store `value`, truncated to a byte, at `address`.
    fn write_to(&mut self, address: DataAddress, value: RegisterSize) {
        proof {
            crate::user_ram::lemma_byte_truncation(value);
        }
        match address {
            DataAddress::Byte(index) => {
                self.0[index] = #[verifier::truncate] (value as u8);
            },
        }
    }

    /// The byte stored at `address`, zero-extended.
    fn read_from(&self, address: DataAddress) -> (r: RegisterSize) {
        match address {
            DataAddress::Byte(index) => self.0[index] as usize,
        }
    }
}

} // verus!
