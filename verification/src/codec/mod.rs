//! The canonical binary form of the data model: little-endian integers,
//! 8-byte length prefixes, 4-byte variant tags.

use vstd::prelude::*;
use crate::codec::wire::Wire;

pub mod wire;
pub mod containers;
pub mod records;

verus! {

/// The value that `bytes` are the binary form of: the value at the front,
/// where it takes all of the bytes.
pub open spec fn decoded<T: Wire>(bytes: Seq<u8>) -> Option<T::Model> {
    match T::parse(bytes) {
        Some((m, used)) => if used == bytes.len() {
            Some(m)
        } else {
            None
        },
        None => None,
    }
}

/// The binary form of a value.
pub fn encode<T: Wire>(value: &T) -> (bytes: Vec<u8>)
    ensures
        bytes@ == T::wire(value.model()),
        T::fits(value.model()),
{
    let mut bytes: Vec<u8> = Vec::new();
    value.write(&mut bytes);
    bytes
}

/// The value that `bytes` are the binary form of; `None` where they are
/// the form of no value, or have bytes left over.
pub fn decode<T: Wire>(bytes: &[u8]) -> (value: Option<T>)
    ensures
        match value {
            Some(v) => decoded::<T>(bytes@) == Some(v.model()),
            None => decoded::<T>(bytes@) is None,
        },
{
    assert(bytes@.skip(0) =~= bytes@);
    match T::read(bytes, 0) {
        Some((value, next)) => if next == bytes.len() {
            Some(value)
        } else {
            None
        },
        None => None,
    }
}

/// Decoding the binary form of a value gives the value back.
pub proof fn law_decode_encode<T: Wire>(m: T::Model)
    requires
        T::fits(m),
    ensures
        decoded::<T>(T::wire(m)) == Some(m),
{
    T::lemma_parse_wire(m, Seq::empty());
}

/// Only the binary form of a value decodes to it: the form is canonical.
pub proof fn law_encode_decode<T: Wire>(bytes: Seq<u8>)
    ensures
        decoded::<T>(bytes) matches Some(m) ==> T::fits(m) && T::wire(m) == bytes,
{
    T::lemma_wire_parse(bytes);
}

} // verus!
