//! The `Wire` trait and its instances for integers, strings, identifiers,
//! byte strings, options, pairs and lists.

use vstd::prelude::*;
use vstd::utf8::{decode_utf8, encode_utf8, valid_utf8};
use vstd::utf8::{decode_utf8_encode_utf8, encode_utf8_decode_utf8, encode_utf8_valid_utf8};
use crate::bytes::{append_bytes, array32_at, le_bytes, le_value, pow256, push_le, read_le};
use crate::bytes::{lemma_le_bytes_len, lemma_le_bytes_of_value, lemma_le_value_of_bytes};
use crate::bytes::lemma_pow256_values;

verus! {

/// A type with a canonical binary form.
///
/// `wire` writes a value out, `parse` reads one value off the front of a
/// byte string and says how many bytes it took. The two lemmas make them
/// inverse to each other: what was written is read back, and what is read
/// was written exactly so.
pub trait Wire: Sized {
    /// The mathematical value that the binary form stands for.
    type Model;

    spec fn model(&self) -> Self::Model;

    /// Whether every length inside the value fits its 8-byte prefix.
    spec fn fits(m: Self::Model) -> bool;

    /// The bytes of a value.
    spec fn wire(m: Self::Model) -> Seq<u8>;

    /// The value at the front of `bytes` and the number of bytes it takes,
    /// or `None` where no value is written there.
    spec fn parse(bytes: Seq<u8>) -> Option<(Self::Model, nat)>;

    proof fn lemma_parse_wire(m: Self::Model, rest: Seq<u8>)
        requires
            Self::fits(m),
        ensures
            Self::parse(Self::wire(m) + rest) == Some((m, Self::wire(m).len())),
    ;

    proof fn lemma_wire_parse(bytes: Seq<u8>)
        ensures
            Self::parse(bytes) matches Some((m, used)) ==> {
                &&& used <= bytes.len()
                &&& Self::fits(m)
                &&& Self::wire(m) == bytes.take(used as int)
            },
    ;

    /// Appends the bytes of the value, which always fits.
    fn write(&self, out: &mut Vec<u8>)
        ensures
            final(out)@ == old(out)@ + Self::wire(self.model()),
            Self::fits(self.model()),
    ;

    /// Reads the value at `pos`; gives it with the position behind it.
    fn read(bytes: &[u8], pos: usize) -> (found: Option<(Self, usize)>)
        requires
            pos <= bytes@.len(),
        ensures
            match found {
                Some((value, next)) => {
                    &&& pos <= next <= bytes@.len()
                    &&& Self::parse(bytes@.skip(pos as int)) == Some(
                        (value.model(), (next - pos) as nat),
                    )
                },
                None => Self::parse(bytes@.skip(pos as int)) is None,
            },
    ;
}

/// An integer of `width` bytes at the front of `bytes`.
pub open spec fn parse_uint(bytes: Seq<u8>, width: nat) -> Option<(nat, nat)> {
    if bytes.len() < width {
        None
    } else {
        Some((le_value(bytes.take(width as int)), width))
    }
}

/// Parsing the little-endian form of a number gives the number back.
pub proof fn lemma_parse_uint_wire(value: nat, width: nat, rest: Seq<u8>)
    requires
        value < pow256(width),
    ensures
        parse_uint(le_bytes(value, width) + rest, width) == Some((value, width)),
        le_bytes(value, width).len() == width,
{
    lemma_le_bytes_len(value, width);
    lemma_le_value_of_bytes(value, width);
    assert((le_bytes(value, width) + rest).take(width as int) =~= le_bytes(value, width));
}

/// What `parse_uint` accepts is the little-endian form of what it gives.
pub proof fn lemma_parse_uint_sound(bytes: Seq<u8>, width: nat)
    ensures
        parse_uint(bytes, width) matches Some((value, used)) ==> {
            &&& used == width
            &&& width <= bytes.len()
            &&& value < pow256(width)
            &&& le_bytes(value, width) == bytes.take(width as int)
        },
{
    if bytes.len() >= width {
        lemma_le_bytes_of_value(bytes.take(width as int));
    }
}

/// Reads an integer of `width` bytes at `pos`.
pub fn read_uint(bytes: &[u8], pos: usize, width: usize) -> (found: Option<u64>)
    requires
        pos <= bytes@.len(),
        1 <= width <= 8,
    ensures
        match found {
            Some(value) => {
                &&& pos + width <= bytes@.len() <= usize::MAX
                &&& parse_uint(bytes@.skip(pos as int), width as nat) == Some(
                    (value as nat, width as nat),
                )
                &&& value < pow256(width as nat)
            },
            None => parse_uint(bytes@.skip(pos as int), width as nat) is None,
        },
{
    if bytes.len() - pos < width {
        return None;
    }
    let value = read_le(bytes, pos, width);
    assert(bytes@.skip(pos as int).take(width as int) =~= bytes@.subrange(pos as int, pos + width));
    Some(value)
}

impl Wire for u64 {
    type Model = u64;

    open spec fn model(&self) -> u64 {
        *self
    }

    open spec fn fits(m: u64) -> bool {
        true
    }

    open spec fn wire(m: u64) -> Seq<u8> {
        le_bytes(m as nat, 8)
    }

    open spec fn parse(bytes: Seq<u8>) -> Option<(u64, nat)> {
        match parse_uint(bytes, 8) {
            Some((value, used)) => Some((value as u64, used)),
            None => None,
        }
    }

    proof fn lemma_parse_wire(m: u64, rest: Seq<u8>) {
        lemma_pow256_values();
        lemma_parse_uint_wire(m as nat, 8, rest);
    }

    proof fn lemma_wire_parse(bytes: Seq<u8>) {
        lemma_pow256_values();
        lemma_parse_uint_sound(bytes, 8);
    }

    fn write(&self, out: &mut Vec<u8>) {
        push_le(out, *self, 8);
    }

    fn read(bytes: &[u8], pos: usize) -> (found: Option<(Self, usize)>) {
        match read_uint(bytes, pos, 8) {
            Some(value) => Some((value, pos + 8)),
            None => None,
        }
    }
}

impl Wire for u16 {
    type Model = u16;

    open spec fn model(&self) -> u16 {
        *self
    }

    open spec fn fits(m: u16) -> bool {
        true
    }

    open spec fn wire(m: u16) -> Seq<u8> {
        le_bytes(m as nat, 2)
    }

    open spec fn parse(bytes: Seq<u8>) -> Option<(u16, nat)> {
        match parse_uint(bytes, 2) {
            Some((value, used)) => Some((value as u16, used)),
            None => None,
        }
    }

    proof fn lemma_parse_wire(m: u16, rest: Seq<u8>) {
        lemma_pow256_values();
        lemma_parse_uint_wire(m as nat, 2, rest);
    }

    proof fn lemma_wire_parse(bytes: Seq<u8>) {
        lemma_pow256_values();
        lemma_parse_uint_sound(bytes, 2);
    }

    fn write(&self, out: &mut Vec<u8>) {
        push_le(out, *self as u64, 2);
    }

    fn read(bytes: &[u8], pos: usize) -> (found: Option<(Self, usize)>) {
        match read_uint(bytes, pos, 2) {
            Some(value) => Some((value as u16, pos + 2)),
            None => None,
        }
    }
}

impl Wire for bool {
    type Model = bool;

    open spec fn model(&self) -> bool {
        *self
    }

    open spec fn fits(m: bool) -> bool {
        true
    }

    open spec fn wire(m: bool) -> Seq<u8> {
        seq![if m { 1u8 } else { 0u8 }]
    }

    open spec fn parse(bytes: Seq<u8>) -> Option<(bool, nat)> {
        if bytes.len() >= 1 && bytes[0] == 0 {
            Some((false, 1))
        } else if bytes.len() >= 1 && bytes[0] == 1 {
            Some((true, 1))
        } else {
            None
        }
    }

    proof fn lemma_parse_wire(m: bool, rest: Seq<u8>) {
    }

    proof fn lemma_wire_parse(bytes: Seq<u8>) {
    }

    fn write(&self, out: &mut Vec<u8>) {
        let byte: u8 = if *self { 1 } else { 0 };
        out.push(byte);
    }

    fn read(bytes: &[u8], pos: usize) -> (found: Option<(Self, usize)>) {
        if pos >= bytes.len() {
            return None;
        }
        let byte = bytes[pos];
        if byte == 0 {
            Some((false, pos + 1))
        } else if byte == 1 {
            Some((true, pos + 1))
        } else {
            None
        }
    }
}

/// A 32-byte identifier: its bytes, with no prefix.
impl Wire for [u8; 32] {
    type Model = Seq<u8>;

    open spec fn model(&self) -> Seq<u8> {
        self@
    }

    open spec fn fits(m: Seq<u8>) -> bool {
        m.len() == 32
    }

    open spec fn wire(m: Seq<u8>) -> Seq<u8> {
        m
    }

    open spec fn parse(bytes: Seq<u8>) -> Option<(Seq<u8>, nat)> {
        if bytes.len() < 32 {
            None
        } else {
            Some((bytes.take(32), 32))
        }
    }

    proof fn lemma_parse_wire(m: Seq<u8>, rest: Seq<u8>) {
    }

    proof fn lemma_wire_parse(bytes: Seq<u8>) {
    }

    fn write(&self, out: &mut Vec<u8>) {
        append_bytes(out, self.as_slice());
    }

    fn read(bytes: &[u8], pos: usize) -> (found: Option<(Self, usize)>) {
        if bytes.len() - pos < 32 {
            return None;
        }
        let id = array32_at(bytes, pos);
        Some((id, pos + 32))
    }
}

/// A byte string with its length in front, at the front of `bytes`.
pub open spec fn parse_blob(bytes: Seq<u8>) -> Option<(Seq<u8>, nat)> {
    match parse_uint(bytes, 8) {
        Some((len, used)) => if bytes.len() - 8 < len {
            None
        } else {
            Some((bytes.subrange(8, 8 + len as int), 8 + len))
        },
        None => None,
    }
}

/// A byte string with its length in front.
pub open spec fn wire_blob(data: Seq<u8>) -> Seq<u8> {
    le_bytes(data.len(), 8) + data
}

/// Parsing the binary form of a byte string gives the byte string back.
pub proof fn lemma_parse_blob_wire(data: Seq<u8>, rest: Seq<u8>)
    requires
        data.len() <= u64::MAX,
    ensures
        parse_blob(wire_blob(data) + rest) == Some((data, wire_blob(data).len())),
        wire_blob(data).len() == 8 + data.len(),
{
    lemma_pow256_values();
    lemma_parse_uint_wire(data.len(), 8, data + rest);
    let all = wire_blob(data) + rest;
    assert(all =~= le_bytes(data.len(), 8) + (data + rest));
}

/// What `parse_blob` accepts is the binary form of what it gives.
pub proof fn lemma_parse_blob_sound(bytes: Seq<u8>)
    ensures
        parse_blob(bytes) matches Some((data, used)) ==> {
            &&& used <= bytes.len()
            &&& used == 8 + data.len()
            &&& data.len() <= u64::MAX
            &&& wire_blob(data) == bytes.take(used as int)
        },
{
    lemma_pow256_values();
    lemma_parse_uint_sound(bytes, 8);
    if let Some((data, used)) = parse_blob(bytes) {
        assert(wire_blob(data) =~= bytes.take(used as int));
    }
}

/// Appends a byte string with its length in front.
pub fn write_blob(data: &[u8], out: &mut Vec<u8>)
    ensures
        final(out)@ == old(out)@ + wire_blob(data@),
        data@.len() <= u64::MAX,
{
    push_le(out, data.len() as u64, 8);
    append_bytes(out, data);
}

/// Reads a byte string with its length in front at `pos`.
pub fn read_blob(bytes: &[u8], pos: usize) -> (found: Option<(Vec<u8>, usize)>)
    requires
        pos <= bytes@.len(),
    ensures
        match found {
            Some((data, next)) => {
                &&& pos <= next <= bytes@.len()
                &&& parse_blob(bytes@.skip(pos as int)) == Some((data@, (next - pos) as nat))
            },
            None => parse_blob(bytes@.skip(pos as int)) is None,
        },
{
    let len = match read_uint(bytes, pos, 8) {
        Some(len) => len,
        None => {
            return None;
        },
    };
    let start: usize = pos + 8;
    if ((bytes.len() - start) as u64) < len {
        return None;
    }
    let end: usize = start + len as usize;
    let mut data: Vec<u8> = Vec::new();
    append_bytes(&mut data, &bytes[start..end]);
    Some((data, end))
}

impl Wire for Vec<u8> {
    type Model = Seq<u8>;

    open spec fn model(&self) -> Seq<u8> {
        self@
    }

    open spec fn fits(m: Seq<u8>) -> bool {
        m.len() <= u64::MAX
    }

    open spec fn wire(m: Seq<u8>) -> Seq<u8> {
        wire_blob(m)
    }

    open spec fn parse(bytes: Seq<u8>) -> Option<(Seq<u8>, nat)> {
        parse_blob(bytes)
    }

    proof fn lemma_parse_wire(m: Seq<u8>, rest: Seq<u8>) {
        lemma_parse_blob_wire(m, rest);
    }

    proof fn lemma_wire_parse(bytes: Seq<u8>) {
        lemma_parse_blob_sound(bytes);
    }

    fn write(&self, out: &mut Vec<u8>) {
        write_blob(self.as_slice(), out);
    }

    fn read(bytes: &[u8], pos: usize) -> (found: Option<(Self, usize)>) {
        read_blob(bytes, pos)
    }
}

/// Calls `String::from_utf8`. Trusted: it succeeds exactly on valid UTF-8
/// and then gives the text that the bytes encode.
#[verifier::external_body]
fn string_from_utf8(bytes: Vec<u8>) -> (text: Option<String>)
    ensures
        match text {
            Some(s) => valid_utf8(bytes@) && s@ == decode_utf8(bytes@),
            None => !valid_utf8(bytes@),
        },
{
    String::from_utf8(bytes).ok()
}

/// A text: the length of its UTF-8 form, then those bytes.
impl Wire for String {
    type Model = Seq<char>;

    open spec fn model(&self) -> Seq<char> {
        self@
    }

    open spec fn fits(m: Seq<char>) -> bool {
        encode_utf8(m).len() <= u64::MAX
    }

    open spec fn wire(m: Seq<char>) -> Seq<u8> {
        wire_blob(encode_utf8(m))
    }

    open spec fn parse(bytes: Seq<u8>) -> Option<(Seq<char>, nat)> {
        match parse_blob(bytes) {
            Some((data, used)) => if valid_utf8(data) {
                Some((decode_utf8(data), used))
            } else {
                None
            },
            None => None,
        }
    }

    proof fn lemma_parse_wire(m: Seq<char>, rest: Seq<u8>) {
        lemma_parse_blob_wire(encode_utf8(m), rest);
        encode_utf8_valid_utf8(m);
        encode_utf8_decode_utf8(m);
    }

    proof fn lemma_wire_parse(bytes: Seq<u8>) {
        lemma_parse_blob_sound(bytes);
        if let Some((data, used)) = parse_blob(bytes) {
            if valid_utf8(data) {
                decode_utf8_encode_utf8(data);
            }
        }
    }

    fn write(&self, out: &mut Vec<u8>) {
        write_blob(self.as_str().as_bytes(), out);
    }

    fn read(bytes: &[u8], pos: usize) -> (found: Option<(Self, usize)>) {
        match read_blob(bytes, pos) {
            Some((data, next)) => match string_from_utf8(data) {
                Some(text) => Some((text, next)),
                None => None,
            },
            None => None,
        }
    }
}

} // verus!
