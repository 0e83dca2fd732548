//! The binary encoding of the values that cross the boundary, as the
//! `borsh` crate writes and reads them.

use vstd::bytes::{lemma_auto_spec_u32_to_from_le_bytes, spec_u32_from_le_bytes, spec_u32_to_le_bytes};
use vstd::prelude::*;
use vstd::utf8::{
    decode_utf8, encode_utf8, encode_utf8_decode_utf8, encode_utf8_valid_utf8, valid_utf8,
};

verus! {

/// A value that crosses the boundary as bytes.
pub trait Codec: Sized + View {
    /// The bytes that stand for a value, or `None` for a value that has no
    /// encoding.
    spec fn encoding(v: Self::V) -> Option<Seq<u8>>;

    /// The value read from the front of `bytes` (bytes past it are ignored),
    /// or `None` where they hold no such value.
    spec fn decoding(bytes: Seq<u8>) -> Option<Self::V>;

    /// Decoding an encoding gives back the value.
    proof fn lemma_decode_encode(v: Self::V)
        ensures
            Self::encoding(v) matches Some(b) ==> Self::decoding(b) == Some(v),
    ;

    fn encode(&self) -> (r: Option<Vec<u8>>)
        ensures
            r matches Some(b) ==> Self::encoding(self@) == Some(b@),
            r is None ==> Self::encoding(self@) is None,
    ;

    fn decode(bytes: &[u8]) -> (r: Option<Self>)
        ensures
            r matches Some(v) ==> Self::decoding(bytes@) == Some(v@),
            r is None ==> Self::decoding(bytes@) is None,
    ;
}

/// A boolean's single byte.
pub open spec fn bool_encoding(b: bool) -> Seq<u8> {
    seq![if b { 1u8 } else { 0u8 }]
}

/// The boolean that the first byte of `bytes` holds, if it is 0 or 1.
pub open spec fn bool_decoding(bytes: Seq<u8>) -> Option<bool> {
    if bytes.len() >= 1 && bytes[0] <= 1 {
        Some(bytes[0] == 1)
    } else {
        None
    }
}

/// A string's encoding: its UTF-8 length as four little-endian bytes, then
/// its UTF-8 bytes; none for a string longer than `u32::MAX` bytes.
pub open spec fn string_encoding(s: Seq<char>) -> Option<Seq<u8>> {
    let b = encode_utf8(s);
    if b.len() <= u32::MAX {
        Some(spec_u32_to_le_bytes(b.len() as u32) + b)
    } else {
        None
    }
}

/// The string at the front of `bytes`: a four-byte little-endian length,
/// then that many bytes of valid UTF-8.
pub open spec fn string_decoding(bytes: Seq<u8>) -> Option<Seq<char>> {
    if bytes.len() >= 4 {
        let n = spec_u32_from_le_bytes(bytes.subrange(0, 4));
        if bytes.len() >= 4 + n && valid_utf8(bytes.subrange(4, 4 + n)) {
            Some(decode_utf8(bytes.subrange(4, 4 + n)))
        } else {
            None
        }
    } else {
        None
    }
}

/// Relies on `borsh::to_vec` for `bool`: one byte, 1 for true and 0 for
/// false, written to a `Vec`, which cannot fail.
#[verifier::external_body]
fn borsh_bool_to_vec(b: bool) -> (r: Option<Vec<u8>>)
    ensures
        r is Some,
        r matches Some(v) ==> v@ == bool_encoding(b),
{
    borsh::to_vec(&b).ok()
}

/// Relies on `<bool as borsh::BorshDeserialize>::deserialize`: reads one
/// byte and accepts 0 and 1 only.
#[verifier::external_body]
fn borsh_bool_from_slice(bytes: &[u8]) -> (r: Option<bool>)
    ensures
        r == bool_decoding(bytes@),
{
    let mut rest = bytes;
    <bool as borsh::BorshDeserialize>::deserialize(&mut rest).ok()
}

/// Relies on `borsh::to_vec` for `String`: the length as a little-endian
/// `u32`, then the UTF-8 bytes; a length beyond `u32::MAX` is an error.
#[verifier::external_body]
fn borsh_string_to_vec(s: &String) -> (r: Option<Vec<u8>>)
    ensures
        r matches Some(v) ==> string_encoding(s@) == Some(v@),
        r is None ==> string_encoding(s@) is None,
{
    borsh::to_vec(s).ok()
}

/// Relies on `<String as borsh::BorshDeserialize>::deserialize`: a
/// little-endian `u32` length, then that many bytes, which must be UTF-8.
#[verifier::external_body]
fn borsh_string_from_slice(bytes: &[u8]) -> (r: Option<String>)
    ensures
        r matches Some(s) ==> string_decoding(bytes@) == Some(s@),
        r is None ==> string_decoding(bytes@) is None,
{
    let mut rest = bytes;
    <String as borsh::BorshDeserialize>::deserialize(&mut rest).ok()
}

impl Codec for bool {
    open spec fn encoding(v: bool) -> Option<Seq<u8>> {
        Some(bool_encoding(v))
    }

    open spec fn decoding(bytes: Seq<u8>) -> Option<bool> {
        bool_decoding(bytes)
    }

    proof fn lemma_decode_encode(v: bool) {
    }

    fn encode(&self) -> (r: Option<Vec<u8>>) {
        borsh_bool_to_vec(*self)
    }

    fn decode(bytes: &[u8]) -> (r: Option<bool>) {
        borsh_bool_from_slice(bytes)
    }
}

impl Codec for String {
    open spec fn encoding(v: Seq<char>) -> Option<Seq<u8>> {
        string_encoding(v)
    }

    open spec fn decoding(bytes: Seq<u8>) -> Option<Seq<char>> {
        string_decoding(bytes)
    }

    proof fn lemma_decode_encode(v: Seq<char>) {
        let b = encode_utf8(v);
        if b.len() <= u32::MAX {
            let e = spec_u32_to_le_bytes(b.len() as u32) + b;
            lemma_auto_spec_u32_to_from_le_bytes();
            assert(e.subrange(0, 4) =~= spec_u32_to_le_bytes(b.len() as u32));
            assert(e.subrange(4, 4 + b.len() as int) =~= b);
            encode_utf8_valid_utf8(v);
            encode_utf8_decode_utf8(v);
        }
    }

    fn encode(&self) -> (r: Option<Vec<u8>>) {
        borsh_string_to_vec(self)
    }

    fn decode(bytes: &[u8]) -> (r: Option<String>) {
        borsh_string_from_slice(bytes)
    }
}

} // verus!
