use bincode::error::DecodeError;
use bincode::error::EncodeError;
use vstd::bytes::{
    lemma_auto_spec_u16_to_from_le_bytes, lemma_auto_spec_u32_to_from_le_bytes,
    lemma_auto_spec_u64_to_from_le_bytes, spec_u16_from_le_bytes, spec_u16_to_le_bytes,
    spec_u32_from_le_bytes, spec_u32_to_le_bytes, spec_u64_from_le_bytes, spec_u64_to_le_bytes,
};
use vstd::prelude::*;

verus! {

/// `bincode::error::EncodeError`, carried as an opaque value.
#[verifier::external_type_specification]
#[verifier::external_body]
pub struct ExEncodeError(EncodeError);

/// `bincode::error::DecodeError`, carried as an opaque value.
#[verifier::external_type_specification]
#[verifier::external_body]
pub struct ExDecodeError(DecodeError);

/// The variable-length encoding of an unsigned integer: a value below 251
/// is its own single byte; a larger one is a marker byte, 251, 252 or 253,
/// followed by the value as a little-endian integer of 16, 32 or 64 bits,
/// the narrowest that holds it.
pub open spec fn varint_bytes(value: u64) -> Seq<u8> {
    if value <= 250 {
        seq![value as u8]
    } else if value <= 0xffff {
        seq![251u8] + spec_u16_to_le_bytes(value as u16)
    } else if value <= 0xffff_ffff {
        seq![252u8] + spec_u32_to_le_bytes(value as u32)
    } else {
        seq![253u8] + spec_u64_to_le_bytes(value)
    }
}

/// The integer at the front of `bytes` in the variable-length encoding, and
/// how many bytes it takes up; `None` where `bytes` is empty, begins with a
/// marker above 253, or ends before the integer does.
pub open spec fn varint_value(bytes: Seq<u8>) -> Option<(u64, nat)> {
    if bytes.len() == 0 {
        None
    } else if bytes[0] <= 250 {
        Some((bytes[0] as u64, 1nat))
    } else if bytes[0] == 251 {
        if bytes.len() >= 3 {
            Some((spec_u16_from_le_bytes(bytes.subrange(1, 3)) as u64, 3nat))
        } else {
            None
        }
    } else if bytes[0] == 252 {
        if bytes.len() >= 5 {
            Some((spec_u32_from_le_bytes(bytes.subrange(1, 5)) as u64, 5nat))
        } else {
            None
        }
    } else if bytes[0] == 253 {
        if bytes.len() >= 9 {
            Some((spec_u64_from_le_bytes(bytes.subrange(1, 9)), 9nat))
        } else {
            None
        }
    } else {
        None
    }
}

/// Decoding the encoding of `value` gives `value` back and consumes all of
/// it, whatever follows.
pub proof fn lemma_varint_round_trip(value: u64, rest: Seq<u8>)
    ensures
        varint_value(varint_bytes(value) + rest) == Some((value, varint_bytes(value).len())),
{
    lemma_auto_spec_u16_to_from_le_bytes();
    lemma_auto_spec_u32_to_from_le_bytes();
    lemma_auto_spec_u64_to_from_le_bytes();
    let bytes = varint_bytes(value) + rest;
    if value <= 250 {
    } else if value <= 0xffff {
        let tail = spec_u16_to_le_bytes(value as u16);
        assert(tail.len() == 2);
        assert(bytes.subrange(1, 3) =~= tail);
    } else if value <= 0xffff_ffff {
        let tail = spec_u32_to_le_bytes(value as u32);
        assert(tail.len() == 4);
        assert(bytes.subrange(1, 5) =~= tail);
    } else {
        let tail = spec_u64_to_le_bytes(value);
        assert(tail.len() == 8);
        assert(bytes.subrange(1, 9) =~= tail);
    }
}

/// `bincode::encode_to_vec` on a `u64` with the standard configuration
/// (little-endian, variable-length integers, no size limit): the
/// variable-length encoding of `value`. Writing into a vector does not fail.
#[verifier::external_body]
pub(crate) fn bincode_encode_u64(value: u64) -> (result: Result<Vec<u8>, EncodeError>)
    ensures
        result is Ok,
        result matches Ok(bytes) ==> bytes@ == varint_bytes(value),
{
    bincode::encode_to_vec(value, bincode::config::standard())
}

/// `bincode::decode_from_slice` for a `u64` with the standard
/// configuration: the integer at the front of `src` and the number of bytes
/// read, or an error where `src` holds no such integer. Bytes that follow
/// the integer are left alone.
#[verifier::external_body]
pub(crate) fn bincode_decode_u64(src: &[u8]) -> (result: Result<(u64, usize), DecodeError>)
    ensures
        result is Ok <==> varint_value(src@) is Some,
        result matches Ok(pair) ==> varint_value(src@) == Some((pair.0, pair.1 as nat)),
{
    bincode::decode_from_slice(src, bincode::config::standard())
}

} // verus!
