//! The primitive codec: the calls into Borsh, one per field type, and the
//! verified dispatch over them.
//!
//! The functions named `borsh_*` are trusted. Each makes one call of Borsh's
//! `BorshDeserialize::deserialize` on a copy of the cursor and hands back what
//! was read together with the cursor as the call left it. Their contracts
//! restate, over the model in [`crate::wire`], what Borsh's reader does on a
//! byte slice; Verus takes them as given.
//!
//! Borsh reads a slice through `std::io::Read`. A read of a fixed number of
//! bytes from a slice that is shorter fails and leaves the slice empty, and
//! so does the read of a text's body; this is why a value that was cut
//! short leaves nothing behind, while a value that is all there but
//! malformed leaves what follows it.

use crate::value::{FieldType, Value};
use crate::wire::{
    parse, read_bool, read_opt_u32, read_text, read_u16, read_u32, read_u64, read_u8,
};
use vstd::prelude::*;

verus! {

/// Borsh's `deserialize` for `bool`. Trusted: one byte is taken where there
/// is one; 0 reads as `false`, 1 as `true`, anything else fails; on empty
/// input the read fails.
#[verifier::external_body]
fn borsh_bool<'a>(input: &'a [u8]) -> (out: (Option<bool>, &'a [u8]))
    ensures
        out.0 == read_bool(input@).0,
        out.1@ == read_bool(input@).1,
{
    let mut rest: &[u8] = input;
    let value = <bool as borsh::BorshDeserialize>::deserialize(&mut rest).ok();
    (value, rest)
}

/// Borsh's `deserialize` for `u8`. Trusted: the first byte is the value; on
/// empty input the read fails.
#[verifier::external_body]
fn borsh_u8<'a>(input: &'a [u8]) -> (out: (Option<u8>, &'a [u8]))
    ensures
        out.0 == read_u8(input@).0,
        out.1@ == read_u8(input@).1,
{
    let mut rest: &[u8] = input;
    let value = <u8 as borsh::BorshDeserialize>::deserialize(&mut rest).ok();
    (value, rest)
}

/// Borsh's `deserialize` for `u16`. Trusted: the first two bytes are the
/// value, least significant first; with fewer than two the read fails and
/// leaves the cursor empty.
#[verifier::external_body]
fn borsh_u16<'a>(input: &'a [u8]) -> (out: (Option<u16>, &'a [u8]))
    ensures
        out.0 == read_u16(input@).0,
        out.1@ == read_u16(input@).1,
{
    let mut rest: &[u8] = input;
    let value = <u16 as borsh::BorshDeserialize>::deserialize(&mut rest).ok();
    (value, rest)
}

/// Borsh's `deserialize` for `u32`. Trusted: the first four bytes are the
/// value, least significant first; with fewer than four the read fails and
/// leaves the cursor empty.
#[verifier::external_body]
fn borsh_u32<'a>(input: &'a [u8]) -> (out: (Option<u32>, &'a [u8]))
    ensures
        out.0 == read_u32(input@).0,
        out.1@ == read_u32(input@).1,
{
    let mut rest: &[u8] = input;
    let value = <u32 as borsh::BorshDeserialize>::deserialize(&mut rest).ok();
    (value, rest)
}

/// Borsh's `deserialize` for `u64`. Trusted: the first eight bytes are the
/// value, least significant first; with fewer than eight the read fails and
/// leaves the cursor empty.
#[verifier::external_body]
fn borsh_u64<'a>(input: &'a [u8]) -> (out: (Option<u64>, &'a [u8]))
    ensures
        out.0 == read_u64(input@).0,
        out.1@ == read_u64(input@).1,
{
    let mut rest: &[u8] = input;
    let value = <u64 as borsh::BorshDeserialize>::deserialize(&mut rest).ok();
    (value, rest)
}

/// Borsh's `deserialize` for `String`. Trusted: a 32-bit byte count is read,
/// then that many bytes, which must be UTF-8. A count or a body cut short
/// fails and leaves the cursor empty; a body that is not UTF-8 fails after
/// it was consumed.
#[verifier::external_body]
fn borsh_string<'a>(input: &'a [u8]) -> (out: (Option<String>, &'a [u8]))
    ensures
        match out.0 {
            Some(s) => read_text(input@).0 == Some(s@),
            None => read_text(input@).0 is None,
        },
        out.1@ == read_text(input@).1,
{
    let mut rest: &[u8] = input;
    let value = <String as borsh::BorshDeserialize>::deserialize(&mut rest).ok();
    (value, rest)
}

/// Borsh's `deserialize` for `Option<u32>`. Trusted: a flag byte is read; 0
/// gives the absent value, 1 is followed by a `u32`, anything else fails
/// after the flag was consumed.
#[verifier::external_body]
fn borsh_opt_u32<'a>(input: &'a [u8]) -> (out: (Option<Option<u32>>, &'a [u8]))
    ensures
        out.0 == read_opt_u32(input@).0,
        out.1@ == read_opt_u32(input@).1,
{
    let mut rest: &[u8] = input;
    let value = <Option<u32> as borsh::BorshDeserialize>::deserialize(&mut rest).ok();
    (value, rest)
}

/// Reads one value of type `ty` from the front of `input` with the primitive
/// codec. Returns the value, or `None` where the read failed, and what the
/// read left of the input. Nothing is rolled back after a failure.
pub fn read_primitive<'a>(ty: FieldType, input: &'a [u8]) -> (out: (Option<Value>, &'a [u8]))
    ensures
        out.1@ == parse(ty, input@).rest,
        match out.0 {
            Some(v) => parse(ty, input@).value == Some(v@),
            None => parse(ty, input@).value is None,
        },
{
    match ty {
        FieldType::Bool => {
            let (read, rest) = borsh_bool(input);
            (
                match read {
                    Some(b) => Some(Value::Bool(b)),
                    None => None,
                },
                rest,
            )
        },
        FieldType::U8 => {
            let (read, rest) = borsh_u8(input);
            (
                match read {
                    Some(n) => Some(Value::U8(n)),
                    None => None,
                },
                rest,
            )
        },
        FieldType::U16 => {
            let (read, rest) = borsh_u16(input);
            (
                match read {
                    Some(n) => Some(Value::U16(n)),
                    None => None,
                },
                rest,
            )
        },
        FieldType::U32 => {
            let (read, rest) = borsh_u32(input);
            (
                match read {
                    Some(n) => Some(Value::U32(n)),
                    None => None,
                },
                rest,
            )
        },
        FieldType::U64 => {
            let (read, rest) = borsh_u64(input);
            (
                match read {
                    Some(n) => Some(Value::U64(n)),
                    None => None,
                },
                rest,
            )
        },
        FieldType::Str => {
            let (read, rest) = borsh_string(input);
            (
                match read {
                    Some(s) => Some(Value::Str(s)),
                    None => None,
                },
                rest,
            )
        },
        FieldType::OptU32 => {
            let (read, rest) = borsh_opt_u32(input);
            (
                match read {
                    Some(o) => Some(Value::OptU32(o)),
                    None => None,
                },
                rest,
            )
        },
    }
}

} // verus!
