//! The wire format, as a mathematical model: what reading one value of each
//! field type does to a cursor, and which bytes stand for a value.
//!
//! A read either yields a value or fails, and in both cases says what is left
//! of the input. A read that fails is not undone.

use crate::value::{Datum, FieldType};
use vstd::prelude::*;
use vstd::utf8::{decode_utf8, encode_utf8, valid_utf8};

verus! {

/// The number that a sequence of bytes stands for, least significant byte
/// first.
pub open spec fn le_value(bytes: Seq<u8>) -> nat
    decreases bytes.len(),
{
    if bytes.len() == 0 {
        0
    } else {
        bytes[0] as nat + 256 * le_value(bytes.drop_first())
    }
}

/// The `width` bytes that stand for `v`, least significant byte first.
pub open spec fn le_bytes(v: nat, width: nat) -> Seq<u8>
    decreases width,
{
    if width == 0 {
        Seq::empty()
    } else {
        seq![(v % 256) as u8] + le_bytes(v / 256, (width - 1) as nat)
    }
}

/// Reading one byte.
pub open spec fn read_u8(input: Seq<u8>) -> (Option<u8>, Seq<u8>) {
    if input.len() >= 1 {
        (Some(input[0]), input.skip(1))
    } else {
        (None, Seq::empty())
    }
}

/// Reading a 16-bit number: two bytes, or failure with nothing left.
pub open spec fn read_u16(input: Seq<u8>) -> (Option<u16>, Seq<u8>) {
    if input.len() >= 2 {
        (Some(le_value(input.take(2)) as u16), input.skip(2))
    } else {
        (None, Seq::empty())
    }
}

/// Reading a 32-bit number: four bytes, or failure with nothing left.
pub open spec fn read_u32(input: Seq<u8>) -> (Option<u32>, Seq<u8>) {
    if input.len() >= 4 {
        (Some(le_value(input.take(4)) as u32), input.skip(4))
    } else {
        (None, Seq::empty())
    }
}

/// Reading a 64-bit number: eight bytes, or failure with nothing left.
pub open spec fn read_u64(input: Seq<u8>) -> (Option<u64>, Seq<u8>) {
    if input.len() >= 8 {
        (Some(le_value(input.take(8)) as u64), input.skip(8))
    } else {
        (None, Seq::empty())
    }
}

/// Reading a truth value: one byte, which must be 0 or 1. Any other byte is
/// consumed and the read fails.
pub open spec fn read_bool(input: Seq<u8>) -> (Option<bool>, Seq<u8>) {
    if input.len() == 0 {
        (None, Seq::empty())
    } else if input[0] == 0 {
        (Some(false), input.skip(1))
    } else if input[0] == 1 {
        (Some(true), input.skip(1))
    } else {
        (None, input.skip(1))
    }
}

/// Reading a text: a 32-bit byte count, then that many bytes of UTF-8. Where
/// the count or the bytes are cut short, the read fails with nothing left;
/// where the bytes are all there but are not UTF-8, they are consumed and the
/// read fails.
pub open spec fn read_text(input: Seq<u8>) -> (Option<Seq<char>>, Seq<u8>) {
    if input.len() < 4 {
        (None, Seq::empty())
    } else {
        let count = le_value(input.take(4));
        let body = input.skip(4);
        if body.len() < count {
            (None, Seq::empty())
        } else if valid_utf8(body.take(count as int)) {
            (Some(decode_utf8(body.take(count as int))), body.skip(count as int))
        } else {
            (None, body.skip(count as int))
        }
    }
}

/// Reading an optional 32-bit number: a flag byte, 0 for absent and 1 for
/// present, and after a 1 the number. Any other flag is consumed and the read
/// fails.
pub open spec fn read_opt_u32(input: Seq<u8>) -> (Option<Option<u32>>, Seq<u8>) {
    if input.len() == 0 {
        (None, Seq::empty())
    } else if input[0] == 0 {
        (Some(None), input.skip(1))
    } else if input[0] == 1 {
        let inner = read_u32(input.skip(1));
        match inner.0 {
            Some(n) => (Some(Some(n)), inner.1),
            None => (None, inner.1),
        }
    } else {
        (None, input.skip(1))
    }
}

/// What one read left behind: the value, where there is one, and the rest of
/// the input.
pub struct Parsed {
    pub value: Option<Datum>,
    pub rest: Seq<u8>,
}

/// Reading one value of type `ty` from `input`.
pub open spec fn parse(ty: FieldType, input: Seq<u8>) -> Parsed {
    match ty {
        FieldType::Bool => {
            let r = read_bool(input);
            Parsed {
                value: match r.0 {
                    Some(b) => Some(Datum::Bool(b)),
                    None => None,
                },
                rest: r.1,
            }
        },
        FieldType::U8 => {
            let r = read_u8(input);
            Parsed {
                value: match r.0 {
                    Some(n) => Some(Datum::U8(n)),
                    None => None,
                },
                rest: r.1,
            }
        },
        FieldType::U16 => {
            let r = read_u16(input);
            Parsed {
                value: match r.0 {
                    Some(n) => Some(Datum::U16(n)),
                    None => None,
                },
                rest: r.1,
            }
        },
        FieldType::U32 => {
            let r = read_u32(input);
            Parsed {
                value: match r.0 {
                    Some(n) => Some(Datum::U32(n)),
                    None => None,
                },
                rest: r.1,
            }
        },
        FieldType::U64 => {
            let r = read_u64(input);
            Parsed {
                value: match r.0 {
                    Some(n) => Some(Datum::U64(n)),
                    None => None,
                },
                rest: r.1,
            }
        },
        FieldType::Str => {
            let r = read_text(input);
            Parsed {
                value: match r.0 {
                    Some(s) => Some(Datum::Str(s)),
                    None => None,
                },
                rest: r.1,
            }
        },
        FieldType::OptU32 => {
            let r = read_opt_u32(input);
            Parsed {
                value: match r.0 {
                    Some(o) => Some(Datum::OptU32(o)),
                    None => None,
                },
                rest: r.1,
            }
        },
    }
}

/// The bytes that stand for a value on the wire.
pub open spec fn encoding(d: Datum) -> Seq<u8> {
    match d {
        Datum::Bool(b) => seq![if b { 1u8 } else { 0u8 }],
        Datum::U8(n) => seq![n],
        Datum::U16(n) => le_bytes(n as nat, 2),
        Datum::U32(n) => le_bytes(n as nat, 4),
        Datum::U64(n) => le_bytes(n as nat, 8),
        Datum::Str(s) => le_bytes(encode_utf8(s).len(), 4) + encode_utf8(s),
        Datum::OptU32(None) => seq![0u8],
        Datum::OptU32(Some(n)) => seq![1u8] + le_bytes(n as nat, 4),
    }
}

/// Whether a value can be written at all: a text must be short enough for
/// its byte count to fit in 32 bits.
pub open spec fn encodable(d: Datum) -> bool {
    match d {
        Datum::Str(s) => encode_utf8(s).len() <= u32::MAX,
        _ => true,
    }
}

/// Whether `v` can be written in `width` bytes.
pub open spec fn fits(v: nat, width: nat) -> bool
    decreases width,
{
    if width == 0 {
        v == 0
    } else {
        fits(v / 256, (width - 1) as nat)
    }
}

/// A number written in `width` bytes takes `width` bytes.
pub proof fn lemma_le_bytes_len(v: nat, width: nat)
    ensures
        le_bytes(v, width).len() == width,
    decreases width,
{
    if width > 0 {
        lemma_le_bytes_len(v / 256, (width - 1) as nat);
    }
}

/// A number that fits in `width` bytes is read back from them unchanged.
pub proof fn lemma_le_value_of_le_bytes(v: nat, width: nat)
    requires
        fits(v, width),
    ensures
        le_value(le_bytes(v, width)) == v,
    decreases width,
{
    if width > 0 {
        let tail = le_bytes(v / 256, (width - 1) as nat);
        let bytes = le_bytes(v, width);
        lemma_le_value_of_le_bytes(v / 256, (width - 1) as nat);
        assert(bytes.drop_first() =~= tail);
        assert(bytes[0] as nat == v % 256);
        assert(v == v % 256 + 256 * (v / 256)) by (nonlinear_arith);
    }
}

/// On empty input every read fails and leaves the input empty.
pub proof fn lemma_parse_nothing(ty: FieldType)
    ensures
        parse(ty, Seq::empty()) == (Parsed { value: None, rest: Seq::empty() }),
{
}

/// Reading a value back: the bytes that stand for `d`, followed by anything,
/// read as `d` and leave exactly what followed.
pub proof fn lemma_parse_encoding(d: Datum, extra: Seq<u8>)
    requires
        encodable(d),
    ensures
        parse(d.kind(), encoding(d) + extra) == (Parsed { value: Some(d), rest: extra }),
{
    let input = encoding(d) + extra;
    match d {
        Datum::Bool(b) => {
            assert(input.skip(1) =~= extra);
        },
        Datum::U8(n) => {
            assert(input.skip(1) =~= extra);
        },
        Datum::U16(n) => {
            lemma_number_read_back(n as nat, 2, extra);
        },
        Datum::U32(n) => {
            lemma_number_read_back(n as nat, 4, extra);
        },
        Datum::U64(n) => {
            lemma_number_read_back(n as nat, 8, extra);
        },
        Datum::Str(s) => {
            let body = encode_utf8(s);
            lemma_number_read_back(body.len(), 4, body + extra);
            assert(input =~= le_bytes(body.len(), 4) + (body + extra));
            assert((body + extra).take(body.len() as int) =~= body);
            assert((body + extra).skip(body.len() as int) =~= extra);
            vstd::utf8::encode_utf8_valid_utf8(s);
            vstd::utf8::encode_utf8_decode_utf8(s);
        },
        Datum::OptU32(None) => {
            assert(input.skip(1) =~= extra);
        },
        Datum::OptU32(Some(n)) => {
            lemma_number_read_back(n as nat, 4, extra);
            assert(input.skip(1) =~= le_bytes(n as nat, 4) + extra);
        },
    }
}

/// A number written in `width` bytes and followed by `extra`: the first
/// `width` bytes give the number back, and `extra` is what comes after them.
proof fn lemma_number_read_back(v: nat, width: nat, extra: Seq<u8>)
    requires
        1 <= width <= 8,
        v <= u64::MAX,
        width == 2 ==> v <= u16::MAX,
        width == 4 ==> v <= u32::MAX,
    ensures
        (le_bytes(v, width) + extra).len() >= width,
        (le_bytes(v, width) + extra).take(width as int) == le_bytes(v, width),
        (le_bytes(v, width) + extra).skip(width as int) == extra,
        width == 2 || width == 4 || width == 8 ==> le_value(le_bytes(v, width)) == v,
{
    let bytes = le_bytes(v, width);
    lemma_le_bytes_len(v, width);
    assert((bytes + extra).take(width as int) =~= bytes);
    assert((bytes + extra).skip(width as int) =~= extra);
    if width == 2 || width == 4 || width == 8 {
        reveal_with_fuel(fits, 9);
        assert(fits(v, width));
        lemma_le_value_of_le_bytes(v, width);
    }
}

/// Reading a value that was cut short: any proper prefix of the bytes that
/// stand for `d` fails to read, and nothing is left of it.
pub proof fn lemma_parse_truncated(d: Datum, k: nat)
    requires
        encodable(d),
        k < encoding(d).len(),
    ensures
        parse(d.kind(), encoding(d).take(k as int)) == (Parsed { value: None, rest: Seq::empty() }),
{
    let input = encoding(d).take(k as int);
    match d {
        Datum::Bool(b) => {},
        Datum::U8(n) => {},
        Datum::U16(n) => {
            lemma_le_bytes_len(n as nat, 2);
        },
        Datum::U32(n) => {
            lemma_le_bytes_len(n as nat, 4);
        },
        Datum::U64(n) => {
            lemma_le_bytes_len(n as nat, 8);
        },
        Datum::Str(s) => {
            let body = encode_utf8(s);
            lemma_number_read_back(body.len(), 4, body);
            if k >= 4 {
                assert(input.take(4) =~= le_bytes(body.len(), 4));
                assert(input.skip(4).len() == k - 4);
            }
        },
        Datum::OptU32(None) => {},
        Datum::OptU32(Some(n)) => {
            lemma_le_bytes_len(n as nat, 4);
            if k >= 1 {
                assert(input[0] == 1u8);
                assert(input.skip(1).len() == k - 1);
            }
        },
    }
}

} // verus!
