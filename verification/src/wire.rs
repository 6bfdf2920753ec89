//! The wire format that envelopes are written in, which is that of
//! Protocol Buffers: a sequence of fields, each a key (field number and
//! wire type) followed by a value whose extent the wire type determines.

use vstd::prelude::*;

verus! {

/// How the value of a field is laid out.
#[derive(Clone, Copy, Debug, PartialEq, Eq, Structural)]
pub enum WireType {
    Varint,
    SixtyFourBit,
    LengthDelimited,
    StartGroup,
    EndGroup,
    ThirtyTwoBit,
}

/// How deep groups may nest before a message is refused.
pub const RECURSION_LIMIT: u32 = 100;

/// The base-128 number that starts at `at`, least significant digit first,
/// with the position after it. The digit of a byte is its low seven bits;
/// the last byte of the number is the first one whose high bit is clear.
pub open spec fn varint(bytes: Seq<u8>, at: int) -> Option<(int, int)>
    decreases bytes.len() - at,
{
    if at < 0 || at >= bytes.len() {
        None
    } else if bytes[at] < 0x80 {
        Some((bytes[at] as int, at + 1))
    } else {
        match varint(bytes, at + 1) {
            Some((high, next)) => Some((bytes[at] - 0x80 + 128 * high, next)),
            None => None,
        }
    }
}

/// A varint of at most ten bytes whose value fits in 64 bits.
pub open spec fn varint64(bytes: Seq<u8>, at: int) -> Option<(u64, int)> {
    match varint(bytes, at) {
        Some((value, next)) => if next - at <= 10 && value <= u64::MAX {
            Some((value as u64, next))
        } else {
            None
        },
        None => None,
    }
}

/// The wire type with the given number.
pub open spec fn wire_type_of(number: int) -> Option<WireType> {
    if number == 0 {
        Some(WireType::Varint)
    } else if number == 1 {
        Some(WireType::SixtyFourBit)
    } else if number == 2 {
        Some(WireType::LengthDelimited)
    } else if number == 3 {
        Some(WireType::StartGroup)
    } else if number == 4 {
        Some(WireType::EndGroup)
    } else if number == 5 {
        Some(WireType::ThirtyTwoBit)
    } else {
        None
    }
}

/// The key at `at`: a field number of at least one, a wire type, and the
/// position after the key. A key is a varint that fits in 32 bits; its low
/// three bits give the wire type, the rest the field number.
pub open spec fn field_key(bytes: Seq<u8>, at: int) -> Option<(u32, WireType, int)> {
    match varint64(bytes, at) {
        Some((key, next)) => match wire_type_of((key % 8) as int) {
            Some(wire_type) => if key <= u32::MAX && key / 8 >= 1 {
                Some(((key / 8) as u32, wire_type, next))
            } else {
                None
            },
            None => None,
        },
        None => None,
    }
}

/// The weight of the digit at place `place` of a base-128 number.
pub open spec fn weight(place: nat) -> int
    decreases place,
{
    if place == 0 {
        1
    } else {
        128 * weight((place - 1) as nat)
    }
}

/// A varint ends after its start and within the bytes, and is not negative.
pub proof fn lemma_varint_extent(bytes: Seq<u8>, at: int)
    ensures
        varint(bytes, at) matches Some((value, next)) ==> 0 <= at < next <= bytes.len() && value
            >= 0,
    decreases bytes.len() - at,
{
    if 0 <= at < bytes.len() && bytes[at] >= 0x80 {
        lemma_varint_extent(bytes, at + 1);
    }
}

/// A varint of `n` bytes is below the weight of place `n`.
pub proof fn lemma_varint_bound(bytes: Seq<u8>, at: int)
    ensures
        varint(bytes, at) matches Some((value, next)) ==> value < weight((next - at) as nat),
    decreases bytes.len() - at,
{
    if 0 <= at < bytes.len() {
        if bytes[at] >= 0x80 {
            lemma_varint_bound(bytes, at + 1);
            lemma_varint_extent(bytes, at + 1);
            if let Some((high, next)) = varint(bytes, at + 1) {
                assert(weight((next - at) as nat) == 128 * weight((next - at - 1) as nat));
            }
        } else {
            assert(weight(1) == 128 * weight(0));
        }
    }
}

/// Reads the varint at `at`.
pub fn read_varint(bytes: &[u8], at: usize) -> (read: Option<(u64, usize)>)
    ensures
        match read {
            Some((value, next)) => varint64(bytes@, at as int) == Some((value, next as int)),
            None => varint64(bytes@, at as int) is None,
        },
{
    if at > bytes.len() {
        return None;
    }
    let mut value: u64 = 0;
    let mut unit: u64 = 1;
    let mut place: usize = 0;
    proof {
        reveal_with_fuel(weight, 11);
    }
    while place < 10
        invariant
            place <= 10,
            at + place <= bytes.len(),
            place < 10 ==> unit == weight(place as nat),
            place < 10 ==> value < unit,
            place == 10 ==> varint64(bytes@, at as int) is None,
            place < 10 ==> (match varint(bytes@, at + place) {
                Some((high, next)) => varint(bytes@, at as int) == Some(
                    (value + unit * high, next),
                ),
                None => varint(bytes@, at as int) is None,
            }),
        decreases 10 - place,
    {
        if at + place >= bytes.len() {
            return None;
        }
        let byte: u8 = bytes[at + place];
        proof {
            reveal_with_fuel(weight, 11);
            lemma_varint_extent(bytes@, at + place + 1);
            lemma_varint_bound(bytes@, at + place + 1);
        }
        if byte < 0x80 {
            if place == 9 && byte >= 2 {
                assert(value + unit * byte > u64::MAX) by (nonlinear_arith)
                    requires
                        unit == 0x8000_0000_0000_0000u64,
                        byte >= 2,
                        value >= 0,
                ;
                return None;
            }
            assert(value + unit * byte <= u64::MAX) by (nonlinear_arith)
                requires
                    value < unit,
                    (unit <= 0x0100_0000_0000_0000u64 && byte < 128) || (unit
                        == 0x8000_0000_0000_0000u64 && byte <= 1),
            ;
            assert(unit * byte <= u64::MAX) by (nonlinear_arith)
                requires
                    value + unit * byte <= u64::MAX,
                    value >= 0,
            ;
            return Some((value + unit * (byte as u64), at + place + 1));
        }
        let digit: u64 = (byte - 0x80) as u64;
        if place == 9 {
            proof {
                if let Some((high, next)) = varint(bytes@, at + place + 1) {
                    assert(next - at > 10);
                }
            }
            place = 10;
        } else {
            assert(unit * digit + value < unit * 128 && unit * 128 <= 0x8000_0000_0000_0000u64
                && unit * digit >= 0) by (nonlinear_arith)
                requires
                    value < unit,
                    0 <= digit < 128,
                    0 < unit <= 0x0100_0000_0000_0000u64,
            ;
            proof {
                if let Some((high, next)) = varint(bytes@, at + place + 1) {
                    assert(value + unit * (digit + 128 * high) == (value + unit * digit) + (unit
                        * 128) * high) by (nonlinear_arith);
                }
            }
            value = value + unit * digit;
            unit = unit * 128;
            place = place + 1;
        }
    }
    None
}

/// Reads the key at `at`.
pub fn read_key(bytes: &[u8], at: usize) -> (read: Option<(u32, WireType, usize)>)
    ensures
        match read {
            Some((number, wire_type, next)) => field_key(bytes@, at as int) == Some(
                (number, wire_type, next as int),
            ),
            None => field_key(bytes@, at as int) is None,
        },
{
    let (key, next) = match read_varint(bytes, at) {
        Some(read) => read,
        None => {
            return None;
        },
    };
    if key > 0xffff_ffff {
        return None;
    }
    let kind: u64 = key % 8;
    let wire_type = if kind == 0 {
        WireType::Varint
    } else if kind == 1 {
        WireType::SixtyFourBit
    } else if kind == 2 {
        WireType::LengthDelimited
    } else if kind == 3 {
        WireType::StartGroup
    } else if kind == 4 {
        WireType::EndGroup
    } else if kind == 5 {
        WireType::ThirtyTwoBit
    } else {
        return None;
    };
    let number: u64 = key / 8;
    if number < 1 {
        return None;
    }
    Some((number as u32, wire_type, next))
}

/// The extent of a length-delimited value at `at`: where its content
/// starts and where it ends. The length comes first, as a varint, and the
/// content must lie within the bytes.
pub open spec fn delimited(bytes: Seq<u8>, at: int) -> Option<(int, int)> {
    match varint64(bytes, at) {
        Some((length, start)) => if length <= bytes.len() - start {
            Some((start, start + length))
        } else {
            None
        },
        None => None,
    }
}

/// Reads the extent of the length-delimited value at `at`.
pub fn read_delimited(bytes: &[u8], at: usize) -> (read: Option<(usize, usize)>)
    ensures
        match read {
            Some((start, end)) => delimited(bytes@, at as int) == Some((start as int, end as int))
                && at < start <= end <= bytes.len(),
            None => delimited(bytes@, at as int) is None,
        },
{
    proof {
        lemma_varint_extent(bytes@, at as int);
    }
    let (length, start) = match read_varint(bytes, at) {
        Some(read) => read,
        None => {
            return None;
        },
    };
    if length > (bytes.len() - start) as u64 {
        return None;
    }
    Some((start, start + length as usize))
}

/// Where the value of an unread field ends, if it is well formed. The
/// value starts at `at`, belongs to field `number`, and may hold groups
/// nested `depth - 1` deep at most.
pub open spec fn skipped(
    bytes: Seq<u8>,
    at: int,
    wire_type: WireType,
    number: u32,
    depth: nat,
) -> Option<int>
    decreases depth, bytes.len() - at, 1nat,
{
    if depth == 0 {
        None
    } else {
        match wire_type {
            WireType::Varint => match varint64(bytes, at) {
                Some((_, next)) => Some(next),
                None => None,
            },
            WireType::SixtyFourBit => if 0 <= at && at + 8 <= bytes.len() {
                Some(at + 8)
            } else {
                None
            },
            WireType::ThirtyTwoBit => if 0 <= at && at + 4 <= bytes.len() {
                Some(at + 4)
            } else {
                None
            },
            WireType::LengthDelimited => match delimited(bytes, at) {
                Some((_, end)) => Some(end),
                None => None,
            },
            WireType::StartGroup => group_end(bytes, at, number, depth),
            WireType::EndGroup => None,
        }
    }
}

/// Where the group of field `number` ends whose fields start at `at`:
/// after the end-group key with the same number that follows its fields.
pub open spec fn group_end(bytes: Seq<u8>, at: int, number: u32, depth: nat) -> Option<int>
    decreases depth, bytes.len() - at, 0nat,
{
    match field_key(bytes, at) {
        Some((inner, wire_type, next)) => if wire_type == WireType::EndGroup {
            if inner == number {
                Some(next)
            } else {
                None
            }
        } else if depth == 0 {
            None
        } else {
            match skipped(bytes, next, wire_type, inner, (depth - 1) as nat) {
                Some(after) => if at < after <= bytes.len() {
                    group_end(bytes, after, number, depth)
                } else {
                    None
                },
                None => None,
            }
        },
        None => None,
    }
}

/// A key ends after its start and within the bytes.
pub proof fn lemma_key_extent(bytes: Seq<u8>, at: int)
    ensures
        field_key(bytes, at) matches Some((_, _, next)) ==> 0 <= at < next <= bytes.len(),
{
    lemma_varint_extent(bytes, at);
}

/// Passes over the value at `at` of an unread field.
pub fn skip_field(bytes: &[u8], at: usize, wire_type: WireType, number: u32, depth: u32) -> (end:
    Option<usize>)
    ensures
        match end {
            Some(next) => skipped(bytes@, at as int, wire_type, number, depth as nat) == Some(
                next as int,
            ) && at <= next <= bytes.len(),
            None => skipped(bytes@, at as int, wire_type, number, depth as nat) is None,
        },
    decreases depth, bytes.len() - at, 1nat,
{
    proof {
        lemma_varint_extent(bytes@, at as int);
    }
    if depth == 0 || at > bytes.len() {
        return None;
    }
    match wire_type {
        WireType::Varint => match read_varint(bytes, at) {
            Some((_, next)) => Some(next),
            None => None,
        },
        WireType::SixtyFourBit => if bytes.len() - at >= 8 {
            Some(at + 8)
        } else {
            None
        },
        WireType::ThirtyTwoBit => if bytes.len() - at >= 4 {
            Some(at + 4)
        } else {
            None
        },
        WireType::LengthDelimited => match read_delimited(bytes, at) {
            Some((_, end)) => Some(end),
            None => None,
        },
        WireType::StartGroup => skip_group(bytes, at, number, depth),
        WireType::EndGroup => None,
    }
}

/// Passes over the fields of a group up to and including its end key.
pub fn skip_group(bytes: &[u8], at: usize, number: u32, depth: u32) -> (end: Option<usize>)
    ensures
        match end {
            Some(next) => group_end(bytes@, at as int, number, depth as nat) == Some(next as int)
                && at < next <= bytes.len(),
            None => group_end(bytes@, at as int, number, depth as nat) is None,
        },
    decreases depth, bytes.len() - at, 0nat,
{
    proof {
        lemma_key_extent(bytes@, at as int);
    }
    let (inner, wire_type, next) = match read_key(bytes, at) {
        Some(read) => read,
        None => {
            return None;
        },
    };
    match wire_type {
        WireType::EndGroup => {
            return if inner == number {
                Some(next)
            } else {
                None
            };
        },
        _ => {},
    }
    if depth == 0 {
        return None;
    }
    match skip_field(bytes, next, wire_type, inner, depth - 1) {
        Some(after) => skip_group(bytes, after, number, depth),
        None => None,
    }
}

} // verus!
