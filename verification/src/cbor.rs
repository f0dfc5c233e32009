//! The items of CBOR that the records are made of: heads, unsigned
//! integers, arrays of bytes and texts. Each item is written in its
//! shortest form; reading takes any form of a length or an integer, and
//! leaves it to the reader of a record to hold the bytes to the written
//! form.

use vstd::prelude::*;
use crate::bytes::append;

verus! {

/// Major type of an unsigned integer.
pub const MAJOR_UINT: u8 = 0;
/// Major type of a byte string.
pub const MAJOR_BYTES: u8 = 2;
/// Major type of a text string.
pub const MAJOR_TEXT: u8 = 3;
/// Major type of an array.
pub const MAJOR_ARRAY: u8 = 4;
/// Major type of a map.
pub const MAJOR_MAP: u8 = 5;
/// Initial byte of an unsigned big number.
pub const TAG_BIGNUM: u8 = 0xc2;
/// The byte that stands for an absent value.
pub const NULL: u8 = 0xf6;

/// `256` to the power `n`.
pub open spec fn pow256(n: nat) -> nat
    decreases n,
{
    if n == 0 {
        1
    } else {
        256 * pow256((n - 1) as nat)
    }
}

/// `value` in `width` bytes, most significant first.
pub open spec fn be_bytes(value: nat, width: nat) -> Seq<u8>
    decreases width,
{
    if width == 0 {
        Seq::empty()
    } else {
        be_bytes(value / 256, (width - 1) as nat).push((value % 256) as u8)
    }
}

/// The number that a big-endian byte string stands for.
pub open spec fn be_value(bytes: Seq<u8>) -> nat
    decreases bytes.len(),
{
    if bytes.len() == 0 {
        0
    } else {
        be_value(bytes.drop_last()) * 256 + bytes.last() as nat
    }
}

pub proof fn lemma_be_bytes_len(value: nat, width: nat)
    ensures
        be_bytes(value, width).len() == width,
    decreases width,
{
    if width > 0 {
        lemma_be_bytes_len(value / 256, (width - 1) as nat);
    }
}

/// Reading back what was written gives the number, where it fits.
pub proof fn lemma_be_round_trip(value: nat, width: nat)
    requires
        value < pow256(width),
    ensures
        be_value(be_bytes(value, width)) == value,
    decreases width,
{
    if width > 0 {
        let rest = be_bytes(value / 256, (width - 1) as nat);
        assert(value / 256 < pow256((width - 1) as nat));
        lemma_be_round_trip(value / 256, (width - 1) as nat);
        assert(be_bytes(value, width).drop_last() =~= rest);
    }
}

pub proof fn lemma_be_value_bound(bytes: Seq<u8>)
    ensures
        be_value(bytes) < pow256(bytes.len()),
    decreases bytes.len(),
{
    if bytes.len() > 0 {
        lemma_be_value_bound(bytes.drop_last());
    }
}

pub proof fn lemma_pow256_values()
    ensures
        pow256(0) == 1,
        pow256(1) == 0x100,
        pow256(2) == 0x1_0000,
        pow256(4) == 0x1_0000_0000,
        pow256(8) == 0x1_0000_0000_0000_0000,
        pow256(9) == 0x100_0000_0000_0000_0000,
        pow256(10) == 0x1_0000_0000_0000_0000_0000,
        pow256(11) == 0x100_0000_0000_0000_0000_0000,
        pow256(12) == 0x1_0000_0000_0000_0000_0000_0000,
        pow256(13) == 0x100_0000_0000_0000_0000_0000_0000,
        pow256(14) == 0x1_0000_0000_0000_0000_0000_0000_0000,
        pow256(15) == 0x100_0000_0000_0000_0000_0000_0000_0000,
        pow256(16) == 0x1_0000_0000_0000_0000_0000_0000_0000_0000,
{
    reveal_with_fuel(pow256, 17);
}

/// The head of an item: its major type and its argument `n`, which is a
/// value or a length, in the shortest of the five forms.
pub open spec fn head(major: u8, n: nat) -> Seq<u8> {
    if n < 24 {
        seq![(major * 32 + n) as u8]
    } else if n < 0x100 {
        seq![(major * 32 + 24) as u8] + be_bytes(n, 1)
    } else if n < 0x1_0000 {
        seq![(major * 32 + 25) as u8] + be_bytes(n, 2)
    } else if n < 0x1_0000_0000 {
        seq![(major * 32 + 26) as u8] + be_bytes(n, 4)
    } else {
        seq![(major * 32 + 27) as u8] + be_bytes(n, 8)
    }
}

/// How many bytes follow the initial byte of a head.
pub open spec fn argument_width(info: int) -> nat {
    if info < 24 {
        0
    } else if info == 24 {
        1
    } else if info == 25 {
        2
    } else if info == 26 {
        4
    } else {
        8
    }
}

/// Reads a head of the major type given, in any of the five forms:
/// its argument, and what follows it.
pub open spec fn parse_head(s: Seq<u8>, major: u8) -> Option<(nat, Seq<u8>)> {
    if s.len() == 0 || s[0] as int / 32 != major || s[0] as int % 32 > 27 || s.len() < 1
        + argument_width(s[0] as int % 32) {
        None
    } else if s[0] as int % 32 < 24 {
        Some(((s[0] as int % 32) as nat, s.skip(1)))
    } else {
        let width = argument_width(s[0] as int % 32) as int;
        Some((be_value(s.subrange(1, 1 + width)), s.skip(1 + width)))
    }
}

/// A head that was written is read back, with what followed it.
pub proof fn lemma_head_round_trip(major: u8, n: nat, tail: Seq<u8>)
    requires
        major < 8,
        n <= u64::MAX,
    ensures
        parse_head(head(major, n) + tail, major) == Some((n, tail)),
{
    lemma_pow256_values();
    let s = head(major, n) + tail;
    if n < 24 {
        assert(s.skip(1) =~= tail);
    } else {
        let width: nat = if n < 0x100 {
            1
        } else if n < 0x1_0000 {
            2
        } else if n < 0x1_0000_0000 {
            4
        } else {
            8
        };
        lemma_be_bytes_len(n, width);
        lemma_be_round_trip(n, width);
        assert(s.subrange(1, 1 + width as int) =~= be_bytes(n, width));
        assert(s.skip(1 + width as int) =~= tail);
    }
}

/// Appends `value` in `width` bytes, most significant first.
pub(crate) fn write_be(out: &mut Vec<u8>, value: u128, width: u8)
    ensures
        final(out)@ == old(out)@ + be_bytes(value as nat, width as nat),
    decreases width,
{
    if width > 0 {
        write_be(out, value / 256, width - 1);
        out.push((value % 256) as u8);
        assert(out@ =~= old(out)@ + be_bytes(value as nat, width as nat));
    } else {
        assert(out@ =~= old(out)@ + be_bytes(value as nat, width as nat));
    }
}

/// Appends the head of an item.
pub(crate) fn write_head(out: &mut Vec<u8>, major: u8, n: u64)
    requires
        major < 8,
    ensures
        final(out)@ == old(out)@ + head(major, n as nat),
{
    if n < 24 {
        out.push(major * 32 + n as u8);
        assert(out@ =~= old(out)@ + head(major, n as nat));
    } else {
        let (info, width): (u8, u8) = if n < 0x100 {
            (24, 1)
        } else if n < 0x1_0000 {
            (25, 2)
        } else if n < 0x1_0000_0000 {
            (26, 4)
        } else {
            (27, 8)
        };
        out.push(major * 32 + info);
        write_be(out, n as u128, width);
        assert(out@ =~= old(out)@ + head(major, n as nat));
    }
}

/// Reads `width` bytes at `pos` as a number, most significant first.
pub(crate) fn read_be(input: &[u8], pos: usize, width: usize) -> (value: u128)
    requires
        width <= 16,
        pos + width <= input@.len(),
    ensures
        value == be_value(input@.subrange(pos as int, pos + width)),
{
    let total: usize = input.len();
    let mut value: u128 = 0;
    let mut i: usize = 0;
    while i < width
        invariant
            i <= width <= 16,
            pos + width <= input@.len(),
            input@.len() == total,
            value == be_value(input@.subrange(pos as int, pos + i)),
        decreases width - i,
    {
        proof {
            let read = input@.subrange(pos as int, pos + i);
            let more = input@.subrange(pos as int, pos + i + 1);
            lemma_be_value_bound(read);
            lemma_be_value_bound(more);
            lemma_pow256_monotonic((i + 1) as nat, 16);
            lemma_pow256_values();
            assert(more.drop_last() =~= read);
        }
        value = value * 256 + input[pos + i] as u128;
        i += 1;
    }
    value
}

pub proof fn lemma_pow256_monotonic(a: nat, b: nat)
    requires
        a <= b,
    ensures
        pow256(a) <= pow256(b),
    decreases b,
{
    if a < b {
        lemma_pow256_monotonic(a, (b - 1) as nat);
    }
}

/// Reads a head of the major type given at `pos`: its argument, and the
/// position behind it.
pub(crate) fn read_head(input: &[u8], pos: usize, major: u8) -> (r: Option<(u64, usize)>)
    requires
        pos <= input@.len(),
        major < 8,
    ensures
        match r {
            Some((n, next)) => pos < next <= input@.len() && parse_head(
                input@.skip(pos as int),
                major,
            ) == Some((n as nat, input@.skip(next as int))),
            None => parse_head(input@.skip(pos as int), major) is None,
        },
{
    let ghost s = input@.skip(pos as int);
    if pos >= input.len() {
        return None;
    }
    let initial: u8 = input[pos];
    assert(s[0] == initial);
    let info: u8 = initial % 32;
    if initial / 32 != major || info > 27 {
        return None;
    }
    if info < 24 {
        assert(s.skip(1) =~= input@.skip(pos + 1));
        return Some((info as u64, pos + 1));
    }
    let width: usize = if info == 24 {
        1
    } else if info == 25 {
        2
    } else if info == 26 {
        4
    } else {
        8
    };
    if input.len() - pos < 1 + width {
        return None;
    }
    let value: u128 = read_be(input, pos + 1, width);
    proof {
        lemma_be_value_bound(input@.subrange(pos + 1, pos + 1 + width));
        lemma_pow256_monotonic(width as nat, 8);
        lemma_pow256_values();
        assert(s.subrange(1, 1 + width) =~= input@.subrange(pos + 1, pos + 1 + width));
        assert(s.skip(1 + width) =~= input@.skip(pos + 1 + width));
    }
    Some((value as u64, pos + 1 + width))
}

/// What follows `expected` in `s`, where `s` starts with it.
pub open spec fn expect(s: Seq<u8>, expected: Seq<u8>) -> Option<Seq<u8>> {
    if expected.is_prefix_of(s) {
        Some(s.skip(expected.len() as int))
    } else {
        None
    }
}

pub proof fn lemma_expect_round_trip(expected: Seq<u8>, tail: Seq<u8>)
    ensures
        expect(expected + tail, expected) == Some(tail),
{
    assert((expected + tail).subrange(0, expected.len() as int) =~= expected);
    assert((expected + tail).skip(expected.len() as int) =~= tail);
}

/// An unsigned integer of one byte.
pub open spec fn item_u8(value: u8) -> Seq<u8> {
    head(MAJOR_UINT, value as nat)
}

pub open spec fn parse_u8(s: Seq<u8>) -> Option<(u8, Seq<u8>)> {
    match parse_head(s, MAJOR_UINT) {
        Some((n, rest)) => if n <= 0xff {
            Some((n as u8, rest))
        } else {
            None
        },
        None => None,
    }
}

pub proof fn lemma_u8_round_trip(value: u8, tail: Seq<u8>)
    ensures
        parse_u8(item_u8(value) + tail) == Some((value, tail)),
{
    lemma_head_round_trip(MAJOR_UINT, value as nat, tail);
}

/// The least number of bytes, nine to sixteen, that hold a number
/// beyond 64 bits.
pub open spec fn bignum_width(value: u128) -> nat {
    if value < 0x100_0000_0000_0000_0000 {
        9
    } else if value < 0x1_0000_0000_0000_0000_0000 {
        10
    } else if value < 0x100_0000_0000_0000_0000_0000 {
        11
    } else if value < 0x1_0000_0000_0000_0000_0000_0000 {
        12
    } else if value < 0x100_0000_0000_0000_0000_0000_0000 {
        13
    } else if value < 0x1_0000_0000_0000_0000_0000_0000_0000 {
        14
    } else if value < 0x100_0000_0000_0000_0000_0000_0000_0000 {
        15
    } else {
        16
    }
}

/// An unsigned integer of sixteen bytes: a plain integer where it fits
/// in 64 bits, else a big number without leading zero bytes.
pub open spec fn item_u128(value: u128) -> Seq<u8> {
    if value <= u64::MAX {
        head(MAJOR_UINT, value as nat)
    } else {
        seq![TAG_BIGNUM] + (head(MAJOR_BYTES, bignum_width(value)) + be_bytes(
            value as nat,
            bignum_width(value),
        ))
    }
}

pub open spec fn parse_u128(s: Seq<u8>) -> Option<(u128, Seq<u8>)> {
    if s.len() > 0 && s[0] == TAG_BIGNUM {
        match parse_head(s.skip(1), MAJOR_BYTES) {
            Some((len, rest)) => if len <= 16 && len <= rest.len() {
                Some((be_value(rest.take(len as int)) as u128, rest.skip(len as int)))
            } else {
                None
            },
            None => None,
        }
    } else {
        match parse_head(s, MAJOR_UINT) {
            Some((n, rest)) => if n <= u64::MAX {
                Some((n as u128, rest))
            } else {
                None
            },
            None => None,
        }
    }
}

pub proof fn lemma_u128_round_trip(value: u128, tail: Seq<u8>)
    ensures
        parse_u128(item_u128(value) + tail) == Some((value, tail)),
{
    let s = item_u128(value) + tail;
    lemma_pow256_values();
    if value <= u64::MAX {
        lemma_head_round_trip(MAJOR_UINT, value as nat, tail);
        assert(s[0] == head(MAJOR_UINT, value as nat)[0]);
        assert(s[0] != TAG_BIGNUM);
    } else {
        let width = bignum_width(value);
        let digits = be_bytes(value as nat, width);
        lemma_be_bytes_len(value as nat, width);
        lemma_be_round_trip(value as nat, width);
        assert(s.skip(1) =~= head(MAJOR_BYTES, width) + (digits + tail));
        lemma_head_round_trip(MAJOR_BYTES, width, digits + tail);
        assert((digits + tail).take(width as int) =~= digits);
        assert((digits + tail).skip(width as int) =~= tail);
    }
}

/// The items of the elements of a byte array, one after another.
pub open spec fn elements(bytes: Seq<u8>) -> Seq<u8>
    decreases bytes.len(),
{
    if bytes.len() == 0 {
        Seq::empty()
    } else {
        elements(bytes.drop_last()) + item_u8(bytes.last())
    }
}

/// Reads `count` one-byte integers.
pub open spec fn parse_elements(s: Seq<u8>, count: nat) -> Option<(Seq<u8>, Seq<u8>)>
    decreases count,
{
    if count == 0 {
        Some((Seq::empty(), s))
    } else {
        match parse_elements(s, (count - 1) as nat) {
            Some((first, rest)) => match parse_u8(rest) {
                Some((last, tail)) => Some((first.push(last), tail)),
                None => None,
            },
            None => None,
        }
    }
}

pub proof fn lemma_elements_round_trip(bytes: Seq<u8>, tail: Seq<u8>)
    ensures
        parse_elements(elements(bytes) + tail, bytes.len()) == Some((bytes, tail)),
    decreases bytes.len(),
{
    if bytes.len() > 0 {
        let first = bytes.drop_last();
        let last = item_u8(bytes.last());
        assert(elements(bytes) + tail =~= elements(first) + (last + tail));
        lemma_elements_round_trip(first, last + tail);
        lemma_u8_round_trip(bytes.last(), tail);
        assert(first.push(bytes.last()) =~= bytes);
    }
}

/// Where fewer elements cannot be read, more cannot either.
pub proof fn lemma_elements_fail_early(s: Seq<u8>, fewer: nat, count: nat)
    requires
        fewer <= count,
        parse_elements(s, fewer) is None,
    ensures
        parse_elements(s, count) is None,
    decreases count,
{
    if fewer < count {
        lemma_elements_fail_early(s, fewer, (count - 1) as nat);
    }
}

/// An array of bytes: its length, and each byte as an integer.
pub open spec fn item_array(bytes: Seq<u8>) -> Seq<u8> {
    head(MAJOR_ARRAY, bytes.len()) + elements(bytes)
}

/// Reads an array of exactly `count` bytes.
pub open spec fn parse_array(s: Seq<u8>, count: nat) -> Option<(Seq<u8>, Seq<u8>)> {
    match parse_head(s, MAJOR_ARRAY) {
        Some((len, rest)) => if len == count {
            parse_elements(rest, count)
        } else {
            None
        },
        None => None,
    }
}

pub proof fn lemma_array_round_trip(bytes: Seq<u8>, tail: Seq<u8>)
    requires
        bytes.len() <= u64::MAX,
    ensures
        parse_array(item_array(bytes) + tail, bytes.len()) == Some((bytes, tail)),
{
    assert(item_array(bytes) + tail =~= head(MAJOR_ARRAY, bytes.len()) + (elements(bytes) + tail));
    lemma_head_round_trip(MAJOR_ARRAY, bytes.len(), elements(bytes) + tail);
    lemma_elements_round_trip(bytes, tail);
}

/// A text: the length of its UTF-8 bytes, and the bytes.
pub open spec fn item_text(utf8: Seq<u8>) -> Seq<u8> {
    head(MAJOR_TEXT, utf8.len()) + utf8
}

pub open spec fn parse_text(s: Seq<u8>) -> Option<(Seq<u8>, Seq<u8>)> {
    match parse_head(s, MAJOR_TEXT) {
        Some((len, rest)) => if len <= rest.len() {
            Some((rest.take(len as int), rest.skip(len as int)))
        } else {
            None
        },
        None => None,
    }
}

pub proof fn lemma_text_round_trip(utf8: Seq<u8>, tail: Seq<u8>)
    requires
        utf8.len() <= u64::MAX,
    ensures
        parse_text(item_text(utf8) + tail) == Some((utf8, tail)),
{
    assert(item_text(utf8) + tail =~= head(MAJOR_TEXT, utf8.len()) + (utf8 + tail));
    lemma_head_round_trip(MAJOR_TEXT, utf8.len(), utf8 + tail);
    assert((utf8 + tail).take(utf8.len() as int) =~= utf8);
    assert((utf8 + tail).skip(utf8.len() as int) =~= tail);
}

/// A text that may be absent.
pub open spec fn item_optional_text(utf8: Option<Seq<u8>>) -> Seq<u8> {
    match utf8 {
        Some(bytes) => item_text(bytes),
        None => seq![NULL],
    }
}

pub open spec fn parse_optional_text(s: Seq<u8>) -> Option<(Option<Seq<u8>>, Seq<u8>)> {
    if s.len() > 0 && s[0] == NULL {
        Some((None, s.skip(1)))
    } else {
        match parse_text(s) {
            Some((bytes, rest)) => Some((Some(bytes), rest)),
            None => None,
        }
    }
}

pub proof fn lemma_optional_text_round_trip(utf8: Option<Seq<u8>>, tail: Seq<u8>)
    requires
        utf8 is Some ==> utf8.unwrap().len() <= u64::MAX,
    ensures
        parse_optional_text(item_optional_text(utf8) + tail) == Some((utf8, tail)),
{
    let s = item_optional_text(utf8) + tail;
    match utf8 {
        Some(bytes) => {
            lemma_text_round_trip(bytes, tail);
            assert(s[0] == head(MAJOR_TEXT, bytes.len())[0]);
            assert(s[0] != NULL);
        },
        None => {
            assert(s.skip(1) =~= tail);
        },
    }
}

/// Appends a one-byte integer.
pub(crate) fn write_u8(out: &mut Vec<u8>, value: u8)
    ensures
        final(out)@ == old(out)@ + item_u8(value),
{
    write_head(out, MAJOR_UINT, value as u64);
}

/// Appends a sixteen-byte integer.
pub(crate) fn write_u128(out: &mut Vec<u8>, value: u128)
    ensures
        final(out)@ == old(out)@ + item_u128(value),
{
    if value <= u64::MAX as u128 {
        write_head(out, MAJOR_UINT, value as u64);
    } else {
        let width: u8 = if value < 0x100_0000_0000_0000_0000 {
            9
        } else if value < 0x1_0000_0000_0000_0000_0000 {
            10
        } else if value < 0x100_0000_0000_0000_0000_0000 {
            11
        } else if value < 0x1_0000_0000_0000_0000_0000_0000 {
            12
        } else if value < 0x100_0000_0000_0000_0000_0000_0000 {
            13
        } else if value < 0x1_0000_0000_0000_0000_0000_0000_0000 {
            14
        } else if value < 0x100_0000_0000_0000_0000_0000_0000_0000 {
            15
        } else {
            16
        };
        out.push(TAG_BIGNUM);
        write_head(out, MAJOR_BYTES, width as u64);
        write_be(out, value, width);
        assert(out@ =~= old(out)@ + item_u128(value));
    }
}

/// Appends an array of bytes.
pub(crate) fn write_array(out: &mut Vec<u8>, bytes: &[u8])
    ensures
        final(out)@ == old(out)@ + item_array(bytes@),
{
    write_head(out, MAJOR_ARRAY, bytes.len() as u64);
    let ghost start = out@;
    let mut i: usize = 0;
    while i < bytes.len()
        invariant
            i <= bytes.len(),
            out@ == start + elements(bytes@.take(i as int)),
        decreases bytes.len() - i,
    {
        let ghost before = out@;
        write_u8(out, bytes[i]);
        proof {
            assert(bytes@.take(i + 1).drop_last() =~= bytes@.take(i as int));
            assert(out@ =~= start + elements(bytes@.take(i + 1)));
        }
        i += 1;
    }
    proof {
        assert(bytes@.take(bytes.len() as int) =~= bytes@);
        assert(out@ =~= old(out)@ + item_array(bytes@));
    }
}

/// Appends a text, given by its UTF-8 bytes.
pub(crate) fn write_text(out: &mut Vec<u8>, utf8: &[u8])
    ensures
        final(out)@ == old(out)@ + item_text(utf8@),
{
    write_head(out, MAJOR_TEXT, utf8.len() as u64);
    append(out, utf8);
    assert(out@ =~= old(out)@ + item_text(utf8@));
}

/// Reads a one-byte integer at `pos`.
pub(crate) fn read_u8(input: &[u8], pos: usize) -> (r: Option<(u8, usize)>)
    requires
        pos <= input@.len(),
    ensures
        match r {
            Some((value, next)) => pos < next <= input@.len() && parse_u8(input@.skip(pos as int))
                == Some((value, input@.skip(next as int))),
            None => parse_u8(input@.skip(pos as int)) is None,
        },
{
    match read_head(input, pos, MAJOR_UINT) {
        Some((n, next)) => if n <= 0xff {
            Some((n as u8, next))
        } else {
            None
        },
        None => None,
    }
}

/// Reads a sixteen-byte integer at `pos`.
pub(crate) fn read_u128(input: &[u8], pos: usize) -> (r: Option<(u128, usize)>)
    requires
        pos <= input@.len(),
    ensures
        match r {
            Some((value, next)) => pos < next <= input@.len() && parse_u128(
                input@.skip(pos as int),
            ) == Some((value, input@.skip(next as int))),
            None => parse_u128(input@.skip(pos as int)) is None,
        },
{
    let ghost s = input@.skip(pos as int);
    if pos < input.len() && input[pos] == TAG_BIGNUM {
        assert(s[0] == input@[pos as int]);
        assert(s.skip(1) =~= input@.skip(pos + 1));
        match read_head(input, pos + 1, MAJOR_BYTES) {
            Some((len, start)) => {
                if len <= 16 && len <= (input.len() - start) as u64 {
                    let width: usize = len as usize;
                    let value: u128 = read_be(input, start, width);
                    proof {
                        let rest = input@.skip(start as int);
                        assert(rest.take(width as int) =~= input@.subrange(
                            start as int,
                            start + width,
                        ));
                        assert(rest.skip(width as int) =~= input@.skip(start + width));
                        lemma_be_value_bound(rest.take(width as int));
                        lemma_pow256_monotonic(width as nat, 16);
                        lemma_pow256_values();
                    }
                    Some((value, start + width))
                } else {
                    None
                }
            },
            None => None,
        }
    } else {
        proof {
            if pos < input@.len() {
                assert(s[0] == input@[pos as int]);
            }
        }
        match read_head(input, pos, MAJOR_UINT) {
            Some((n, next)) => Some((n as u128, next)),
            None => None,
        }
    }
}

/// Reads an array of exactly `count` bytes at `pos`.
pub(crate) fn read_array(input: &[u8], pos: usize, count: usize) -> (r: Option<(Vec<u8>, usize)>)
    requires
        pos <= input@.len(),
    ensures
        match r {
            Some((bytes, next)) => pos < next <= input@.len() && bytes@.len() == count
                && parse_array(input@.skip(pos as int), count as nat) == Some(
                (bytes@, input@.skip(next as int)),
            ),
            None => parse_array(input@.skip(pos as int), count as nat) is None,
        },
{
    let start: usize = match read_head(input, pos, MAJOR_ARRAY) {
        Some((len, start)) => {
            if len != count as u64 {
                return None;
            }
            start
        },
        None => { return None; },
    };
    let ghost rest = input@.skip(start as int);
    let mut bytes: Vec<u8> = Vec::new();
    let mut at: usize = start;
    let mut i: usize = 0;
    while i < count
        invariant
            i <= count,
            start <= at <= input@.len(),
            pos < start,
            rest == input@.skip(start as int),
            parse_head(input@.skip(pos as int), MAJOR_ARRAY) == Some((count as nat, rest)),
            bytes@.len() == i,
            parse_elements(rest, i as nat) == Some((bytes@, input@.skip(at as int))),
        decreases count - i,
    {
        match read_u8(input, at) {
            Some((value, next)) => {
                bytes.push(value);
                at = next;
            },
            None => {
                proof {
                    lemma_elements_fail_early(rest, (i + 1) as nat, count as nat);
                }
                return None;
            },
        }
        i += 1;
    }
    Some((bytes, at))
}

/// Reads a text at `pos`: its UTF-8 bytes.
pub(crate) fn read_text(input: &[u8], pos: usize) -> (r: Option<(Vec<u8>, usize)>)
    requires
        pos <= input@.len(),
    ensures
        match r {
            Some((utf8, next)) => pos < next <= input@.len() && parse_text(
                input@.skip(pos as int),
            ) == Some((utf8@, input@.skip(next as int))),
            None => parse_text(input@.skip(pos as int)) is None,
        },
{
    match read_head(input, pos, MAJOR_TEXT) {
        Some((len, start)) => {
            if len <= (input.len() - start) as u64 {
                let width: usize = len as usize;
                let total: usize = input.len();
                let mut utf8: Vec<u8> = Vec::new();
                let mut i: usize = 0;
                while i < width
                    invariant
                        i <= width,
                        start + width <= input@.len(),
                        input@.len() == total,
                        utf8@ == input@.subrange(start as int, start + i),
                    decreases width - i,
                {
                    utf8.push(input[start + i]);
                    assert(utf8@ =~= input@.subrange(start as int, start + i + 1));
                    i += 1;
                }
                proof {
                    let rest = input@.skip(start as int);
                    assert(rest.take(width as int) =~= utf8@);
                    assert(rest.skip(width as int) =~= input@.skip(start + width));
                }
                Some((utf8, start + width))
            } else {
                None
            }
        },
        None => None,
    }
}

/// Reads a text that may be absent at `pos`.
pub(crate) fn read_optional_text(input: &[u8], pos: usize) -> (r: Option<(Option<Vec<u8>>, usize)>)
    requires
        pos <= input@.len(),
    ensures
        match r {
            Some((Some(utf8), next)) => pos < next <= input@.len() && parse_optional_text(
                input@.skip(pos as int),
            ) == Some((Some(utf8@), input@.skip(next as int))),
            Some((None, next)) => pos < next <= input@.len() && parse_optional_text(
                input@.skip(pos as int),
            ) == Some((None::<Seq<u8>>, input@.skip(next as int))),
            None => parse_optional_text(input@.skip(pos as int)) is None,
        },
{
    let ghost s = input@.skip(pos as int);
    if pos < input.len() && input[pos] == NULL {
        assert(s[0] == input@[pos as int]);
        assert(s.skip(1) =~= input@.skip(pos + 1));
        Some((None, pos + 1))
    } else {
        proof {
            if pos < input@.len() {
                assert(s[0] == input@[pos as int]);
            }
        }
        match read_text(input, pos) {
            Some((utf8, next)) => Some((Some(utf8), next)),
            None => None,
        }
    }
}

} // verus!
