//! URL-path escaping of pipeline and job names.
//!
//! A build's canonical path on the server is built from its pipeline and
//! job names; each name stands in the path as one segment, with every
//! character outside the unreserved set percent-encoded byte by byte
//! (upper-case hexadecimal, UTF-8 bytes for characters beyond ASCII).

use vstd::prelude::*;

use vstd::utf8::char_is_scalar;
use vstd::utf8::encode_scalar;
use vstd::utf8::has_width_1_encoding;
use vstd::utf8::has_width_2_encoding;
use vstd::utf8::has_width_3_encoding;
use vstd::utf8::is_scalar;

use crate::text::chars_to_string;

verus! {

/// The characters that stand for themselves in a path segment: letters,
/// digits, `-`, `.`, `_` and `~`.
pub open spec fn is_unreserved(c: char) -> bool {
    ('A' <= c && c <= 'Z') || ('a' <= c && c <= 'z') || ('0' <= c && c <= '9') || c == '-' || c
        == '.' || c == '_' || c == '~'
}

/// The upper-case hexadecimal digit character for `d`.
pub open spec fn hex_char(d: int) -> char
    recommends
        0 <= d < 16,
{
    if d == 0 {
        '0'
    } else if d == 1 {
        '1'
    } else if d == 2 {
        '2'
    } else if d == 3 {
        '3'
    } else if d == 4 {
        '4'
    } else if d == 5 {
        '5'
    } else if d == 6 {
        '6'
    } else if d == 7 {
        '7'
    } else if d == 8 {
        '8'
    } else if d == 9 {
        '9'
    } else if d == 10 {
        'A'
    } else if d == 11 {
        'B'
    } else if d == 12 {
        'C'
    } else if d == 13 {
        'D'
    } else if d == 14 {
        'E'
    } else {
        'F'
    }
}

/// The three characters `%XY` that encode one byte.
pub open spec fn escape_byte(b: u8) -> Seq<char> {
    seq!['%', hex_char(b as int / 16), hex_char(b as int % 16)]
}

/// The percent-encoding of a byte sequence.
pub open spec fn escape_bytes(bs: Seq<u8>) -> Seq<char>
    decreases bs.len(),
{
    if bs.len() == 0 {
        Seq::empty()
    } else {
        escape_bytes(bs.drop_last()) + escape_byte(bs.last())
    }
}

/// What one character contributes to an escaped segment: itself when
/// unreserved, otherwise the percent-encoding of its UTF-8 bytes.
pub open spec fn escape_char(c: char) -> Seq<char> {
    if is_unreserved(c) {
        seq![c]
    } else {
        escape_bytes(encode_scalar(c as u32))
    }
}

/// The escaped form of a whole segment.
pub open spec fn escape_seq(s: Seq<char>) -> Seq<char>
    decreases s.len(),
{
    if s.len() == 0 {
        Seq::empty()
    } else {
        escape_seq(s.drop_last()) + escape_char(s.last())
    }
}

/// The upper-case hexadecimal digit character for `d`.
fn hex_char_of(d: u8) -> (c: char)
    requires
        d < 16,
    ensures
        c == hex_char(d as int),
{
    match d {
        0 => '0',
        1 => '1',
        2 => '2',
        3 => '3',
        4 => '4',
        5 => '5',
        6 => '6',
        7 => '7',
        8 => '8',
        9 => '9',
        10 => 'A',
        11 => 'B',
        12 => 'C',
        13 => 'D',
        14 => 'E',
        _ => 'F',
    }
}

/// The UTF-8 bytes of one character.
fn char_utf8_bytes(c: char) -> (r: Vec<u8>)
    ensures
        r@ == encode_scalar(c as u32),
{
    proof {
        char_is_scalar(c);
    }
    let u = c as u32;
    let mut out: Vec<u8> = Vec::new();
    if u <= 0x7F {
        out.push((u & 0x7F) as u8);
        proof {
            assert(has_width_1_encoding(u));
            assert(out@ =~= encode_scalar(c as u32));
        }
    } else if u <= 0x7FF {
        out.push(0xC0 | ((u >> 6) & 0x1F) as u8);
        out.push(0x80 | (u & 0x3F) as u8);
        proof {
            assert(has_width_2_encoding(u));
            assert(out@ =~= encode_scalar(c as u32));
        }
    } else if u <= 0xFFFF {
        out.push(0xE0 | ((u >> 12) & 0x0F) as u8);
        out.push(0x80 | ((u >> 6) & 0x3F) as u8);
        out.push(0x80 | (u & 0x3F) as u8);
        proof {
            assert(is_scalar(u));
            assert(has_width_3_encoding(u));
            assert(out@ =~= encode_scalar(c as u32));
        }
    } else {
        out.push(0xF0 | ((u >> 18) & 0x7) as u8);
        out.push(0x80 | ((u >> 12) & 0x3F) as u8);
        out.push(0x80 | ((u >> 6) & 0x3F) as u8);
        out.push(0x80 | (u & 0x3F) as u8);
        proof {
            assert(is_scalar(u));
            assert(!has_width_1_encoding(u) && !has_width_2_encoding(u) && !has_width_3_encoding(
                u,
            ));
            assert(out@ =~= encode_scalar(c as u32));
        }
    }
    out
}

/// Whether `c` stands for itself in a path segment.
fn is_unreserved_char(c: char) -> (r: bool)
    ensures
        r == is_unreserved(c),
{
    ('A' <= c && c <= 'Z') || ('a' <= c && c <= 'z') || ('0' <= c && c <= '9') || c == '-' || c
        == '.' || c == '_' || c == '~'
}

/// Appends the escaped form of one character.
fn push_escaped_char(out: &mut Vec<char>, c: char)
    ensures
        final(out)@ == old(out)@ + escape_char(c),
{
    if is_unreserved_char(c) {
        out.push(c);
        proof {
            assert(final(out)@ =~= old(out)@ + escape_char(c));
        }
    } else {
        let bytes = char_utf8_bytes(c);
        let ghost base = out@;
        let mut i: usize = 0;
        while i < bytes.len()
            invariant
                i <= bytes.len(),
                bytes@ == encode_scalar(c as u32),
                out@ == base + escape_bytes(bytes@.take(i as int)),
            decreases bytes.len() - i,
        {
            let b = bytes[i];
            out.push('%');
            out.push(hex_char_of(b / 16));
            out.push(hex_char_of(b % 16));
            proof {
                assert(bytes@.take(i as int + 1).drop_last() =~= bytes@.take(i as int));
                assert(bytes@.take(i as int + 1).last() == bytes@[i as int]);
                assert(out@ =~= base + escape_bytes(bytes@.take(i as int + 1)));
            }
            i = i + 1;
        }
        proof {
            assert(bytes@.take(bytes@.len() as int) =~= bytes@);
        }
    }
}

/// The escaped form of `segment`, fit to stand as one path segment of a
/// URL.
pub fn escape_segment(segment: &str) -> (r: String)
    ensures
        r@ == escape_seq(segment@),
{
    let len = segment.unicode_len();
    let mut out: Vec<char> = Vec::new();
    let mut i: usize = 0;
    while i < len
        invariant
            i <= len,
            len == segment@.len(),
            out@ == escape_seq(segment@.take(i as int)),
        decreases len - i,
    {
        let c = segment.get_char(i);
        push_escaped_char(&mut out, c);
        proof {
            assert(segment@.take(i as int + 1).drop_last() =~= segment@.take(i as int));
            assert(segment@.take(i as int + 1).last() == segment@[i as int]);
        }
        i = i + 1;
    }
    proof {
        assert(segment@.take(len as int) =~= segment@);
    }
    chars_to_string(out)
}

} // verus!
