//! Parsing of hex color codes into RGBA bytes

use vstd::prelude::*;
use vstd::string::StringSliceAdditionalSpecFns;

verus! {

/// Whether the byte is ASCII whitespace, as `str::trim` sees it
pub open spec fn is_ascii_ws(c: u8) -> bool {
    c == 0x20 || (0x09 <= c && c <= 0x0d)
}

/// The bytes without leading whitespace
pub open spec fn trim_start(b: Seq<u8>) -> Seq<u8>
    decreases b.len(),
{
    if b.len() > 0 && is_ascii_ws(b[0]) {
        trim_start(b.drop_first())
    } else {
        b
    }
}

/// The bytes without trailing whitespace
pub open spec fn trim_end(b: Seq<u8>) -> Seq<u8>
    decreases b.len(),
{
    if b.len() > 0 && is_ascii_ws(b.last()) {
        trim_end(b.drop_last())
    } else {
        b
    }
}

/// The bytes without one leading `#`, if there is one
pub open spec fn strip_hash(b: Seq<u8>) -> Seq<u8> {
    if b.len() > 0 && b[0] == 0x23 {
        b.drop_first()
    } else {
        b
    }
}

/// The value of a hexadecimal digit, either case
pub open spec fn hex_digit(c: u8) -> Option<u8> {
    if 0x30 <= c <= 0x39 {
        Some((c - 0x30) as u8)
    } else if 0x61 <= c <= 0x66 {
        Some((c - 0x61 + 10) as u8)
    } else if 0x41 <= c <= 0x46 {
        Some((c - 0x41 + 10) as u8)
    } else {
        None
    }
}

/// The value of a chunk of one or two characters, read as a hexadecimal `u8` the way
/// `u8::from_str_radix` reads it: a lone `+` sign before a digit is allowed
pub open spec fn parse_chunk(chunk: Seq<u8>) -> Option<u8> {
    if chunk.len() == 1 {
        hex_digit(chunk[0])
    } else if chunk.len() == 2 {
        if chunk[0] == 0x2b {
            hex_digit(chunk[1])
        } else {
            match (hex_digit(chunk[0]), hex_digit(chunk[1])) {
                (Some(h), Some(l)) => Some((h * 16 + l) as u8),
                _ => None,
            }
        }
    } else {
        None
    }
}

/// The RGBA bytes of a hex code (as bytes, after the `#` is stripped and whitespace
/// trimmed): 3 or 4 characters give one hex digit per component, 6 or 8 characters two;
/// a missing alpha is 255
pub open spec fn parse_hex(t: Seq<u8>) -> Option<(u8, u8, u8, u8)> {
    let w: int = if t.len() == 3 || t.len() == 4 { 1 } else { 2 };
    let n: int = (t.len() as int) / w;
    if !(t.len() == 3 || t.len() == 4 || t.len() == 6 || t.len() == 8) {
        None
    } else {
        let r = parse_chunk(t.subrange(0, w));
        let g = parse_chunk(t.subrange(w, 2 * w));
        let b = parse_chunk(t.subrange(2 * w, 3 * w));
        let a = if n == 4 { parse_chunk(t.subrange(3 * w, 4 * w)) } else { Some(255u8) };
        match (r, g, b, a) {
            (Some(r), Some(g), Some(b), Some(a)) => Some((r, g, b, a)),
            _ => None,
        }
    }
}

/// The RGBA bytes of a color given by a hex code, or `None` when the code is invalid.
/// The code must be ASCII; it may start with `#` and be surrounded by whitespace
pub open spec fn hex_spec(s: &str) -> Option<(u8, u8, u8, u8)> {
    if vstd::string::is_ascii(s) {
        parse_hex(trim_end(trim_start(strip_hash(s.spec_bytes()))))
    } else {
        None
    }
}

fn hex_digit_exec(c: u8) -> (r: Option<u8>)
    ensures
        r == hex_digit(c),
{
    if 0x30 <= c && c <= 0x39 {
        Some(c - 0x30)
    } else if 0x61 <= c && c <= 0x66 {
        Some(c - 0x61 + 10)
    } else if 0x41 <= c && c <= 0x46 {
        Some(c - 0x41 + 10)
    } else {
        None
    }
}

fn parse_chunk_exec(b: &[u8], start: usize, len: usize) -> (r: Option<u8>)
    requires
        len == 1 || len == 2,
        start + len <= b@.len(),
    ensures
        r == parse_chunk(b@.subrange(start as int, start + len)),
{
    let chunk = Ghost(b@.subrange(start as int, start + len));
    assert(chunk@.len() == len);
    if len == 1 {
        assert(chunk@[0] == b@[start as int]);
        hex_digit_exec(b[start])
    } else {
        assert(chunk@[0] == b@[start as int]);
        assert(chunk@[1] == b@[start + 1]);
        if b[start] == 0x2b {
            hex_digit_exec(b[start + 1])
        } else {
            match (hex_digit_exec(b[start]), hex_digit_exec(b[start + 1])) {
                (Some(h), Some(l)) => Some(h * 16 + l),
                _ => None,
            }
        }
    }
}

/// Creates the RGBA bytes of a color from a hex code such as `#ff8800`, `ff8800cc`, `#f80`
/// or `f80c`. If the hex code is invalid, returns `None`. With three or four characters,
/// each component is the value of one hex digit
pub fn hex(code: &str) -> (r: Option<(u8, u8, u8, u8)>)
    ensures
        r == hex_spec(code),
{
    if !code.is_ascii() {
        return None;
    }
    let bytes = code.as_bytes();
    let n = bytes.len();
    let mut start: usize = 0;
    if n > 0 && bytes[0] == 0x23 {
        start = 1;
    }
    proof {
        assert(bytes@.subrange(start as int, n as int) == strip_hash(bytes@));
    }
    let after_hash = start;
    while start < n && (bytes[start] == 0x20 || (0x09 <= bytes[start] && bytes[start] <= 0x0d))
        invariant
            after_hash <= start <= n,
            n == bytes@.len(),
            trim_start(bytes@.subrange(start as int, n as int)) == trim_start(bytes@.subrange(after_hash as int, n as int)),
        decreases n - start,
    {
        assert(bytes@.subrange(start as int, n as int).drop_first() =~= bytes@.subrange(start + 1, n as int));
        start += 1;
    }
    let mut end: usize = n;
    proof {
        assert(trim_start(bytes@.subrange(start as int, n as int)) == bytes@.subrange(start as int, n as int));
    }
    while end > start && (bytes[end - 1] == 0x20 || (0x09 <= bytes[end - 1] && bytes[end - 1] <= 0x0d))
        invariant
            start <= end <= n,
            n == bytes@.len(),
            trim_end(bytes@.subrange(start as int, end as int)) == trim_end(bytes@.subrange(start as int, n as int)),
        decreases end - start,
    {
        assert(bytes@.subrange(start as int, end as int).drop_last() =~= bytes@.subrange(start as int, end - 1));
        end -= 1;
    }
    let ghost t = bytes@.subrange(start as int, end as int);
    proof {
        assert(trim_end(t) == t);
        assert(t == trim_end(trim_start(strip_hash(code.spec_bytes()))));
    }
    let len = end - start;
    let w: usize = if len == 3 || len == 4 {
        1
    } else if len == 6 || len == 8 {
        2
    } else {
        return None;
    };
    let count = len / w;
    proof {
        assert(t.subrange(0, w as int) =~= bytes@.subrange(start as int, start + w));
        assert(t.subrange(w as int, 2 * w) =~= bytes@.subrange(start + w, start + 2 * w));
        assert(t.subrange(2 * w, 3 * w) =~= bytes@.subrange(start + 2 * w, start + 3 * w));
        if count == 4 {
            assert(t.subrange(3 * w, 4 * w) =~= bytes@.subrange(start + 3 * w, start + 4 * w));
        }
    }
    let r = match parse_chunk_exec(bytes, start, w) {
        Some(v) => v,
        None => {
            return None;
        },
    };
    let g = match parse_chunk_exec(bytes, start + w, w) {
        Some(v) => v,
        None => {
            return None;
        },
    };
    let b = match parse_chunk_exec(bytes, start + 2 * w, w) {
        Some(v) => v,
        None => {
            return None;
        },
    };
    let a = if count == 4 {
        match parse_chunk_exec(bytes, start + 3 * w, w) {
            Some(v) => v,
            None => {
                return None;
            },
        }
    } else {
        255
    };
    Some((r, g, b, a))
}

} // verus!
