//! Strict percent-escapes: a `%` counts only when two hexadecimal digits follow.

use vstd::prelude::*;

verus! {

/// The byte `%`, which opens an escape.
pub const PERCENT: u8 = 0x25;

/// Whether `b` is one of `0-9`, `A-F`, `a-f`.
pub open spec fn is_hex_digit(b: u8) -> bool {
    (0x30 <= b <= 0x39) || (0x41 <= b <= 0x46) || (0x61 <= b <= 0x66)
}

/// The number that the hexadecimal digit `b` stands for.
pub open spec fn hex_value(b: u8) -> int {
    if b <= 0x39 {
        b - 0x30
    } else if b <= 0x46 {
        b - 0x41 + 10
    } else {
        b - 0x61 + 10
    }
}

/// Whether the two bytes after position `i` exist and are hexadecimal digits.
pub open spec fn escape_at(s: Seq<u8>, i: int) -> bool {
    i + 2 < s.len() && is_hex_digit(s[i + 1]) && is_hex_digit(s[i + 2])
}

/// Whether position `i` holds a `%` that opens no complete escape.
pub open spec fn malformed_at(s: Seq<u8>, i: int) -> bool {
    0 <= i < s.len() && s[i] == PERCENT && !escape_at(s, i)
}

/// Every `%` in `s` opens a complete escape.
pub open spec fn well_escaped(s: Seq<u8>) -> bool {
    forall|i: int| !malformed_at(s, i)
}

/// Position `at` holds the first malformed escape of `s`.
pub open spec fn first_malformed(s: Seq<u8>, at: int) -> bool {
    malformed_at(s, at) && forall|j: int| 0 <= j < at ==> !malformed_at(s, j)
}

/// The byte that the escape at the start of `s` stands for.
pub open spec fn escaped_byte(s: Seq<u8>) -> u8
    recommends
        escape_at(s, 0),
{
    (16 * hex_value(s[1]) + hex_value(s[2])) as u8
}

/// The bytes of `s` with every complete escape replaced by the byte it
/// stands for.  Other bytes, a stray `%` among them, stand for themselves.
pub open spec fn unescape(s: Seq<u8>) -> Seq<u8>
    decreases s.len(),
{
    if s.len() == 0 {
        Seq::empty()
    } else if s[0] == PERCENT && escape_at(s, 0) {
        seq![escaped_byte(s)] + unescape(s.skip(3))
    } else {
        seq![s[0]] + unescape(s.skip(1))
    }
}

/// The value of `b` as a hexadecimal digit, if it is one.
pub fn hex_digit_value(b: u8) -> (r: Option<u8>)
    ensures
        match r {
            Some(value) => is_hex_digit(b) && value == hex_value(b),
            None => !is_hex_digit(b),
        },
{
    if 0x30 <= b && b <= 0x39 {
        Some(b - 0x30)
    } else if 0x41 <= b && b <= 0x46 {
        Some(b - 0x41 + 10)
    } else if 0x61 <= b && b <= 0x66 {
        Some(b - 0x61 + 10)
    } else {
        None
    }
}

/// The byte that the escape at `i` stands for, if a complete escape stands
/// there.
fn escape_value(input: &[u8], i: usize) -> (r: Option<u8>)
    requires
        i < input@.len(),
    ensures
        match r {
            Some(byte) => escape_at(input@, i as int) && byte == escaped_byte(
                input@.skip(i as int),
            ),
            None => !escape_at(input@, i as int),
        },
{
    if input.len() - i <= 2 {
        return None;
    }
    match (hex_digit_value(input[i + 1]), hex_digit_value(input[i + 2])) {
        (Some(high), Some(low)) => Some(16 * high + low),
        _ => None,
    }
}

/// Replaces every escape of `input` by its byte, and refuses the input at
/// its first `%` that opens no complete escape.
pub fn percent_decode(input: &[u8]) -> (r: Result<Vec<u8>, usize>)
    ensures
        match r {
            Ok(bytes) => well_escaped(input@) && bytes@ == unescape(input@),
            Err(at) => first_malformed(input@, at as int),
        },
{
    let n: usize = input.len();
    let mut out: Vec<u8> = Vec::new();
    let mut i: usize = 0;
    assert(input@.skip(0) == input@);
    while i < n
        invariant
            n == input@.len(),
            0 <= i <= n,
            forall|j: int| 0 <= j < i ==> !malformed_at(input@, j),
            out@ + unescape(input@.skip(i as int)) == unescape(input@),
        decreases n - i,
    {
        let ghost rest = input@.skip(i as int);
        let b: u8 = input[i];
        if b == PERCENT {
            match escape_value(input, i) {
                Some(byte) => {
                    assert(rest.skip(3) == input@.skip(i + 3));
                    out.push(byte);
                    i = i + 3;
                },
                None => {
                    return Err(i);
                },
            }
        } else {
            assert(rest.skip(1) == input@.skip(i + 1));
            out.push(b);
            i = i + 1;
        }
    }
    Ok(out)
}

} // verus!
