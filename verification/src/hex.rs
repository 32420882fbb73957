//! Lowercase, `0x`-prefixed hexadecimal rendering and parsing of byte
//! strings, as used for content keys and content values in fixture files.

use vstd::prelude::*;

verus! {

/// The lowercase hex character for a nibble value.
pub open spec fn hex_char_of(n: u8) -> char
    recommends
        n < 16,
{
    if n < 10 {
        ((n + 48) as char)
    } else {
        ((n + 87) as char)
    }
}

/// The hex rendering of a byte string: two characters per byte, high
/// nibble first, no prefix.
pub open spec fn hex_of(bytes: Seq<u8>) -> Seq<char> {
    Seq::new(
        bytes.len() * 2,
        |i: int|
            if i % 2 == 0 {
                hex_char_of(bytes[i / 2] / 16)
            } else {
                hex_char_of(bytes[i / 2] % 16)
            },
    )
}

/// Whether `c` is a lowercase hex digit.
pub open spec fn is_hex_digit(c: char) -> bool {
    (48 <= c as u32 && c as u32 <= 57) || (97 <= c as u32 && c as u32 <= 102)
}

/// The nibble value of a lowercase hex digit.
pub open spec fn nibble_val(c: char) -> u8
    recommends
        is_hex_digit(c),
{
    if 48 <= c as u32 && c as u32 <= 57 {
        ((c as u32 - 48) as u8)
    } else {
        ((c as u32 - 87) as u8)
    }
}

/// Whether `s` is a well-formed hex string: a `0x` prefix followed by an
/// even number of lowercase hex digits. Uppercase digits are not accepted:
/// the parser admits exactly the form the encoder emits.
pub open spec fn valid_hex(s: Seq<char>) -> bool {
    &&& s.len() >= 2
    &&& s[0] == '0'
    &&& s[1] == 'x'
    &&& s.len() % 2 == 0
    &&& forall|i: int| 2 <= i < s.len() ==> is_hex_digit(#[trigger] s[i])
}

/// The bytes denoted by a well-formed hex string.
pub open spec fn hex_val(s: Seq<char>) -> Seq<u8>
    recommends
        valid_hex(s),
{
    Seq::new(
        ((s.len() - 2) / 2) as nat,
        |i: int| (16 * nibble_val(s[2 + 2 * i]) + nibble_val(s[3 + 2 * i])) as u8,
    )
}

/// A one-character string slice holding the lowercase hex digit for `n`.
fn nibble_str(n: u8) -> (s: &'static str)
    requires
        n < 16,
    ensures
        s@ =~= seq![hex_char_of(n)],
{
    proof {
        reveal_strlit("0");
        reveal_strlit("1");
        reveal_strlit("2");
        reveal_strlit("3");
        reveal_strlit("4");
        reveal_strlit("5");
        reveal_strlit("6");
        reveal_strlit("7");
        reveal_strlit("8");
        reveal_strlit("9");
        reveal_strlit("a");
        reveal_strlit("b");
        reveal_strlit("c");
        reveal_strlit("d");
        reveal_strlit("e");
        reveal_strlit("f");
    }
    match n {
        0 => "0",
        1 => "1",
        2 => "2",
        3 => "3",
        4 => "4",
        5 => "5",
        6 => "6",
        7 => "7",
        8 => "8",
        9 => "9",
        10 => "a",
        11 => "b",
        12 => "c",
        13 => "d",
        14 => "e",
        _ => "f",
    }
}

/// Renders `bytes` as a lowercase hex string with a `0x` prefix.
pub fn hex_encode(bytes: &[u8]) -> (s: String)
    ensures
        s@ == seq!['0', 'x'] + hex_of(bytes@),
{
    proof {
        reveal_strlit("0x");
    }
    let mut out = String::from_str("0x");
    proof {
        assert(out@ =~= seq!['0', 'x'] + hex_of(bytes@.take(0)));
    }
    let mut i: usize = 0;
    while i < bytes.len()
        invariant
            i <= bytes@.len(),
            out@ == seq!['0', 'x'] + hex_of(bytes@.take(i as int)),
        decreases bytes@.len() - i,
    {
        let b = bytes[i];
        let hi = nibble_str(b / 16);
        let lo = nibble_str(b % 16);
        out.append(hi);
        out.append(lo);
        proof {
            assert(hex_of(bytes@.take(i + 1)) =~= hex_of(bytes@.take(i as int)) + seq![
                hex_char_of(b / 16),
                hex_char_of(b % 16),
            ]);
            assert(out@ =~= seq!['0', 'x'] + hex_of(bytes@.take(i + 1)));
        }
        i += 1;
    }
    proof {
        assert(bytes@.take(bytes@.len() as int) =~= bytes@);
    }
    out
}

/// The nibble value of `c`, or `None` if `c` is not a lowercase hex digit.
fn nibble_of(c: char) -> (r: Option<u8>)
    ensures
        r is Some <==> is_hex_digit(c),
        r is Some ==> r->Some_0 == nibble_val(c) && r->Some_0 < 16,
{
    let v = c as u32;
    if 48 <= v && v <= 57 {
        Some((v - 48) as u8)
    } else if 97 <= v && v <= 102 {
        Some((v - 87) as u8)
    } else {
        None
    }
}

/// Parses a `0x`-prefixed lowercase hex string into its bytes. Fails with
/// `FixtureError::Decode` exactly when the string is not well-formed hex;
/// uppercase digits are rejected, as `valid_hex` says.
pub fn hex_decode(s: &str) -> (r: Result<Vec<u8>, crate::FixtureError>)
    ensures
        r is Ok <==> valid_hex(s@),
        r is Ok ==> r->Ok_0@ == hex_val(s@),
        r is Err ==> r->Err_0 == crate::FixtureError::Decode,
{
    proof {
        reveal_strlit("0");
        reveal_strlit("x");
    }
    let n = s.unicode_len();
    if n < 2 || n % 2 != 0 {
        return Err(crate::FixtureError::Decode);
    }
    if s.get_char(0) != '0' || s.get_char(1) != 'x' {
        return Err(crate::FixtureError::Decode);
    }
    let mut out: Vec<u8> = Vec::new();
    let mut i: usize = 2;
    while i < n
        invariant
            2 <= i <= n,
            i % 2 == 0,
            n % 2 == 0,
            n == s@.len(),
            s@[0] == '0',
            s@[1] == 'x',
            forall|j: int| 2 <= j < i ==> is_hex_digit(#[trigger] s@[j]),
            out@.len() == (i - 2) / 2,
            forall|k: int|
                0 <= k < out@.len() ==> out@[k] == (16 * nibble_val(s@[2 + 2 * k]) + nibble_val(
                    s@[3 + 2 * k],
                )) as u8,
        decreases n - i,
    {
        let c_hi = s.get_char(i);
        let c_lo = s.get_char(i + 1);
        let hi = match nibble_of(c_hi) {
            Some(v) => v,
            None => {
                return Err(crate::FixtureError::Decode);
            },
        };
        let lo = match nibble_of(c_lo) {
            Some(v) => v,
            None => {
                return Err(crate::FixtureError::Decode);
            },
        };
        out.push(16 * hi + lo);
        i += 2;
    }
    proof {
        assert(out@ =~= hex_val(s@));
    }
    Ok(out)
}

} // verus!
