//! Code generation: fixed-width decimal codes from a secure random
//! source.
//!
//! Of the two generator designs that satisfy the engine's contract —
//! pure CSPRNG output formatted to a fixed width, or a time-step HMAC
//! scheme re-derivable without a store — this engine draws from the
//! CSPRNG and keeps the store-backed model, which preserves
//! auditability and allows revoking an issued code by consuming or
//! overwriting its record.

use vstd::prelude::*;

verus! {

/// Number of decimal digits in an issued code.
pub const CODE_LEN: usize = 6;

/// Number of distinct codes: ten to the power of `CODE_LEN`.
pub const CODE_SPACE: u32 = 1000000;

/// The character for one decimal digit.
pub open spec fn digit_char(d: int) -> char {
    if d == 0 {
        '0'
    } else if d == 1 {
        '1'
    } else if d == 2 {
        '2'
    } else if d == 3 {
        '3'
    } else if d == 4 {
        '4'
    } else if d == 5 {
        '5'
    } else if d == 6 {
        '6'
    } else if d == 7 {
        '7'
    } else if d == 8 {
        '8'
    } else {
        '9'
    }
}

/// Whether `c` is a decimal digit character.
pub open spec fn is_digit_char(c: char) -> bool {
    c == '0' || c == '1' || c == '2' || c == '3' || c == '4' || c == '5' || c == '6' || c == '7'
        || c == '8' || c == '9'
}

/// The fixed-width, zero-padded decimal rendering of `n`, most
/// significant digit first.
pub open spec fn spec_code(n: int) -> Seq<char> {
    seq![
        digit_char(n / 100000 % 10),
        digit_char(n / 10000 % 10),
        digit_char(n / 1000 % 10),
        digit_char(n / 100 % 10),
        digit_char(n / 10 % 10),
        digit_char(n % 10),
    ]
}

/// A well-formed code: exactly `CODE_LEN` decimal digit characters.
pub open spec fn is_code(s: Seq<char>) -> bool {
    s.len() == CODE_LEN && forall|i: int| 0 <= i < s.len() ==> is_digit_char(#[trigger] s[i])
}

/// The one-character string for one decimal digit.
fn digit_str(d: u32) -> (s: &'static str)
    requires
        d < 10,
    ensures
        s@ =~= seq![digit_char(d as int)],
{
    proof {
        reveal_strlit("0");
        reveal_strlit("1");
        reveal_strlit("2");
        reveal_strlit("3");
        reveal_strlit("4");
        reveal_strlit("5");
        reveal_strlit("6");
        reveal_strlit("7");
        reveal_strlit("8");
        reveal_strlit("9");
    }
    if d == 0 {
        "0"
    } else if d == 1 {
        "1"
    } else if d == 2 {
        "2"
    } else if d == 3 {
        "3"
    } else if d == 4 {
        "4"
    } else if d == 5 {
        "5"
    } else if d == 6 {
        "6"
    } else if d == 7 {
        "7"
    } else if d == 8 {
        "8"
    } else {
        "9"
    }
}

/// Renders `n` as a fixed-width `CODE_LEN`-digit decimal string.
pub fn format_code(n: u32) -> (code: String)
    requires
        n < CODE_SPACE,
    ensures
        code@ == spec_code(n as int),
        is_code(code@),
{
    let mut code = String::new();
    code.append(digit_str(n / 100000 % 10));
    code.append(digit_str(n / 10000 % 10));
    code.append(digit_str(n / 1000 % 10));
    code.append(digit_str(n / 100 % 10));
    code.append(digit_str(n / 10 % 10));
    code.append(digit_str(n % 10));
    proof {
        assert(code@ =~= spec_code(n as int));
        assert forall|i: int| 0 <= i < code@.len() implies is_digit_char(#[trigger] code@[i]) by {
            assert(code@[i] == spec_code(n as int)[i]);
        }
    }
    code
}

/// Relies on rand's `Rng::gen_range` on `thread_rng`, a cryptographically
/// secure generator: returns a uniform draw in `0 .. bound`. It panics only
/// on an empty range, which `requires` excludes.
#[verifier::external_body]
fn draw_below(bound: u32) -> (n: u32)
    requires
        bound > 0,
    ensures
        n < bound,
{
    rand::Rng::gen_range(&mut rand::thread_rng(), 0..bound)
}

/// Draws a fresh code: `CODE_LEN` decimal digits rendered from a draw
/// with `CODE_SPACE` equally likely outcomes of a secure random source.
pub fn generate_password() -> (code: String)
    ensures
        is_code(code@),
{
    format_code(draw_below(CODE_SPACE))
}

/// Whether `c` is a decimal digit character.
pub fn char_is_digit(c: char) -> (r: bool)
    ensures
        r == is_digit_char(c),
{
    c == '0' || c == '1' || c == '2' || c == '3' || c == '4' || c == '5' || c == '6' || c == '7'
        || c == '8' || c == '9'
}

/// Whether `s` is a well-formed code.
pub fn is_code_exec(s: &String) -> (r: bool)
    ensures
        r == is_code(s@),
{
    let sl = s.as_str();
    let len = sl.unicode_len();
    if len != CODE_LEN {
        return false;
    }
    let mut i: usize = 0;
    while i < len
        invariant
            len == s@.len(),
            len == CODE_LEN,
            sl@ == s@,
            i <= len,
            forall|j: int| 0 <= j < i ==> is_digit_char(#[trigger] s@[j]),
        decreases len - i,
    {
        if !char_is_digit(sl.get_char(i)) {
            return false;
        }
        i = i + 1;
    }
    true
}

} // verus!
