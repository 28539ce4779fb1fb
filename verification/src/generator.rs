//! The code generator: fixed-length random identifiers over the 62-character
//! alphanumeric alphabet.

use vstd::prelude::*;

verus! {

/// A short-code character: an ASCII digit, upper-case letter, or lower-case
/// letter (code points 0-9, A-Z, a-z).
pub open spec fn is_code_char(c: char) -> bool {
    let n = c as int;
    (48 <= n && n <= 57) || (65 <= n && n <= 90) || (97 <= n && n <= 122)
}

/// Every character of the sequence belongs to the code alphabet.
pub open spec fn is_code_seq(s: Seq<char>) -> bool {
    forall|i: int| 0 <= i < s.len() ==> is_code_char(s[i])
}

/// A byte in the ASCII range of the code alphabet.
pub open spec fn is_code_byte(b: u8) -> bool {
    (48 <= b && b <= 57) || (65 <= b && b <= 90) || (97 <= b && b <= 122)
}

/// Relies on rand's `Alphanumeric` distribution: each sample is one byte drawn
/// uniformly from the 62 ASCII alphanumerics `[A-Za-z0-9]`.
#[verifier::external_body]
fn sample_alphanumeric() -> (b: u8)
    ensures
        is_code_byte(b),
{
    rand::Rng::sample(&mut rand::thread_rng(), rand::distributions::Alphanumeric)
}

/// Relies on String::push: appends exactly one character at the end.
#[verifier::external_body]
fn push_char(s: &mut String, c: char)
    ensures
        final(s)@ == old(s)@.push(c),
{
    s.push(c);
}

/// Produce a random code of exactly `length` characters, each drawn from the
/// alphanumeric alphabet.
pub fn generate_code(length: usize) -> (code: String)
    ensures
        code@.len() == length,
        is_code_seq(code@),
{
    let mut code = String::new();
    let mut i: usize = 0;
    while i < length
        invariant
            i <= length,
            code@.len() == i,
            is_code_seq(code@),
        decreases length - i,
    {
        let b = sample_alphanumeric();
        push_char(&mut code, b as char);
        i = i + 1;
    }
    code
}

} // verus!
