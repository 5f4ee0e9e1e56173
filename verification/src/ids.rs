//! Random identifiers: short codes, storage names and session tokens.

use vstd::prelude::*;
use crate::text::{from_chars, to_chars};

verus! {

/// The length of a short code.
pub const CODE_LENGTH: usize = 8;

/// `c` is a letter or digit of ASCII.
pub open spec fn is_alphanumeric(c: char) -> bool {
    ('0' <= c && c <= '9') || ('a' <= c && c <= 'z') || ('A' <= c && c <= 'Z')
}

/// `c` may stand in a short code: a letter or digit of ASCII, `_` or `-`.
pub open spec fn is_code_char(c: char) -> bool {
    is_alphanumeric(c) || c == '_' || c == '-'
}

/// `s` has the shape of a short code.
pub open spec fn is_code(s: Seq<char>) -> bool {
    s.len() == CODE_LENGTH && forall|i: int| 0 <= i < s.len() ==> is_code_char(#[trigger] s[i])
}

/// `s` has the shape of a token: letters and digits of ASCII only.
pub open spec fn is_token(s: Seq<char>) -> bool {
    forall|i: int| 0 <= i < s.len() ==> is_alphanumeric(#[trigger] s[i])
}

/// `c` is a digit or one of the small letters `a` to `f`.
pub open spec fn is_lower_hex(c: char) -> bool {
    ('0' <= c && c <= '9') || ('a' <= c && c <= 'f')
}

/// `s` has the shape of a hyphenated identifier: 36 characters, hyphens at
/// 8, 13, 18 and 23, small hexadecimal digits elsewhere.
pub open spec fn is_hyphenated_id(s: Seq<char>) -> bool {
    s.len() == 36 && forall|i: int|
        0 <= i < 36 ==> if i == 8 || i == 13 || i == 18 || i == 23 {
            #[trigger] s[i] == '-'
        } else {
            is_lower_hex(s[i])
        }
}

/// Calls `nanoid::format` with the crate's default random source and its
/// URL-safe alphabet of 64 characters. Whatever the random bytes, the result
/// has `size` characters, each one of that alphabet.
#[verifier::external_body]
fn nanoid_safe(size: usize) -> (id: String)
    requires
        0 < size <= 0xffff,
    ensures
        id@.len() == size,
        forall|i: int| 0 <= i < id@.len() ==> is_code_char(#[trigger] id@[i]),
{
    nanoid::format(nanoid::rngs::default, &nanoid::alphabet::SAFE, size)
}

/// Calls `uuid::Uuid::new_v4` and formats the identifier as it displays:
/// hyphenated, in small hexadecimal digits.
#[verifier::external_body]
fn uuid_v4() -> (id: String)
    ensures
        is_hyphenated_id(id@),
{
    uuid::Uuid::new_v4().to_string()
}

/// Samples `rand::distributions::Alphanumeric` once from the thread's
/// generator: a letter or digit of ASCII, as a byte.
#[verifier::external_body]
fn random_alphanumeric() -> (b: u8)
    ensures
        is_alphanumeric(b as char),
{
    rand::Rng::sample(&mut rand::thread_rng(), rand::distributions::Alphanumeric)
}

/// Whether `code` has the shape of a short code.
pub fn is_valid_code(code: &str) -> (r: bool)
    ensures
        r == is_code(code@),
{
    let v = to_chars(code);
    if v.len() != CODE_LENGTH {
        return false;
    }
    let mut i: usize = 0;
    while i < v.len()
        invariant
            i <= v.len(),
            v@ == code@,
            forall|j: int| 0 <= j < i ==> is_code_char(#[trigger] v@[j]),
        decreases v.len() - i,
    {
        let c = v[i];
        let ok = ('0' <= c && c <= '9') || ('a' <= c && c <= 'z') || ('A' <= c && c <= 'Z') || c
            == '_' || c == '-';
        if !ok {
            proof {
                assert(!is_code_char(code@[i as int]));
            }
            return false;
        }
        i = i + 1;
    }
    true
}

/// A fresh random short code. It is not checked against any store: the
/// store refuses a code that it already holds.
pub fn generate_code() -> (code: String)
    ensures
        is_code(code@),
{
    nanoid_safe(CODE_LENGTH)
}

/// A fresh random identifier for a stored file.
pub fn generate_file_id() -> (id: String)
    ensures
        is_hyphenated_id(id@),
{
    uuid_v4()
}

/// A random token of `len` letters and digits.
pub fn generate_token(len: usize) -> (token: String)
    ensures
        token@.len() == len,
        is_token(token@),
{
    let mut out: Vec<char> = Vec::new();
    while out.len() < len
        invariant
            out.len() <= len,
            is_token(out@),
        decreases len - out.len(),
    {
        let b = random_alphanumeric();
        out.push(b as char);
    }
    from_chars(&out)
}

} // verus!
