//! Salted password digests.

use vstd::prelude::*;
use vstd::utf8::encode_utf8;
use crate::text::from_chars;

verus! {

/// The SHA-256 digest of `data`.
pub uninterp spec fn sha256(data: Seq<u8>) -> Seq<u8>;

/// The small hexadecimal digit of `n`, for `n` below 16.
pub open spec fn lower_hex_digit(n: int) -> char {
    if n < 10 {
        (0x30 + n) as u8 as char
    } else {
        (0x61 + n - 10) as u8 as char
    }
}

/// `data` in small hexadecimal digits, two for each byte, high half first.
pub open spec fn hex_lower(data: Seq<u8>) -> Seq<char>
    decreases data.len(),
{
    if data.len() == 0 {
        Seq::empty()
    } else {
        hex_lower(data.drop_last()) + seq![
            lower_hex_digit(data.last() as int / 16),
            lower_hex_digit(data.last() as int % 16),
        ]
    }
}

/// The digest that stands for `password` under `salt`: SHA-256 over the
/// bytes of the salt followed by those of the password, in hexadecimal.
pub open spec fn salted_hash(password: Seq<char>, salt: Seq<char>) -> Seq<char> {
    hex_lower(sha256(encode_utf8(salt) + encode_utf8(password)))
}

/// Calls `sha2::Sha256::digest`: the SHA-256 digest of `data`.
#[verifier::external_body]
fn sha256_digest(data: &[u8]) -> (digest: Vec<u8>)
    ensures
        digest@ == sha256(data@),
{
    <sha2::Sha256 as sha2::Digest>::digest(data).to_vec()
}

/// The small hexadecimal digit of `n`.
fn lower_digit(n: u8) -> (c: char)
    requires
        n < 16,
    ensures
        c == lower_hex_digit(n as int),
{
    if n < 10 {
        (0x30 + n) as char
    } else {
        (0x57 + n) as char
    }
}

/// `data` in small hexadecimal digits, two for each byte.
pub fn hex_encode(data: &[u8]) -> (text: String)
    ensures
        text@ == hex_lower(data@),
{
    let mut out: Vec<char> = Vec::new();
    let mut i: usize = 0;
    while i < data.len()
        invariant
            i <= data.len(),
            out@ == hex_lower(data@.subrange(0, i as int)),
        decreases data.len() - i,
    {
        let b = data[i];
        let ghost before = out@;
        out.push(lower_digit(b / 16));
        out.push(lower_digit(b % 16));
        i = i + 1;
        proof {
            let t = data@.subrange(0, i as int);
            assert(t.drop_last() =~= data@.subrange(0, i - 1));
            assert(t.last() == b);
            assert(out@ =~= before + seq![
                lower_hex_digit(b as int / 16),
                lower_hex_digit(b as int % 16),
            ]);
        }
    }
    proof {
        assert(data@.subrange(0, data.len() as int) =~= data@);
    }
    from_chars(&out)
}

/// The digest under which `password` is stored and compared, for `salt`.
pub fn hash_with_salt(password: &str, salt: &str) -> (hash: String)
    ensures
        hash@ == salted_hash(password@, salt@),
{
    let mut data: Vec<u8> = Vec::new();
    data.extend_from_slice(salt.as_bytes());
    data.extend_from_slice(password.as_bytes());
    proof {
        assert(data@ =~= encode_utf8(salt@) + encode_utf8(password@));
    }
    let digest = sha256_digest(data.as_slice());
    hex_encode(digest.as_slice())
}

} // verus!
