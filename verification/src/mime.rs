//! Media types by file extension.

use vstd::prelude::*;

verus! {

/// The first media type that the table of `mime_guess` holds for the
/// extension `ext`, whatever the case of its letters; `None` where it holds
/// none.
pub uninterp spec fn first_media_type(ext: Seq<char>) -> Option<Seq<char>>;

/// The media type under which a file of extension `ext` is announced:
/// `application/octet-stream` where the table knows none.
pub open spec fn media_type(ext: Seq<char>) -> Seq<char> {
    match first_media_type(ext) {
        Some(m) => m,
        None => "application/octet-stream"@,
    }
}

/// Calls `mime_guess::from_ext` and takes the first guess as text.
#[verifier::external_body]
fn guess_first(ext: &str) -> (r: Option<String>)
    ensures
        match r {
            Some(m) => first_media_type(ext@) == Some(m@),
            None => first_media_type(ext@) is None,
        },
{
    match mime_guess::from_ext(ext).first_raw() {
        Some(m) => Some(m.to_string()),
        None => None,
    }
}

/// The media type under which a file of extension `ext` is announced.
pub fn media_type_of(ext: &str) -> (m: String)
    ensures
        m@ == media_type(ext@),
{
    match guess_first(ext) {
        Some(m) => m,
        None => String::from_str("application/octet-stream"),
    }
}

} // verus!
