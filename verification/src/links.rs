//! The addresses that the service hands out: short links, file links, and
//! the absolute form of either.

use vstd::prelude::*;
use crate::text::{
    from_chars, occurs_at, push_all, push_str, starts_with, to_chars, trim_end, trim_start,
    without_leading, without_trailing,
};

verus! {

/// `url` begins with `http://` or `https://`.
pub open spec fn is_http_url(url: Seq<char>) -> bool {
    occurs_at(url, "http://"@, 0) || occurs_at(url, "https://"@, 0)
}

/// `url` as an absolute address: itself where it names its scheme, else
/// joined to `base` by exactly one slash.
pub open spec fn absolute(base: Seq<char>, url: Seq<char>) -> Seq<char> {
    if is_http_url(url) {
        url
    } else {
        without_trailing(base, '/') + seq!['/'] + without_leading(url, '/')
    }
}

/// The public address of the short code `code`.
pub open spec fn short_link_of(base: Seq<char>, code: Seq<char>) -> Seq<char> {
    base + "/s/"@ + code
}

/// The public address of the stored file `name`.
pub open spec fn file_url_of(base: Seq<char>, name: Seq<char>) -> Seq<char> {
    base + "/files/"@ + name
}

/// Whether `url` begins with `http://` or `https://`.
pub fn is_http(url: &str) -> (r: bool)
    ensures
        r == is_http_url(url@),
{
    let u = to_chars(url);
    starts_with(&u, &to_chars("http://")) || starts_with(&u, &to_chars("https://"))
}

/// `url` if it is absolute already, else `url` below `base`.
pub fn ensure_absolute(base: &str, url: &str) -> (r: String)
    ensures
        r@ == absolute(base@, url@),
{
    if is_http(url) {
        String::from_str(url)
    } else {
        let mut out = trim_end(&to_chars(base), '/');
        out.push('/');
        let tail = trim_start(&to_chars(url), '/');
        push_all(&mut out, &tail);
        from_chars(&out)
    }
}

/// The public address of the short code `code`.
pub fn short_link(base: &str, code: &str) -> (r: String)
    ensures
        r@ == short_link_of(base@, code@),
{
    let mut out = to_chars(base);
    push_str(&mut out, "/s/");
    push_str(&mut out, code);
    from_chars(&out)
}

/// The public address of the stored file `name`.
pub fn file_url(base: &str, name: &str) -> (r: String)
    ensures
        r@ == file_url_of(base@, name@),
{
    let mut out = to_chars(base);
    push_str(&mut out, "/files/");
    push_str(&mut out, name);
    from_chars(&out)
}

} // verus!
