//! The QR deriver: from an address to a scannable image, with no state.

use vstd::prelude::*;
use vstd::utf8::encode_utf8;
use crate::links::{absolute, ensure_absolute};
use crate::text::{from_chars, push_str, to_chars};

verus! {

/// The least width and height of a rendered code, in pixels.
pub const QR_MIN_SIDE: u32 = 320;

/// The SVG image that the renderer gives for the QR code of `text` at
/// medium error correction, once it was asked for at least `min_side` pixels
/// each way and then for the quiet zone or for none, in the colours `dark`
/// on `light`; `None` where `text` cannot be encoded.
pub uninterp spec fn qr_svg(
    text: Seq<char>,
    min_side: u32,
    quiet_zone: bool,
    dark: Seq<char>,
    light: Seq<char>,
) -> Option<Seq<char>>;

/// The image that the service shows for `url`: dark `#000000` on light
/// `#ffffff`; empty where the address cannot be encoded.
pub open spec fn qr_image(url: Seq<char>) -> Seq<char> {
    match qr_code(url) {
        Some(svg) => svg,
        None => Seq::empty(),
    }
}

/// `b` is written as it is in a percent-encoded text: a letter or digit of
/// ASCII, or one of `-`, `.`, `_`, `~`.
pub open spec fn is_unreserved(b: u8) -> bool {
    (0x30 <= b <= 0x39) || (0x41 <= b <= 0x5a) || (0x61 <= b <= 0x7a) || b == 0x2d || b == 0x2e
        || b == 0x5f || b == 0x7e
}

/// The capital hexadecimal digit of `n`, for `n` below 16.
pub open spec fn upper_hex_digit(n: int) -> char {
    if n < 10 {
        (0x30 + n) as u8 as char
    } else {
        (0x41 + n - 10) as u8 as char
    }
}

/// `bytes` percent-encoded: an unreserved byte as it is, any other as `%`
/// and its two capital hexadecimal digits.
pub open spec fn percent_encoded(bytes: Seq<u8>) -> Seq<char>
    decreases bytes.len(),
{
    if bytes.len() == 0 {
        Seq::empty()
    } else {
        let b = bytes.last();
        let head = percent_encoded(bytes.drop_last());
        if is_unreserved(b) {
            head.push(b as char)
        } else {
            head + seq!['%', upper_hex_digit(b as int / 16), upper_hex_digit(b as int % 16)]
        }
    }
}

/// `svg` as a `data:` address.
pub open spec fn data_url_of(svg: Seq<char>) -> Seq<char> {
    "data:image/svg+xml;utf8,"@ + percent_encoded(encode_utf8(svg))
}

/// Builds a code with `qrcode::QrCode::new` and renders it with the crate's
/// SVG renderer: the minimum size is set first, then the quiet zone, then
/// the colours. The image depends on the arguments alone; an error of the
/// encoder gives `None`.
#[verifier::external_body]
fn render_svg(text: &str, min_side: u32, quiet_zone: bool, dark: &str, light: &str) -> (r: Option<
    String,
>)
    requires
        min_side <= 0xffff,
    ensures
        match r {
            Some(svg) => qr_svg(text@, min_side, quiet_zone, dark@, light@) == Some(svg@),
            None => qr_svg(text@, min_side, quiet_zone, dark@, light@) is None,
        },
{
    match qrcode::QrCode::new(text.as_bytes()) {
        Ok(code) => Some(
            code.render::<qrcode::render::svg::Color>()
                .min_dimensions(min_side, min_side)
                .quiet_zone(quiet_zone)
                .dark_color(qrcode::render::svg::Color(dark))
                .light_color(qrcode::render::svg::Color(light))
                .build(),
        ),
        Err(_) => None,
    }
}

/// The capital hexadecimal digit of `n`.
fn upper_digit(n: u8) -> (c: char)
    requires
        n < 16,
    ensures
        c == upper_hex_digit(n as int),
{
    if n < 10 {
        (0x30 + n) as char
    } else {
        (0x37 + n) as char
    }
}

/// Whether `b` is written as it is in a percent-encoded text.
fn unreserved(b: u8) -> (r: bool)
    ensures
        r == is_unreserved(b),
{
    (0x30 <= b && b <= 0x39) || (0x41 <= b && b <= 0x5a) || (0x61 <= b && b <= 0x7a) || b == 0x2d
        || b == 0x2e || b == 0x5f || b == 0x7e
}

/// The bytes of `text` percent-encoded.
pub fn percent_encode(text: &str) -> (r: String)
    ensures
        r@ == percent_encoded(encode_utf8(text@)),
{
    let data = text.as_bytes();
    let mut out: Vec<char> = Vec::new();
    let mut i: usize = 0;
    while i < data.len()
        invariant
            i <= data.len(),
            out@ == percent_encoded(data@.subrange(0, i as int)),
        decreases data.len() - i,
    {
        let b = data[i];
        let ghost before = out@;
        if unreserved(b) {
            out.push(b as char);
        } else {
            out.push('%');
            out.push(upper_digit(b / 16));
            out.push(upper_digit(b % 16));
        }
        i = i + 1;
        proof {
            let t = data@.subrange(0, i as int);
            assert(t.drop_last() =~= data@.subrange(0, i - 1));
            assert(t.last() == b);
            if !is_unreserved(b) {
                assert(out@ =~= before + seq![
                    '%',
                    upper_hex_digit(b as int / 16),
                    upper_hex_digit(b as int % 16),
                ]);
            }
        }
    }
    proof {
        assert(data@.subrange(0, data.len() as int) =~= data@);
    }
    from_chars(&out)
}

/// The image that the service shows for `url`, with its quiet zone, where
/// it can be encoded.
pub open spec fn qr_code(url: Seq<char>) -> Option<Seq<char>> {
    qr_svg(url, QR_MIN_SIDE, true, "#000000"@, "#ffffff"@)
}

/// The QR image of `url`, or `None` where it cannot be encoded.
pub fn try_render(url: &str) -> (r: Option<String>)
    ensures
        match r {
            Some(svg) => qr_code(url@) == Some(svg@),
            None => qr_code(url@) is None,
        },
{
    render_svg(url, QR_MIN_SIDE, true, "#000000", "#ffffff")
}

/// The QR image of `url`, or the empty string where it cannot be encoded.
pub fn render(url: &str) -> (svg: String)
    ensures
        svg@ == qr_image(url@),
{
    match try_render(url) {
        Some(svg) => svg,
        None => String::new(),
    }
}

/// The QR image of `link`, made absolute below `base` first.
pub fn render_link(base: &str, link: &str) -> (svg: String)
    ensures
        svg@ == qr_image(absolute(base@, link@)),
{
    let target = ensure_absolute(base, link);
    render(target.as_str())
}

/// `svg` as a `data:` address.
pub fn data_url(svg: &str) -> (r: String)
    ensures
        r@ == data_url_of(svg@),
{
    let mut out = to_chars("data:image/svg+xml;utf8,");
    let encoded = percent_encode(svg);
    push_str(&mut out, encoded.as_str());
    from_chars(&out)
}

} // verus!
