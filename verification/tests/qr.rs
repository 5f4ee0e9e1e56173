use ping0::qr::{data_url, percent_encode, render, render_link, try_render, QR_MIN_SIDE};

fn direct(text: &str) -> String {
    qrcode::QrCode::new(text.as_bytes())
        .map(|c| {
            c.render::<qrcode::render::svg::Color>()
                .min_dimensions(320, 320)
                .quiet_zone(true)
                .dark_color(qrcode::render::svg::Color("#000000"))
                .light_color(qrcode::render::svg::Color("#ffffff"))
                .build()
        })
        .unwrap_or_default()
}

#[test]
fn image_is_svg_in_black_on_white() {
    let svg = render("https://0.id.vn/s/abcdefgh");
    assert!(svg.starts_with("<?xml version=\"1.0\" standalone=\"yes\"?><svg "));
    assert!(svg.ends_with("\"/></svg>"));
    assert!(svg.contains("fill=\"#ffffff\""));
    assert!(svg.contains("fill=\"#000000\""));
    assert_ne!(svg, "https://0.id.vn/s/abcdefgh");
    assert_eq!(QR_MIN_SIDE, 320);
}

#[test]
fn image_is_at_least_the_least_size() {
    let svg = render("x");
    let at = svg.find("width=\"").unwrap() + 7;
    let end = svg[at..].find('"').unwrap() + at;
    let width: u32 = svg[at..end].parse().unwrap();
    assert!(width >= 320);
    assert!(width < 400);
}

#[test]
fn image_depends_on_the_text_alone() {
    assert_eq!(render("https://a.b/s/1"), render("https://a.b/s/1"));
    assert_ne!(render("https://a.b/s/1"), render("https://a.b/s/2"));
    assert_eq!(render("https://a.b/s/1"), direct("https://a.b/s/1"));
    assert_eq!(try_render("héllo"), Some(direct("héllo")));
}

#[test]
fn text_too_long_gives_no_image() {
    let long = "a".repeat(8000);
    assert_eq!(try_render(&long), None);
    assert_eq!(render(&long), "");
}

#[test]
fn link_is_made_absolute_first() {
    assert_eq!(render_link("https://0.id.vn/", "/s/abcdefgh"), render("https://0.id.vn/s/abcdefgh"));
    assert_eq!(render_link("https://0.id.vn", "https://other/s/x"), render("https://other/s/x"));
    assert_ne!(render_link("https://0.id.vn", "s/x"), render("s/x"));
}

#[test]
fn data_address_is_percent_encoded() {
    assert_eq!(data_url(""), "data:image/svg+xml;utf8,");
    assert_eq!(data_url("aZ09-._~"), "data:image/svg+xml;utf8,aZ09-._~");
    assert_eq!(data_url("<a b=\"c\"/>"), "data:image/svg+xml;utf8,%3Ca%20b%3D%22c%22%2F%3E");
    assert_eq!(data_url("é"), "data:image/svg+xml;utf8,%C3%A9");
    assert_eq!(data_url("%"), "data:image/svg+xml;utf8,%25");
    let svg = render("x");
    assert_eq!(data_url(&svg), format!("data:image/svg+xml;utf8,{}", urlencoding::encode(&svg)));
}

#[test]
fn percent_encoding_of_every_byte() {
    assert_eq!(percent_encode(""), "");
    assert_eq!(percent_encode("hello!"), "hello%21");
    assert_eq!(percent_encode("a b/c?d=e&f"), "a%20b%2Fc%3Fd%3De%26f");
    assert_eq!(percent_encode("\u{0}\u{7f}"), "%00%7F");
    assert_eq!(percent_encode("日本"), "%E6%97%A5%E6%9C%AC");
    let ascii: String = (0u8..128).map(|b| b as char).collect();
    assert_eq!(percent_encode(&ascii), urlencoding::encode(&ascii));
    let wide = "ÿĀ߿ࠀ\u{ffff}\u{10000}\u{10ffff}";
    assert_eq!(percent_encode(wide), urlencoding::encode(wide));
}
