use deck_diagrams::color::{colorless_color, Color};
use deck_diagrams::encode::{encode_image, jpeg_href};
use deck_diagrams::text::{commander_url, decimal_text, element_id, element_reference, is_whitespace, slugify};
use deck_diagrams::web::image_file_name;
use std::str::FromStr;

#[test]
fn color_css_values() {
    assert_eq!(Color::White.as_str(), "rgb(245, 241, 237)");
    assert_eq!(Color::Blue.as_str(), "rgb(0, 107, 167)");
    assert_eq!(Color::Black.as_str(), "rgb(60, 55, 52)");
    assert_eq!(Color::Red.as_str(), "rgb(229, 65, 43)");
    assert_eq!(Color::Green.as_str(), "rgb(0, 108, 71)");
    assert_eq!(colorless_color(), "rgb(204.0, 194.0, 192.0)");
}

#[test]
fn color_codes_read_back() {
    assert_eq!(Color::from_code("W"), Some(Color::White));
    assert_eq!(Color::from_code("U"), Some(Color::Blue));
    assert_eq!(Color::from_code("B"), Some(Color::Black));
    assert_eq!(Color::from_code("R"), Some(Color::Red));
    assert_eq!(Color::from_code("G"), Some(Color::Green));
}

#[test]
fn color_codes_refused() {
    assert_eq!(Color::from_code(""), None);
    assert_eq!(Color::from_code("w"), None);
    assert_eq!(Color::from_code("WU"), None);
    assert_eq!(Color::from_code("C"), None);
    assert_eq!(Color::from_str("X"), Err(()));
    assert_eq!(Color::from_str("G"), Ok(Color::Green));
}

#[test]
fn slug_of_plain_name() {
    assert_eq!(slugify("Tymna the Weaver"), "tymna-the-weaver");
    assert_eq!(slugify("Kraum, Ludevic's Opus"), "kraum-ludevics-opus");
}

#[test]
fn slug_of_unusual_names() {
    assert_eq!(slugify(""), "");
    assert_eq!(slugify("A\tB\nC"), "a-b-c");
    assert_eq!(slugify("  "), "--");
    assert_eq!(slugify("\u{c9}owyn"), "\u{e9}owyn");
    assert_eq!(slugify("\u{39f}\u{394}\u{39f}\u{3a3}"), "\u{3bf}\u{3b4}\u{3bf}\u{3c2}");
    assert_eq!(slugify("a\u{3000}b"), "a-b");
}

#[test]
fn whitespace_matches_std() {
    for code in 0u32..=0x10FFFF {
        if let Some(c) = char::from_u32(code) {
            assert_eq!(is_whitespace(c), c.is_whitespace(), "char {:x}", code);
        }
    }
}

#[test]
fn url_of_pair() {
    assert_eq!(
        commander_url("tymna-the-weaver", "kraum-ludevics-opus"),
        "https://edhrec.com/commanders/tymna-the-weaver-kraum-ludevics-opus"
    );
}

#[test]
fn image_file_of_partner() {
    assert_eq!(image_file_name("Tymna the Weaver"), "Tymna the Weaver.jpg");
}

#[test]
fn base64_known_values() {
    assert_eq!(encode_image(b""), "");
    assert_eq!(encode_image(b"f"), "Zg==");
    assert_eq!(encode_image(b"fo"), "Zm8=");
    assert_eq!(encode_image(b"foo"), "Zm9v");
    assert_eq!(encode_image(b"foob"), "Zm9vYg==");
    assert_eq!(encode_image(b"fooba"), "Zm9vYmE=");
    assert_eq!(encode_image(b"foobar"), "Zm9vYmFy");
    assert_eq!(encode_image(&[0xfb, 0xff, 0xbf]), "+/+/");
}

#[test]
fn base64_length_law_on_values() {
    for n in 0..20usize {
        let bytes: Vec<u8> = (0..n).map(|i| (i * 37) as u8).collect();
        assert_eq!(encode_image(&bytes).len(), 4 * ((n + 2) / 3));
    }
}

#[test]
fn jpeg_address() {
    assert_eq!(jpeg_href("Zm9v"), "data:image/jpeg;base64,Zm9v");
}

#[test]
fn decimal_texts() {
    assert_eq!(decimal_text(0), "0");
    assert_eq!(decimal_text(7), "7");
    assert_eq!(decimal_text(10), "10");
    assert_eq!(decimal_text(1234), "1234");
    assert_eq!(decimal_text(u64::MAX), u64::MAX.to_string());
}

#[test]
fn element_names() {
    assert_eq!(element_id("x-gradient-", 12), "x-gradient-12");
    assert_eq!(element_id("y-", 0), "y-0");
    assert_eq!(element_reference("x-3"), "url(#x-3)");
}

#[test]
fn fills_differ_between_colors() {
    let all = [Color::White, Color::Blue, Color::Black, Color::Red, Color::Green];
    for a in all {
        assert_ne!(a.as_str(), colorless_color());
        for b in all {
            assert_eq!(a == b, a.as_str() == b.as_str());
        }
    }
}

#[test]
fn slugs_are_clean() {
    for name in ["Sir Kynan's, Heir\u{a0}of\u{2003}Ages", "Ishai, Ojutai Dragonspeaker", "'',,  "] {
        let slug = slugify(name);
        assert!(slug.chars().all(|c| !c.is_whitespace() && c != ',' && c != '\''), "{slug}");
        assert_eq!(slugify(&slug), slug);
    }
}

#[test]
fn element_ids_differ() {
    let ids: Vec<String> = (0..200u64).map(|i| element_id("x-", i)).collect();
    for (i, a) in ids.iter().enumerate() {
        for b in &ids[i + 1..] {
            assert_ne!(a, b);
        }
    }
}

#[test]
fn ascii_slugs_shape() {
    for name in ["Kraum, Ludevic's Opus", "HELLO World", "Thrasios, Triton Hero", "a\tB'c,D"] {
        let slug = slugify(name);
        let dropped = name.chars().filter(|&c| c == ',' || c == '\'').count();
        assert_eq!(slug.chars().count(), name.chars().count() - dropped);
        assert!(slug.is_ascii());
        assert!(!slug.chars().any(|c| c.is_ascii_uppercase() || c.is_whitespace() || c == ',' || c == '\''));
        assert_eq!(slugify(&slug), slug);
    }
    assert_eq!(slugify("HELLO World"), "hello-world");
}
