use snip::error::SnipError;
use snip::ident::{is_canonical_str, Identifier};

const ID: &str = "9cfc5a2d-2946-48ee-82e0-227ba4bcdbd5";

#[test]
fn parse_then_format_gives_the_text() {
    let id = Identifier::parse(ID).unwrap();
    assert_eq!(id.format(), ID);
    assert_eq!(id.bytes[0], 0x9c);
    assert_eq!(id.bytes[15], 0xd5);
}

#[test]
fn format_of_known_bytes() {
    let id = Identifier::from_bytes([0, 1, 2, 3, 4, 5, 6, 7, 8, 9, 10, 11, 12, 13, 14, 255]);
    assert_eq!(id.format(), "00010203-0405-0607-0809-0a0b0c0d0eff");
}

#[test]
fn parse_rejects_other_forms() {
    for s in [
        "9CFC5A2D-2946-48EE-82E0-227BA4BCDBD5",
        "9cfc5a2d294648ee82e0227ba4bcdbd5",
        "{9cfc5a2d-2946-48ee-82e0-227ba4bcdbd5}",
        "9cfc5a2d-2946-48ee-82e0-227ba4bcdbd",
        "9cfc5a2d-2946-48ee-82e0_227ba4bcdbd5",
        "9cfc5a2d-2946-48ee-82e0-227ba4bcdbdg",
        "",
    ] {
        assert_eq!(
            Identifier::parse(s),
            Err(SnipError::MalformedIdentifier(s.to_string()))
        );
        assert!(!is_canonical_str(s));
    }
    assert!(is_canonical_str(ID));
}

#[test]
fn segments_split_on_separators() {
    let id = Identifier::parse(ID).unwrap();
    assert_eq!(id.segments(), vec!["9cfc5a2d", "2946", "48ee", "82e0", "227ba4bcdbd5"]);
}

#[test]
fn new_identifiers_are_version_four_and_round_trip() {
    let a = Identifier::new();
    let b = Identifier::new();
    assert_ne!(a, b);
    let text = a.format();
    assert_eq!(&text[14..15], "4");
    assert_eq!(Identifier::parse(&text), Ok(a));
}
