//! Texts, numbers, identifiers, addresses and documents.

use vexa_vm::ids::{
    canonical_uuid, checked_time, current_unix_time, new_id, parse_uuid, saturated_time,
    unix_timestamp, uuid_string, ClockError,
};
use vexa_vm::json::Document;
use vexa_vm::net::{
    canonical_ip, canonical_optional_ip, contains, family_for_ip, ip_string, net_string,
    networks_overlap, normalize_dns_addresses, parse_ip, parse_net, truncate, validate_prefix,
    AddressFamily,
};
use vexa_vm::numbers::{decimal, parse_hex_u16, parse_u32, parse_u64, parse_unsigned, NumberError};
use vexa_vm::paths::{is_directly_in, is_same_path, last_name, names_of_path, starts_at_root};
use vexa_vm::text::{
    alphanumeric, byte_length, control, digit, first_word, in_order, join3, lines, split,
    split_once, to_ascii_lowercase, trim, whitespace, width, words,
};

fn doc(text: &str) -> Document {
    Document::parse(text.as_bytes()).unwrap()
}

#[test]
fn paths_are_compared_as_the_standard_library_does() {
    let paths = [
        "", ".", "/", "//", "a", "a/", "./a", "/a", "//a", "/./a", "a/b", "a//b", "a/./b", "a/b/.",
        "a/../b", "..", "../a", "/..", "./", "./.", "././a", "a/.b", "a/b/", "/a//b/",
    ];
    for a in paths {
        for b in paths {
            let same = std::path::Path::new(a) == std::path::Path::new(b);
            assert_eq!(is_same_path(a, b), same, "{a:?} {b:?}");
            let inside = std::path::Path::new(a).parent() == Some(std::path::Path::new(b));
            assert_eq!(is_directly_in(a, b), inside, "{a:?} {b:?}");
        }
        assert_eq!(starts_at_root(a), std::path::Path::new(a).has_root(), "{a:?}");
    }
    assert_eq!(names_of_path("/opt//x/./y/"), vec!["opt", "x", "y"]);
    assert_eq!(names_of_path("./x"), vec![".", "x"]);
    assert_eq!(last_name("/opt//x/").as_deref(), Some("x"));
    assert_eq!(last_name("//"), None);
}

#[test]
fn characters_are_classed_as_the_standard_library_does() {
    for n in 0..=0x10ffff_u32 {
        if let Some(c) = char::from_u32(n) {
            assert_eq!(whitespace(c), c.is_whitespace(), "{n:x}");
            assert_eq!(control(c), c.is_control(), "{n:x}");
            assert_eq!(width(c), c.len_utf8(), "{n:x}");
            assert_eq!(digit(c), c.is_ascii_digit(), "{n:x}");
            assert_eq!(alphanumeric(c), c.is_ascii_alphanumeric(), "{n:x}");
        }
    }
}

#[test]
fn texts_are_cut_as_the_standard_library_does() {
    for text in ["", " ", "a b", "  a\t b\u{a0}c \n", "a\r\nb\n\nc", "\n", "a\n", "é ✓\r", "x\r", "ÄbC Z"] {
        assert_eq!(trim(text), text.trim());
        assert_eq!(lines(text), text.lines().collect::<Vec<_>>());
        assert_eq!(words(text, false), text.split_whitespace().collect::<Vec<_>>());
        assert_eq!(words(text, true), text.split_ascii_whitespace().collect::<Vec<_>>());
        assert_eq!(first_word(text).as_deref(), text.split_whitespace().next());
        assert_eq!(split(text, 'a'), text.split('a').collect::<Vec<_>>());
        assert_eq!(byte_length(text), text.len());
        assert_eq!(to_ascii_lowercase(text), text.to_ascii_lowercase());
        let pair = split_once(text, ' ');
        let expected = text.split_once(' ').map(|(a, b)| (a.to_owned(), b.to_owned()));
        assert_eq!(pair, expected);
        for other in ["", "a", "a\n", "é", "zz"] {
            assert_eq!(in_order(text, other), text <= other, "{text:?} {other:?}");
        }
    }
    assert_eq!(join3("a", "-", "b"), "a-b");
}

#[test]
fn numbers_are_read_as_the_standard_library_does() {
    for text in [
        "", "0", "7", "+7", "-7", "007", "18446744073709551615", "18446744073709551616",
        "4294967295", "4294967296", "1e3", "+", "ffff", "10000", "FfFf", " 1",
    ] {
        assert_eq!(parse_u64(text), text.parse::<u64>().ok(), "{text}");
        assert_eq!(parse_u32(text), text.parse::<u32>().ok(), "{text}");
        assert_eq!(parse_hex_u16(text), u16::from_str_radix(text, 16).ok(), "{text}");
    }
    assert_eq!(parse_unsigned("", 10, 9), Err(NumberError::Empty));
    assert_eq!(parse_unsigned("x", 10, 9), Err(NumberError::InvalidDigit));
    assert_eq!(parse_unsigned("10", 10, 9), Err(NumberError::Overflow));
    assert_eq!(parse_unsigned("9", 10, 9), Ok(9));
    assert_eq!(parse_unsigned("10x", 10, 9), Err(NumberError::Overflow));
    assert_eq!(parse_unsigned("9x9", 10, 9), Err(NumberError::InvalidDigit));
    for text in [
        "99999999999999999999x", "9999999999999999999x", "18446744073709551616 ",
        "1844674407370955161x6", "+", "-1", "", "00000000000000000000000001x",
    ] {
        let expected = text.parse::<u64>().unwrap_err().to_string();
        assert_eq!(parse_unsigned(text, 10, u64::MAX).unwrap_err().message(), expected, "{text}");
    }
    assert_eq!(decimal(0), "0");
    assert_eq!(decimal(u64::MAX), u64::MAX.to_string());
}

#[test]
fn identifiers_are_uuids() {
    let text = "6f9619ff-8b86-4d01-b42d-00c04fc964ff";
    let value = parse_uuid(text).unwrap();
    assert_eq!(value, 0x6f9619ff_8b86_4d01_b42d_00c04fc964ff);
    assert_eq!(uuid_string(value), text);
    assert_eq!(parse_uuid(&text.to_uppercase()), Some(value));
    assert_eq!(parse_uuid("{6f9619ff"), None);
    assert!(canonical_uuid(text));
    assert!(!canonical_uuid(&text.to_uppercase()));
    let fresh = new_id();
    assert!(canonical_uuid(&fresh));
    assert_ne!(fresh, new_id());
    assert_eq!(fresh.as_bytes()[14], b'4');
    assert!(b"89ab".contains(&fresh.as_bytes()[19]));
}

#[test]
fn the_clock_is_checked() {
    assert_eq!(checked_time(Some(5)), Ok(5));
    assert_eq!(checked_time(None), Err(ClockError::BeforeEpoch));
    assert_eq!(checked_time(Some(u64::MAX)), Err(ClockError::OutsideRange));
    assert_eq!(saturated_time(Some(5)), 5);
    assert_eq!(saturated_time(Some(u64::MAX)), i64::MAX);
    assert_eq!(saturated_time(None), 0);
    let now = current_unix_time().unwrap();
    assert!(now > 1_600_000_000);
    assert!((unix_timestamp() - now).abs() <= 5);
}

#[test]
fn addresses_are_written_canonically() {
    assert_eq!(canonical_ip("2001:0db8::1"), Ok("2001:db8::1".to_owned()));
    assert_eq!(canonical_ip("192.0.2.1"), Ok("192.0.2.1".to_owned()));
    assert!(canonical_ip("192.0.2.256").is_err());
    let ip = parse_ip("::ffff:1.2.3.4").unwrap();
    assert!(ip.v6);
    assert_eq!(parse_ip(&ip_string(ip)), Some(ip));
    assert_eq!(family_for_ip(ip), AddressFamily::V6);
    assert_eq!(AddressFamily::from_i64(4), Some(AddressFamily::V4));
    assert_eq!(AddressFamily::from_i64(6), Some(AddressFamily::V6));
    assert_eq!(AddressFamily::from_i64(5), None);
    assert_eq!(canonical_optional_ip(&None, None), Ok(None));
    let four = Some("10.0.0.1".to_owned());
    assert_eq!(canonical_optional_ip(&four, Some(AddressFamily::V4)), Ok(four.clone()));
    assert!(canonical_optional_ip(&four, Some(AddressFamily::V6)).is_err());
    assert!(validate_prefix(AddressFamily::V4, 32).is_ok());
    assert!(validate_prefix(AddressFamily::V4, 33).is_err());
    assert!(validate_prefix(AddressFamily::V6, 128).is_ok());
    assert!(validate_prefix(AddressFamily::V6, 129).is_err());
}

#[test]
fn networks_hold_addresses() {
    let net = parse_net("192.0.2.77/24").unwrap();
    assert_eq!(net_string(truncate(net)), "192.0.2.0/24");
    assert!(contains(net, parse_ip("192.0.2.255").unwrap()));
    assert!(!contains(net, parse_ip("192.0.3.0").unwrap()));
    assert!(!contains(net, parse_ip("::1").unwrap()));
    assert!(contains(parse_net("::/0").unwrap(), parse_ip("2001:db8::").unwrap()));
    let half = parse_net("192.0.2.128/25").unwrap();
    let other = parse_net("192.0.2.0/25").unwrap();
    assert!(networks_overlap(net, half) && networks_overlap(half, net));
    assert!(!networks_overlap(half, other));
    assert!(parse_net("192.0.2.0/33").is_none());
    assert!(parse_net("192.0.2.0").is_none());
    for text in ["10.0.0.0/8", "2001:db8::/32"] {
        let expected: ipnet::IpNet = text.parse().unwrap();
        assert_eq!(net_string(parse_net(text).unwrap()), expected.to_string());
    }
}

#[test]
fn name_servers_are_distinct_and_few() {
    let list = |items: &[&str]| -> Vec<String> { items.iter().map(|s| s.to_string()).collect() };
    assert_eq!(
        normalize_dns_addresses(&list(&["9.9.9.9", "2001:0db8::1", "2001:db8::1", "9.9.9.9"])),
        Ok(list(&["9.9.9.9", "2001:db8::1"]))
    );
    assert!(normalize_dns_addresses(&list(&["name.example"])).is_err());
    let many: Vec<String> = (0..40).map(|n| format!("10.0.0.{n}")).collect();
    assert!(normalize_dns_addresses(&many).is_err());
}

#[test]
fn documents_are_json() {
    let mut d = doc(r#"{"a": "x", "b": true, "c": 7, "d": [1, "y"], "e": null}"#);
    assert_eq!(d.text_member("a").as_deref(), Some("x"));
    assert_eq!(d.text_member("b"), None);
    assert_eq!(d.truth_member("b"), Some(true));
    assert_eq!(d.unsigned_member("c"), Some(7));
    assert_eq!(d.member("d").unwrap().elements().len(), 2);
    assert!(d.member("e").unwrap().is_null());
    assert!(d.has("e") && !d.has("f"));
    assert!(d.extract_is("a", "x") && !d.extract_is("a", "y"));
    assert!(d.extract_is_absent("e") && d.extract_is_absent("f"));
    assert!(!d.extract_is_absent("c") && !d.extract_is("c", "7"));
    d.set("a", Document::text("z"));
    d.unset("d");
    assert!(d.same(&doc(r#"{"e": null, "c": 7, "b": true, "a": "z"}"#)));
    assert!(!d.same(&doc("{}")));
    let mut merged = doc(r#"{"a": 1, "b": 2}"#);
    merged.merge(&doc(r#"{"b": 3, "c": 4}"#));
    assert!(merged.same(&doc(r#"{"a": 1, "b": 3, "c": 4}"#)));
    assert!(Document::parse(b"{").is_none());
    assert!(Document::object().is_object() && !Document::truth(true).is_object());
    let texts = Document::texts(&vec!["p".to_owned(), "q".to_owned()]);
    assert!(texts.same(&doc(r#"["p", "q"]"#)));
    assert!(texts.elements()[1].same(&Document::text("q")));
    assert!(d.clone().same(&d));
    assert_eq!(d.value()["c"], 7);
}
