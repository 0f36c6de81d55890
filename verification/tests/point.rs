use enclave_demos::json_text::{json_usize_parse, json_usize_text};
use enclave_demos::point::{serde_demo, Point};
use std::collections::BTreeMap;

#[test]
fn point_to_json_is_compact_object() {
    let p = Point { x: 1, y: 2 };
    assert_eq!(p.to_json(), "{\"x\":1,\"y\":2}");
}

#[test]
fn point_to_json_large_coordinates() {
    let p = Point { x: 0, y: usize::MAX };
    assert_eq!(p.to_json(), format!("{{\"x\":0,\"y\":{}}}", usize::MAX));
}

#[test]
fn point_json_roundtrip() {
    for (x, y) in [(0, 0), (1, 2), (10, 7), (123456789, 987654321), (usize::MAX, 1)] {
        let p = Point { x, y };
        assert_eq!(Point::from_json(&p.to_json()), Some(p));
    }
}

#[test]
fn point_json_matches_serde_json() {
    let p = Point { x: 31, y: 4159 };
    let mut map: BTreeMap<&str, usize> = BTreeMap::new();
    map.insert("x", 31);
    map.insert("y", 4159);
    assert_eq!(serde_json::to_string(&map).unwrap(), p.to_json());
    let back: BTreeMap<String, usize> = serde_json::from_str(&p.to_json()).unwrap();
    assert_eq!(back["x"], 31);
    assert_eq!(back["y"], 4159);
}

#[test]
fn point_from_json_whitespace_around_numbers() {
    assert_eq!(Point::from_json("{\"x\": 5 ,\"y\":\t6\n}"), Some(Point { x: 5, y: 6 }));
}

#[test]
fn point_from_json_refuses_other_text() {
    assert_eq!(Point::from_json(""), None);
    assert_eq!(Point::from_json("{\"x\":1}"), None);
    assert_eq!(Point::from_json("{\"y\":2,\"x\":1}"), None);
    assert_eq!(Point::from_json("{\"x\":01,\"y\":2}"), None);
    assert_eq!(Point::from_json("{\"x\":-1,\"y\":2}"), None);
    assert_eq!(Point::from_json("{\"x\":1.0,\"y\":2}"), None);
    assert_eq!(Point::from_json("{\"x\":1,\"y\":2} "), None);
    assert_eq!(Point::from_json(" {\"x\":1,\"y\":2}"), None);
    assert_eq!(Point::from_json("{\"x\":1,\"y\":18446744073709551616}"), None);
    assert_eq!(Point::from_json("{\"x\":,\"y\":2}"), None);
}

#[test]
fn serde_demo_round_trips() {
    let demo = serde_demo(3, 4);
    assert_eq!(demo.serialized, "{\"x\":3,\"y\":4}");
    assert_eq!(demo.deserialized, Point { x: 3, y: 4 });
}

#[test]
fn json_usize_text_is_decimal() {
    assert_eq!(json_usize_text(0), "0");
    assert_eq!(json_usize_text(123), "123");
    assert_eq!(json_usize_text(usize::MAX), usize::MAX.to_string());
}

#[test]
fn json_usize_parse_reads_numbers() {
    assert_eq!(json_usize_parse("42"), Some(42));
    assert_eq!(json_usize_parse(" \t42\r\n"), Some(42));
    assert_eq!(json_usize_parse("0"), Some(0));
    assert_eq!(json_usize_parse("18446744073709551615"), Some(18446744073709551615));
}

#[test]
fn json_usize_parse_refuses_non_numbers() {
    assert_eq!(json_usize_parse(""), None);
    assert_eq!(json_usize_parse(" "), None);
    assert_eq!(json_usize_parse("4 2"), None);
    assert_eq!(json_usize_parse("007"), None);
    assert_eq!(json_usize_parse("-0"), None);
    assert_eq!(json_usize_parse("1e2"), None);
    assert_eq!(json_usize_parse("+1"), None);
    assert_eq!(json_usize_parse("18446744073709551616"), None);
}
