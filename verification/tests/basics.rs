//! Texts, documents, orders and paths.
use service::json::{from_value, parse_json, Json};
use service::order::{bytes_less, order_by_name};
use service::os_path::lies_below;
use service::paths::{path_extension, path_is_absolute, path_parts, push_name};
use service::text::{
    chars_of, decimal, join, lower_text, same_text, split_text, starts_with, trim_end,
    trim_start,
};

#[test]
fn numbers_are_written_in_decimal() {
    assert_eq!(decimal(0), "0");
    assert_eq!(decimal(10), "10");
    assert_eq!(decimal(u64::MAX), "18446744073709551615");
}

#[test]
fn texts_are_taken_apart_and_put_together() {
    assert_eq!(chars_of("aé"), vec!['a', 'é']);
    assert_eq!(split_text("/a//b", '/'), vec!["", "a", "", "b"]);
    assert_eq!(split_text("", '/'), vec![""]);
    assert_eq!(join(&vec!["a".to_string(), "b".to_string()], ", "), "a, b");
    assert_eq!(join(&vec![], ", "), "");
    assert_eq!(trim_end("a//", '/'), "a");
    assert_eq!(trim_start("//a/", '/'), "a/");
    assert_eq!(trim_end("///", '/'), "");
    assert_eq!(lower_text("ÀAzZ[`"), "Àazz[`");
    assert!(starts_with("http://x", "http://") && !starts_with("http", "http://"));
    assert!(same_text("é", "é") && !same_text("a", "b") && !same_text("a", "ab"));
}

#[test]
fn documents_are_read() {
    let json = parse_json(r#"{"b":true,"n":3,"m":-1,"f":1.5,"t":"x","a":["p",1,"q"],"z":null}"#)
        .expect("a document");
    assert_eq!(json.bool_at("b"), Some(true));
    assert_eq!(json.number_at("n"), Some(3));
    assert_eq!(json.number_at("m"), None);
    assert_eq!(json.number_at("f"), None);
    assert_eq!(json.text_at("t").map(|s| s.as_str()), Some("x"));
    assert_eq!(json.text_at("b"), None);
    let (texts, count) = json.texts_at("a").expect("an array");
    assert_eq!((texts, count), (vec!["p".to_string(), "q".to_string()], 3));
    assert!(matches!(json.member("z"), Some(Json::Null)));
    assert!(json.member("y").is_none());
    assert!(parse_json("[1").is_err());
    assert!(matches!(
        from_value(serde_json::Value::Bool(false)),
        Json::Bool(false)
    ));
    // The last member of a name counts.
    assert_eq!(
        parse_json(r#"{"k":1,"k":2}"#).expect("a document").number_at("k"),
        Some(2)
    );
}

#[test]
fn names_are_ordered_by_their_bytes() {
    assert!(bytes_less(b"a", b"ab") && bytes_less(b"Z", b"a") && !bytes_less(b"a", b"a"));
    let names: Vec<Vec<u8>> =
        ["b", "a", "", "b", "aa"].iter().map(|n| n.as_bytes().to_vec()).collect();
    assert_eq!(order_by_name(&names), vec![2, 1, 4, 0, 3]);
    assert!(order_by_name(&vec![]).is_empty());
    // A long list, backwards.
    let names: Vec<Vec<u8>> = (0..1000u32).rev().map(|n| n.to_be_bytes().to_vec()).collect();
    let order = order_by_name(&names);
    assert_eq!(order, (0..1000usize).rev().collect::<Vec<_>>());
}

#[test]
fn paths_have_parts() {
    assert_eq!(path_parts("./a//b/../c/."), vec!["a", "b", "..", "c"]);
    assert!(path_is_absolute("/a") && !path_is_absolute("a"));
    assert_eq!(push_name("/a", "b"), "/a/b");
    assert_eq!(push_name("/a/", "b"), "/a/b");
    assert_eq!(push_name("", "b"), "b");
    assert_eq!(path_extension("x/a.b.c").as_deref(), Some("c"));
    assert_eq!(path_extension("x/.hidden"), None);
    let below = |path: &str, root: &str| {
        lies_below(&path.as_bytes().to_vec(), &root.as_bytes().to_vec())
    };
    assert!(below("/a/b", "/a") && below("/a", "/a/") && below("a/b", "a"));
    assert!(!below("/ab", "/a") && !below("a", "/a") && !below("./a", "a"));
}
