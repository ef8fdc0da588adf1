use luau_lifter::ast::LocalNames;
use luau_lifter::naming::apply_name;
use luau_lifter::server::{decode_request_body, request_bytecode, ServerError};
use luau_lifter::text::{bytes_equal, identifier_from_bytes, push_decimal, starts_like_name, utf8_string};
use rustc_hash::FxHashMap;

#[test]
fn decimal_numerals() {
    for (n, text) in [(0usize, "0"), (7, "7"), (10, "10"), (12345, "12345"), (100, "100")] {
        let mut s = String::from("x");
        push_decimal(&mut s, n);
        assert_eq!(s, format!("x{}", text));
    }
    let mut s = String::new();
    push_decimal(&mut s, usize::MAX);
    assert_eq!(s, usize::MAX.to_string());
}

#[test]
fn identifiers_from_bytes() {
    assert_eq!(identifier_from_bytes(b"Players"), Some("Players".to_string()));
    assert_eq!(identifier_from_bytes(b"a-b"), None);
    assert_eq!(identifier_from_bytes(b""), None);
    assert_eq!(identifier_from_bytes(&[0xc3, 0x28]), None);
    assert_eq!(identifier_from_bytes("名前".as_bytes()), Some("名前".to_string()));
    assert_eq!(utf8_string(b""), Some(String::new()));
    assert_eq!(utf8_string(&[0x80]), None);
    assert!(starts_like_name(&"_a".to_string()));
    assert!(!starts_like_name(&"9a".to_string()));
    assert!(!starts_like_name(&String::new()));
    assert!(bytes_equal(b"abc", b"abc"));
    assert!(!bytes_equal(b"abc", b"abd"));
    assert!(!bytes_equal(b"abc", b"ab"));
}

#[test]
fn apply_name_numbers_repeats() {
    let mut used: FxHashMap<String, usize> = FxHashMap::default();
    let mut names = LocalNames::new();
    apply_name(&mut used, &mut names, 1, "Part".to_string());
    apply_name(&mut used, &mut names, 2, "Part".to_string());
    apply_name(&mut used, &mut names, 3, "Other".to_string());
    apply_name(&mut used, &mut names, 1, "Part".to_string());
    assert_eq!(names.get(&1).map(|s| s.as_str()), Some("Part_3"));
    assert_eq!(names.get(&2).map(|s| s.as_str()), Some("Part_2"));
    assert_eq!(names.get(&3).map(|s| s.as_str()), Some("Other"));
    assert_eq!(used.get("Part"), Some(&3));
    assert_eq!(used.get("Other"), Some(&1));
}

#[test]
fn request_bodies_decode_from_base64() {
    let decoded = decode_request_body(b"aGVsbG8=").ok().unwrap();
    assert_eq!(decoded, b"hello".to_vec());
    let empty = decode_request_body(b"").ok().unwrap();
    assert!(empty.is_empty());
    match decode_request_body(b"not base64!") {
        Err(e) => {
            assert!(matches!(e, ServerError::Base64(_)));
            assert_eq!(e.status_code(), 400);
        },
        Ok(_) => panic!("decoded invalid Base64"),
    }
    match decode_request_body(b"aGVsbG8") {
        Err(ServerError::Base64(_)) => {},
        _ => panic!("decoded Base64 without padding"),
    }
}

#[test]
fn status_codes() {
    let io = ServerError::Io(std::io::Error::new(std::io::ErrorKind::Other, "boom"));
    assert_eq!(io.status_code(), 500);
    let e = request_bytecode(Err(base64::DecodeError::InvalidPadding));
    assert!(matches!(e, Err(ServerError::Base64(base64::DecodeError::InvalidPadding))));
    let ok = request_bytecode(Ok(vec![1, 2, 3]));
    assert_eq!(ok.ok(), Some(vec![1, 2, 3]));
}
