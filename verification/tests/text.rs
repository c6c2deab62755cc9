use turborepo_cfworkers::fields::{find_header, optional_header, HeaderField};
use turborepo_cfworkers::status::Status;
use turborepo_cfworkers::text::{header_value_text, parse_u64, u64_to_decimal};

#[test]
fn parses_unsigned_numbers_like_std() {
    for text in ["0", "7", "+5", "007", "18446744073709551615", "", "+", "-1", "++1", "1 ", " 1", "18446744073709551616", "99999999999999999999999"] {
        assert_eq!(parse_u64(text.as_bytes()), text.parse::<u64>().ok(), "{text:?}");
    }
}

#[test]
fn writes_decimal_like_std() {
    for n in [0u64, 9, 10, 42, 1000, 123456789, u64::MAX] {
        assert_eq!(u64_to_decimal(n), n.to_string());
        assert_eq!(parse_u64(u64_to_decimal(n).as_bytes()), Some(n));
    }
}

#[test]
fn header_values_are_visible_ascii_or_tab() {
    assert_eq!(header_value_text(b"abc\tdef ~").as_deref(), Some("abc\tdef ~"));
    assert_eq!(header_value_text(b"").as_deref(), Some(""));
    assert_eq!(header_value_text(b"abc\x7f"), None);
    assert_eq!(header_value_text(b"\n"), None);
    assert_eq!(header_value_text("é".as_bytes()), None);
}

#[test]
fn optional_headers() {
    let headers = vec![
        HeaderField { name: "a".to_string(), value: b"1".to_vec() },
        HeaderField { name: "b".to_string(), value: b"\x00".to_vec() },
        HeaderField { name: "a".to_string(), value: b"2".to_vec() },
    ];
    assert_eq!(find_header(&headers, "a"), Some(0));
    assert_eq!(find_header(&headers, "c"), None);
    assert_eq!(optional_header(&headers, "a"), Ok(Some("1".to_string())));
    assert_eq!(optional_header(&headers, "c"), Ok(None));
    assert_eq!(optional_header(&headers, "b"), Err(Status::BadRequest));
}
