use turborepo_cfworkers::artifacts::{
    artifact_key, found_artifact_headers, object_headers, plan_upload, ObjectInfo,
};
use turborepo_cfworkers::fields::{Field, HeaderField};
use turborepo_cfworkers::status::Status;

fn header(name: &str, value: &[u8]) -> HeaderField {
    HeaderField { name: name.to_string(), value: value.to_vec() }
}

fn field(name: &str, value: &str) -> Field {
    Field { name: name.to_string(), value: value.to_string() }
}

fn pairs(fields: &[Field]) -> Vec<(String, String)> {
    fields.iter().map(|f| (f.name.clone(), f.value.clone())).collect()
}

fn owned(list: &[(&str, &str)]) -> Vec<(String, String)> {
    list.iter().map(|(n, v)| (n.to_string(), v.to_string())).collect()
}

#[test]
fn validates_artifact_hashes() {
    assert!(artifact_key("9f86d081884c7d65").is_ok());
    assert!(artifact_key("compiler-cache_key").is_ok());
    assert!(artifact_key("").is_err());
    assert!(artifact_key("../artifact").is_err());
    assert!(artifact_key(&"a".repeat(129)).is_err());
}

#[test]
fn artifact_key_prefixes_the_hash() {
    assert_eq!(artifact_key("9f86d081884c7d65").unwrap(), "artifacts/9f86d081884c7d65");
    assert_eq!(artifact_key(&"Z".repeat(128)).unwrap(), format!("artifacts/{}", "Z".repeat(128)));
}

#[test]
fn artifact_key_refuses_other_characters() {
    assert_eq!(artifact_key("abc/def").unwrap_err(), Status::BadRequest);
    assert_eq!(artifact_key("abc def").unwrap_err(), Status::BadRequest);
    assert_eq!(artifact_key("abc.def").unwrap_err(), Status::BadRequest);
    assert_eq!(artifact_key("héllo").unwrap_err(), Status::BadRequest);
    assert_eq!(artifact_key("abc\n").unwrap_err(), Status::BadRequest);
}

#[test]
fn object_headers_without_metadata_default_the_duration() {
    let object = ObjectInfo { size: 1234, etag: "\"abc\"".to_string(), metadata: vec![] };
    assert_eq!(
        pairs(&object_headers(&object)),
        owned(&[
            ("cache-control", "private, no-store"),
            ("content-length", "1234"),
            ("content-type", "application/octet-stream"),
            ("etag", "\"abc\""),
            ("x-artifact-duration", "0"),
        ])
    );
}

#[test]
fn object_headers_serve_stored_metadata_in_table_order() {
    let object = ObjectInfo {
        size: 0,
        etag: "e".to_string(),
        metadata: vec![
            field("dirty-hash", "d1"),
            field("sha", "s1"),
            field("duration", "42"),
            field("tag", "t1"),
            field("other", "ignored"),
        ],
    };
    assert_eq!(
        pairs(&object_headers(&object)),
        owned(&[
            ("cache-control", "private, no-store"),
            ("content-length", "0"),
            ("content-type", "application/octet-stream"),
            ("etag", "e"),
            ("x-artifact-duration", "42"),
            ("x-artifact-tag", "t1"),
            ("x-artifact-sha", "s1"),
            ("x-artifact-dirty-hash", "d1"),
        ])
    );
}

#[test]
fn missing_artifact_is_not_found() {
    assert_eq!(found_artifact_headers(None).unwrap_err(), Status::NotFound);
    let object = ObjectInfo { size: u64::MAX, etag: "x".to_string(), metadata: vec![] };
    let headers = found_artifact_headers(Some(&object)).unwrap();
    assert_eq!(headers[1].value, "18446744073709551615");
}

#[test]
fn upload_with_all_headers_stores_them() {
    let headers = vec![
        header("content-length", b"17"),
        header("x-artifact-duration", b"250"),
        header("x-artifact-tag", b"sig"),
        header("x-artifact-dirty-hash", b"dirty"),
        header("x-artifact-sha", b"abc123"),
    ];
    let plan = plan_upload("hash_1", &headers).unwrap();
    assert_eq!(plan.key, "artifacts/hash_1");
    assert_eq!(plan.content_length, 17);
    assert_eq!(
        pairs(&plan.metadata),
        owned(&[("duration", "250"), ("tag", "sig"), ("sha", "abc123"), ("dirty-hash", "dirty")])
    );
}

#[test]
fn upload_without_duration_stores_zero() {
    let headers = vec![header("content-length", b"+5")];
    let plan = plan_upload("h", &headers).unwrap();
    assert_eq!(plan.content_length, 5);
    assert_eq!(pairs(&plan.metadata), owned(&[("duration", "0")]));
}

#[test]
fn upload_errors_come_in_order() {
    assert_eq!(plan_upload("../x", &[]).unwrap_err(), Status::BadRequest);
    assert_eq!(plan_upload("abc", &[]).unwrap_err(), Status::LengthRequired);
    let bad_length = vec![header("content-length", b"12a")];
    assert_eq!(plan_upload("abc", &bad_length).unwrap_err(), Status::BadRequest);
    let too_long = vec![header("content-length", b"18446744073709551616")];
    assert_eq!(plan_upload("abc", &too_long).unwrap_err(), Status::BadRequest);
    let bad_duration = vec![header("content-length", b"1"), header("x-artifact-duration", b"-1")];
    assert_eq!(plan_upload("abc", &bad_duration).unwrap_err(), Status::BadRequest);
    let bad_tag = vec![header("content-length", b"1"), header("x-artifact-tag", b"a\x01b")];
    assert_eq!(plan_upload("abc", &bad_tag).unwrap_err(), Status::BadRequest);
}

#[test]
fn upload_uses_the_first_value_of_a_header() {
    let headers = vec![
        header("content-length", b"3"),
        header("content-length", b"nonsense"),
        header("x-artifact-tag", b"first"),
        header("x-artifact-tag", b"second"),
    ];
    let plan = plan_upload("abc", &headers).unwrap();
    assert_eq!(plan.content_length, 3);
    assert_eq!(pairs(&plan.metadata), owned(&[("duration", "0"), ("tag", "first")]));
}

#[test]
fn download_serves_back_what_was_uploaded() {
    let headers = vec![
        header("content-length", b"99"),
        header("x-artifact-duration", b"7"),
        header("x-artifact-sha", b"deadbeef"),
    ];
    let plan = plan_upload("round-trip", &headers).unwrap();
    let mut stored = plan.metadata.clone();
    stored.reverse();
    let object = ObjectInfo { size: plan.content_length, etag: "t".to_string(), metadata: stored };
    let served = pairs(&object_headers(&object));
    assert!(served.contains(&("x-artifact-duration".to_string(), "7".to_string())));
    assert!(served.contains(&("x-artifact-sha".to_string(), "deadbeef".to_string())));
    assert!(served.contains(&("content-length".to_string(), "99".to_string())));
    assert!(!served.iter().any(|(n, _)| n == "x-artifact-tag"));
    assert_eq!(artifact_key("round-trip").unwrap(), plan.key);
}
