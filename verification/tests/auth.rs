use turborepo_cfworkers::auth::{authorize, parse_bearer};
use turborepo_cfworkers::fields::HeaderField;
use turborepo_cfworkers::status::Status;

fn with_authorization(value: &[u8]) -> Vec<HeaderField> {
    vec![HeaderField { name: "authorization".to_string(), value: value.to_vec() }]
}

#[test]
fn bearer_tokens() {
    assert_eq!(parse_bearer(b"Bearer fpKL54jvWmEGVoRdCNjG"), Some(&b"fpKL54jvWmEGVoRdCNjG"[..]));
    assert_eq!(parse_bearer(b"bearer fpKL54jvWmEGVoRdCNjG"), Some(&b"fpKL54jvWmEGVoRdCNjG"[..]));
    assert_eq!(parse_bearer(b"Bearer   fpKL54jvWmEGVoRdCNjG"), Some(&b"fpKL54jvWmEGVoRdCNjG"[..]));
    assert_eq!(parse_bearer(b"Bearer \t"), Some(&b""[..]));
    assert_eq!(parse_bearer(b"Bearer "), Some(&b""[..]));
    assert_eq!(parse_bearer(b"Bearer"), None);
    assert_eq!(parse_bearer(b"Basic abc"), None);
    assert_eq!(parse_bearer(b"Bearer\tabc"), None);
    assert_eq!(parse_bearer(b"Bearer a\x7fb"), None);
}

#[test]
fn authorizes_only_the_configured_token() {
    assert_eq!(authorize(&with_authorization(b"Bearer s3cret"), Some("s3cret")), Ok(()));
    assert_eq!(authorize(&with_authorization(b"BEARER  s3cret"), Some("s3cret")), Ok(()));
    assert_eq!(
        authorize(&with_authorization(b"Bearer s3cre"), Some("s3cret")),
        Err(Status::Unauthorized)
    );
    assert_eq!(
        authorize(&with_authorization(b"Bearer s3cret"), Some("other!")),
        Err(Status::Unauthorized)
    );
}

#[test]
fn missing_credentials_or_secret() {
    assert_eq!(authorize(&[], Some("s3cret")), Err(Status::Unauthorized));
    assert_eq!(authorize(&[], None), Err(Status::Unauthorized));
    assert_eq!(
        authorize(&with_authorization(b"Token s3cret"), Some("s3cret")),
        Err(Status::Unauthorized)
    );
    assert_eq!(
        authorize(&with_authorization(b"Bearer s3cret"), None),
        Err(Status::InternalServerError)
    );
}
