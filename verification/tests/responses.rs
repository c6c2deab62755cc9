use turborepo_cfworkers::responses::{caching_status, preflight_response, upload_reply};
use turborepo_cfworkers::status::Status;

#[test]
fn caching_is_enabled() {
    assert_eq!(caching_status().status, "enabled");
}

#[test]
fn upload_replies() {
    assert!(upload_reply(true).unwrap().urls.is_empty());
    assert_eq!(upload_reply(false).unwrap_err(), Status::InternalServerError);
}

#[test]
fn preflight_allows_turborepo_requests() {
    let (status, headers) = preflight_response();
    assert_eq!(status, Status::NoContent);
    assert_eq!(status.code(), 204);
    let pairs: Vec<(&str, &str)> = headers.iter().map(|f| (f.name.as_str(), f.value.as_str())).collect();
    assert_eq!(
        pairs,
        vec![
            ("access-control-allow-origin", "*"),
            ("access-control-allow-methods", "GET, HEAD, PUT, POST, OPTIONS"),
            (
                "access-control-allow-headers",
                "Authorization, Content-Type, User-Agent, x-artifact-duration, x-artifact-tag, x-artifact-sha, x-artifact-dirty-hash"
            ),
            ("access-control-max-age", "86400"),
        ]
    );
}

#[test]
fn status_codes() {
    let all = [
        (Status::Success, 200),
        (Status::NoContent, 204),
        (Status::BadRequest, 400),
        (Status::Unauthorized, 401),
        (Status::NotFound, 404),
        (Status::LengthRequired, 411),
        (Status::PayloadTooLarge, 413),
        (Status::InternalServerError, 500),
    ];
    for (status, code) in all {
        assert_eq!(status.code(), code);
    }
}
