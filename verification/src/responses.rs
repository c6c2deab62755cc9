//! The fixed answers of the cache: its status document, the reply to an
//! upload and the reply to a CORS preflight.

use vstd::prelude::*;
use vstd::string::StringExecFns;

use crate::fields::{Field, fields_view};
use crate::status::Status;

verus! {

/// The document served by the caching status route.
#[derive(Debug)]
pub struct CachingStatus {
    pub status: &'static str,
}

/// The caching status: always `enabled`.
pub fn caching_status() -> (res: CachingStatus)
    ensures
        res.status@ == "enabled"@,
{
    CachingStatus { status: "enabled" }
}

/// The reply to a stored upload. This cache hands out no URLs.
#[derive(Debug)]
pub struct ArtifactUploadResponse {
    pub urls: Vec<String>,
}

/// The reply to an upload once the bucket has answered the write: `stored`
/// tells whether it kept the artifact. A write it did not keep is an
/// internal error; a kept one is answered with no URLs.
pub fn upload_reply(stored: bool) -> (res: Result<ArtifactUploadResponse, Status>)
    ensures
        stored ==> (res matches Ok(r) && r.urls@.len() == 0),
        !stored ==> res == Err::<ArtifactUploadResponse, Status>(Status::InternalServerError),
{
    if stored {
        Ok(ArtifactUploadResponse { urls: Vec::new() })
    } else {
        Err(Status::InternalServerError)
    }
}

/// The headers of the reply to a CORS preflight.
pub open spec fn preflight_header_list() -> Seq<(Seq<char>, Seq<char>)> {
    seq![
        ("access-control-allow-origin"@, "*"@),
        ("access-control-allow-methods"@, "GET, HEAD, PUT, POST, OPTIONS"@),
        (
            "access-control-allow-headers"@,
            "Authorization, Content-Type, User-Agent, x-artifact-duration, x-artifact-tag, x-artifact-sha, x-artifact-dirty-hash"@,
        ),
        ("access-control-max-age"@, "86400"@),
    ]
}

fn field(name: &str, value: &str) -> (res: Field)
    ensures
        res@ == (name@, value@),
{
    Field { name: String::from_str(name), value: String::from_str(value) }
}

/// The reply to a CORS preflight of the artifact and events routes: no
/// content; any origin; the methods and headers that Turborepo sends; kept
/// for a day.
pub fn preflight_response() -> (res: (Status, Vec<Field>))
    ensures
        res.0 == Status::NoContent,
        fields_view(res.1@) == preflight_header_list(),
{
    let mut headers: Vec<Field> = Vec::new();
    headers.push(field("access-control-allow-origin", "*"));
    headers.push(field("access-control-allow-methods", "GET, HEAD, PUT, POST, OPTIONS"));
    headers.push(
        field(
            "access-control-allow-headers",
            "Authorization, Content-Type, User-Agent, x-artifact-duration, x-artifact-tag, x-artifact-sha, x-artifact-dirty-hash",
        ),
    );
    headers.push(field("access-control-max-age", "86400"));
    assert(fields_view(headers@) =~= preflight_header_list());
    (Status::NoContent, headers)
}

} // verus!
