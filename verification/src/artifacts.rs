//! Artifacts: which hashes are accepted, where an artifact is kept in the
//! bucket, what an upload stores beside it and what a download serves back.

use vstd::prelude::*;
use vstd::string::StringExecFns;

use crate::fields::{
    Field, HeaderField, fields_view, find_field, find_header, first_named, header_fields_view,
    optional_header, optional_header_text,
};
use crate::status::Status;
use crate::text::{
    decimal, header_text, header_value_text, parse_u64, parse_u64_text, u64_to_decimal,
};

verus! {

/// The pattern that an artifact hash must match.
pub const ARTIFACT_HASH_PATTERN: &'static str = r"\A[A-Za-z0-9_-]{1,128}\z";

/// A character that may stand in an artifact hash.
pub open spec fn is_hash_char(c: char) -> bool {
    ('A' <= c && c <= 'Z') || ('a' <= c && c <= 'z') || ('0' <= c && c <= '9') || c == '_' || c
        == '-'
}

/// An artifact hash: one to 128 letters, digits, `_` or `-`.
pub open spec fn is_artifact_hash(s: Seq<char>) -> bool {
    &&& 1 <= s.len() <= 128
    &&& forall|i: int| 0 <= i < s.len() ==> is_hash_char(#[trigger] s[i])
}

/// Whether `regex` matches `text` somewhere, as the regex crate decides it.
pub uninterp spec fn regex_matches(regex: Seq<char>, text: Seq<char>) -> bool;

/// `regex::Regex::new` on `pattern`, then `Regex::is_match` on `text`.
///
/// Trusted: the result, when the pattern compiles, is the regex crate's
/// answer. For the artifact hash pattern, whose anchors `\A` and `\z` hold the
/// class `[A-Za-z0-9_-]` repeated one to 128 times between the start and the
/// end of the text, the regex documentation gives that it compiles and matches
/// exactly the artifact hashes. Of other patterns nothing is said beyond the
/// name of the result.
#[verifier::external_body]
fn regex_is_match(pattern: &str, text: &str) -> (res: Option<bool>)
    ensures
        res matches Some(b) ==> b == regex_matches(pattern@, text@),
        pattern@ == ARTIFACT_HASH_PATTERN@ ==> res == Some(is_artifact_hash(text@)),
{
    match regex::Regex::new(pattern) {
        Ok(re) => Some(re.is_match(text)),
        Err(_) => None,
    }
}

/// The bucket key under which the artifact `hash` is kept.
pub open spec fn key_of(hash: Seq<char>) -> Seq<char> {
    "artifacts/"@ + hash
}

/// The bucket key of the artifact `hash`: `artifacts/` then the hash. A hash
/// that is not one to 128 letters, digits, `_` or `-` is a bad request.
pub fn artifact_key(hash: &str) -> (res: Result<String, Status>)
    ensures
        is_artifact_hash(hash@) ==> (res matches Ok(k) && k@ == key_of(hash@)),
        !is_artifact_hash(hash@) ==> res == Err::<String, Status>(Status::BadRequest),
{
    match regex_is_match(ARTIFACT_HASH_PATTERN, hash) {
        Some(true) => {
            let mut key = String::from_str("artifacts/");
            key.append(hash);
            Ok(key)
        },
        _ => Err(Status::BadRequest),
    }
}

/// Distinct hashes are kept under distinct keys.
pub proof fn law_keys_are_distinct(a: Seq<char>, b: Seq<char>)
    requires
        a != b,
    ensures
        key_of(a) != key_of(b),
{
    let p = "artifacts/"@;
    if key_of(a) == key_of(b) {
        assert(a =~= key_of(a).skip(p.len() as int));
        assert(b =~= key_of(b).skip(p.len() as int));
    }
}

/// The request headers that an upload copies into the artifact's metadata,
/// beside the duration: `x-artifact-tag`, `x-artifact-sha` and
/// `x-artifact-dirty-hash`, in that order.
pub open spec fn metadata_header(i: int) -> Seq<char> {
    if i == 0 {
        "x-artifact-tag"@
    } else if i == 1 {
        "x-artifact-sha"@
    } else {
        "x-artifact-dirty-hash"@
    }
}

/// The metadata key under which the header `metadata_header(i)` is stored.
pub open spec fn metadata_key(i: int) -> Seq<char> {
    if i == 0 {
        "tag"@
    } else if i == 1 {
        "sha"@
    } else {
        "dirty-hash"@
    }
}

/// The number of optional headers copied into metadata.
pub const METADATA_HEADERS: usize = 3;

/// The `i`-th optional metadata header and the key it is stored under.
pub fn metadata_names(i: usize) -> (res: (&'static str, &'static str))
    requires
        i < METADATA_HEADERS,
    ensures
        res.0@ == metadata_header(i as int),
        res.1@ == metadata_key(i as int),
{
    if i == 0 {
        ("x-artifact-tag", "tag")
    } else if i == 1 {
        ("x-artifact-sha", "sha")
    } else {
        ("x-artifact-dirty-hash", "dirty-hash")
    }
}

/// The metadata headers among the first `n` that an object's metadata holds,
/// in table order, each with its stored value.
pub open spec fn served_metadata(meta: Seq<(Seq<char>, Seq<char>)>, n: int) -> Seq<
    (Seq<char>, Seq<char>),
>
    decreases n,
{
    if n <= 0 {
        Seq::empty()
    } else {
        let prev = served_metadata(meta, n - 1);
        match first_named(meta, metadata_key(n - 1)) {
            Some(v) => prev.push((metadata_header(n - 1), v)),
            None => prev,
        }
    }
}

/// The duration served for an object: the stored one, `0` when none is.
pub open spec fn served_duration(meta: Seq<(Seq<char>, Seq<char>)>) -> Seq<char> {
    match first_named(meta, "duration"@) {
        Some(d) => d,
        None => "0"@,
    }
}

/// The headers served with a cached artifact of `size` bytes, entity tag
/// `etag` and custom metadata `meta`.
pub open spec fn object_header_list(size: u64, etag: Seq<char>, meta: Seq<(Seq<char>, Seq<char>)>) -> Seq<
    (Seq<char>, Seq<char>),
> {
    seq![
        ("cache-control"@, "private, no-store"@),
        ("content-length"@, decimal(size as nat)),
        ("content-type"@, "application/octet-stream"@),
        ("etag"@, etag),
        ("x-artifact-duration"@, served_duration(meta)),
    ] + served_metadata(meta, METADATA_HEADERS as int)
}

/// What the bucket tells of a stored artifact.
#[derive(Debug)]
pub struct ObjectInfo {
    /// Its size in bytes.
    pub size: u64,
    /// Its HTTP entity tag.
    pub etag: String,
    /// Its custom metadata, one entry per key.
    pub metadata: Vec<Field>,
}

fn field(name: &str, value: String) -> (res: Field)
    ensures
        res@ == (name@, value@),
{
    Field { name: name.to_owned(), value }
}

/// The headers served with a cached artifact: no caching by intermediaries,
/// its length, `application/octet-stream`, its entity tag, its duration (`0`
/// when none was stored) and each of `x-artifact-tag`, `x-artifact-sha`,
/// `x-artifact-dirty-hash` whose value was stored.
pub fn object_headers(object: &ObjectInfo) -> (res: Vec<Field>)
    ensures
        fields_view(res@) == object_header_list(
            object.size,
            object.etag@,
            fields_view(object.metadata@),
        ),
{
    let ghost meta = fields_view(object.metadata@);
    let mut out: Vec<Field> = Vec::new();
    out.push(field("cache-control", String::from_str("private, no-store")));
    out.push(field("content-length", u64_to_decimal(object.size)));
    out.push(field("content-type", String::from_str("application/octet-stream")));
    out.push(field("etag", object.etag.clone()));
    let duration = match find_field(object.metadata.as_slice(), "duration") {
        Some(j) => object.metadata[j].value.clone(),
        None => String::from_str("0"),
    };
    out.push(field("x-artifact-duration", duration));
    let ghost base = fields_view(out@);
    assert(base =~= object_header_list(object.size, object.etag@, meta).take(5));
    let mut i: usize = 0;
    while i < METADATA_HEADERS
        invariant
            i <= METADATA_HEADERS,
            meta == fields_view(object.metadata@),
            fields_view(out@) =~= base + served_metadata(meta, i as int),
        decreases METADATA_HEADERS - i,
    {
        let (header, key) = metadata_names(i);
        let ghost before = fields_view(out@);
        match find_field(object.metadata.as_slice(), key) {
            Some(j) => {
                out.push(field(header, object.metadata[j].value.clone()));
                assert(fields_view(out@) =~= before.push(
                    (metadata_header(i as int), object.metadata@[j as int].value@),
                ));
            },
            None => {},
        }
        i = i + 1;
    }
    out
}

/// The headers of an artifact looked up in the bucket: an artifact that is
/// not there is not found.
pub fn found_artifact_headers(found: Option<&ObjectInfo>) -> (res: Result<Vec<Field>, Status>)
    ensures
        match found {
            None => res == Err::<Vec<Field>, Status>(Status::NotFound),
            Some(object) => (res matches Ok(h) && fields_view(h@) == object_header_list(
                object.size,
                object.etag@,
                fields_view(object.metadata@),
            )),
        },
{
    match found {
        None => Err(Status::NotFound),
        Some(object) => Ok(object_headers(object)),
    }
}

/// The metadata entries that the first `n` optional headers of an upload
/// add, in table order; a header present but not text is a bad request.
pub open spec fn uploaded_metadata(headers: Seq<(Seq<char>, Seq<u8>)>, n: int) -> Result<
    Seq<(Seq<char>, Seq<char>)>,
    Status,
>
    decreases n,
{
    if n <= 0 {
        Ok(Seq::empty())
    } else {
        match uploaded_metadata(headers, n - 1) {
            Err(e) => Err(e),
            Ok(prev) => match optional_header_text(headers, metadata_header(n - 1)) {
                Err(e) => Err(e),
                Ok(None) => Ok(prev),
                Ok(Some(t)) => Ok(prev.push((metadata_key(n - 1), t))),
            },
        }
    }
}

/// The duration an upload stores: its `x-artifact-duration` header, `0` when
/// it has none.
pub open spec fn uploaded_duration(d: Option<Seq<char>>) -> Seq<char> {
    match d {
        Some(t) => t,
        None => "0"@,
    }
}

/// What an upload of `hash` with request `headers` stores, or the status it
/// is refused with: the hash must be valid (else bad request); a
/// `content-length` header must be there (else length required) and read as
/// a `u64` (else bad request); `x-artifact-duration`, when there, must read as
/// a `u64` (else bad request); and each optional metadata header, when there,
/// must be text (else bad request). The result is the key, the declared
/// length and the metadata: the duration first, then the optional headers
/// that are there.
pub open spec fn upload_plan(hash: Seq<char>, headers: Seq<(Seq<char>, Seq<u8>)>) -> Result<
    (Seq<char>, u64, Seq<(Seq<char>, Seq<char>)>),
    Status,
> {
    if !is_artifact_hash(hash) {
        Err(Status::BadRequest)
    } else {
        match first_named(headers, "content-length"@) {
            None => Err(Status::LengthRequired),
            Some(raw) => match header_text(raw) {
                None => Err(Status::BadRequest),
                Some(t) => match parse_u64_text(t) {
                    None => Err(Status::BadRequest),
                    Some(len) => match optional_header_text(headers, "x-artifact-duration"@) {
                        Err(e) => Err(e),
                        Ok(d) => if parse_u64_text(uploaded_duration(d)) is None {
                            Err(Status::BadRequest)
                        } else {
                            match uploaded_metadata(headers, METADATA_HEADERS as int) {
                                Err(e) => Err(e),
                                Ok(m) => Ok(
                                    (
                                        key_of(hash),
                                        len,
                                        seq![("duration"@, uploaded_duration(d))] + m,
                                    ),
                                ),
                            }
                        },
                    },
                },
            },
        }
    }
}

/// What an accepted upload stores.
#[derive(Debug)]
pub struct UploadPlan {
    /// The bucket key of the artifact.
    pub key: String,
    /// The length that the request declared for its body.
    pub content_length: u64,
    /// The custom metadata stored beside the artifact.
    pub metadata: Vec<Field>,
}

proof fn lemma_uploaded_metadata_error_stays(
    headers: Seq<(Seq<char>, Seq<u8>)>,
    i: int,
    n: int,
    e: Status,
)
    requires
        0 <= i <= n,
        uploaded_metadata(headers, i) == Err::<Seq<(Seq<char>, Seq<char>)>, Status>(e),
    ensures
        uploaded_metadata(headers, n) == Err::<Seq<(Seq<char>, Seq<char>)>, Status>(e),
    decreases n - i,
{
    if i < n {
        lemma_uploaded_metadata_error_stays(headers, i, n - 1, e);
    }
}

/// Decides an upload of the artifact `hash` from the request `headers`: the
/// key, declared length and metadata to store, or the status the request is
/// refused with, as [`upload_plan`] states.
#[verifier::loop_isolation(false)]
pub fn plan_upload(hash: &str, headers: &[HeaderField]) -> (res: Result<UploadPlan, Status>)
    ensures
        match (res, upload_plan(hash@, header_fields_view(headers@))) {
            (Ok(p), Ok((k, l, m))) => p.key@ == k && p.content_length == l && fields_view(
                p.metadata@,
            ) == m,
            (Err(e), Err(f)) => e == f,
            _ => false,
        },
{
    let ghost hv = header_fields_view(headers@);
    let key = artifact_key(hash)?;
    let raw_length = match find_header(headers, "content-length") {
        None => return Err(Status::LengthRequired),
        Some(i) => headers[i].value.as_slice(),
    };
    if header_value_text(raw_length).is_none() {
        return Err(Status::BadRequest);
    }
    let content_length = match parse_u64(raw_length) {
        None => return Err(Status::BadRequest),
        Some(n) => n,
    };
    let duration = match find_header(headers, "x-artifact-duration") {
        None => {
            proof {
                reveal_strlit("0");
                assert(parse_u64_text("0"@) is Some) by {
                    assert(super::text::unsigned_digits("0"@) =~= "0"@);
                    assert(super::text::digits_value("0"@.drop_last()) == 0);
                }
            }
            String::from_str("0")
        },
        Some(i) => {
            let raw = headers[i].value.as_slice();
            match header_value_text(raw) {
                None => return Err(Status::BadRequest),
                Some(t) => {
                    if parse_u64(raw).is_none() {
                        return Err(Status::BadRequest);
                    }
                    t
                },
            }
        },
    };
    let mut metadata: Vec<Field> = Vec::new();
    metadata.push(field("duration", duration));
    let ghost first = fields_view(metadata@);
    let mut i: usize = 0;
    assert(uploaded_metadata(hv, 0) == Ok::<Seq<(Seq<char>, Seq<char>)>, Status>(Seq::empty()));
    while i < METADATA_HEADERS
        invariant
            i <= METADATA_HEADERS,
            hv == header_fields_view(headers@),
            uploaded_metadata(hv, i as int) matches Ok(m) && fields_view(metadata@) =~= first + m,
        decreases METADATA_HEADERS - i,
    {
        let (header, name) = metadata_names(i);
        let ghost before = fields_view(metadata@);
        match optional_header(headers, header) {
            Err(e) => {
                proof {
                    lemma_uploaded_metadata_error_stays(
                        hv,
                        i + 1,
                        METADATA_HEADERS as int,
                        e,
                    );
                }
                return Err(e);
            },
            Ok(None) => {},
            Ok(Some(value)) => {
                metadata.push(field(name, value));
                assert(fields_view(metadata@) =~= before.push((name@, value@)));
            },
        }
        i = i + 1;
    }
    Ok(UploadPlan { key, content_length, metadata })
}

proof fn lemma_first_named_append(
    a: Seq<(Seq<char>, Seq<char>)>,
    b: Seq<(Seq<char>, Seq<char>)>,
    k: Seq<char>,
)
    ensures
        first_named(a + b, k) == match first_named(a, k) {
            Some(v) => Some(v),
            None => first_named(b, k),
        },
    decreases a.len(),
{
    if a.len() > 0 {
        assert((a + b).drop_first() =~= a.drop_first() + b);
        lemma_first_named_append(a.drop_first(), b, k);
    } else {
        assert(a + b =~= b);
    }
}

proof fn lemma_first_named_push(s: Seq<(Seq<char>, Seq<char>)>, x: (Seq<char>, Seq<char>), k: Seq<char>)
    ensures
        first_named(s.push(x), k) == match first_named(s, k) {
            Some(v) => Some(v),
            None => if x.0 == k {
                Some(x.1)
            } else {
                None
            },
        },
{
    lemma_first_named_append(s, seq![x], k);
    assert(s + seq![x] =~= s.push(x));
    assert(seq![x].drop_first() =~= Seq::<(Seq<char>, Seq<char>)>::empty());
    assert(first_named(Seq::<(Seq<char>, Seq<char>)>::empty(), k) is None);
    assert(first_named(seq![x], k) == if x.0 == k {
        Some(x.1)
    } else {
        first_named(seq![x].drop_first(), k)
    });
}

proof fn lemma_names_distinct()
    ensures
        metadata_header(0) != metadata_header(1),
        metadata_header(0) != metadata_header(2),
        metadata_header(1) != metadata_header(2),
        metadata_key(0) != metadata_key(1),
        metadata_key(0) != metadata_key(2),
        metadata_key(1) != metadata_key(2),
        forall|i: int|
            0 <= i < 3 ==> {
                &&& #[trigger] metadata_key(i) != "duration"@
                &&& metadata_header(i) != "cache-control"@
                &&& metadata_header(i) != "content-length"@
                &&& metadata_header(i) != "content-type"@
                &&& metadata_header(i) != "etag"@
                &&& metadata_header(i) != "x-artifact-duration"@
            },
        "x-artifact-duration"@ != "cache-control"@,
        "x-artifact-duration"@ != "content-length"@,
        "x-artifact-duration"@ != "content-type"@,
        "x-artifact-duration"@ != "etag"@,
        "content-length"@ != "cache-control"@,
{
    reveal_strlit("x-artifact-tag");
    reveal_strlit("x-artifact-sha");
    reveal_strlit("x-artifact-dirty-hash");
    reveal_strlit("tag");
    reveal_strlit("sha");
    reveal_strlit("dirty-hash");
    reveal_strlit("duration");
    reveal_strlit("cache-control");
    reveal_strlit("content-length");
    reveal_strlit("content-type");
    reveal_strlit("etag");
    reveal_strlit("x-artifact-duration");
    assert(metadata_header(0)[11] != metadata_header(1)[11]);
    assert(metadata_header(0).len() != metadata_header(2).len());
    assert(metadata_header(1).len() != metadata_header(2).len());
    assert(metadata_key(0)[0] != metadata_key(1)[0]);
    assert(metadata_key(0).len() != metadata_key(2).len());
    assert(metadata_key(1).len() != metadata_key(2).len());
    assert("content-length"@[1] != "cache-control"@[1]);
    assert("x-artifact-duration"@.len() != "content-type"@.len());
    assert("x-artifact-duration"@.len() != "etag"@.len());
}

proof fn lemma_served_metadata_lookup(meta: Seq<(Seq<char>, Seq<char>)>, n: int, i: int)
    requires
        0 <= i < 3,
        n <= 3,
    ensures
        first_named(served_metadata(meta, n), metadata_header(i)) == if i < n {
            first_named(meta, metadata_key(i))
        } else {
            None
        },
    decreases n,
{
    lemma_names_distinct();
    if n > 0 {
        lemma_served_metadata_lookup(meta, n - 1, i);
        let prev = served_metadata(meta, n - 1);
        match first_named(meta, metadata_key(n - 1)) {
            Some(v) => lemma_first_named_push(prev, (metadata_header(n - 1), v), metadata_header(i)),
            None => {},
        }
    }
}

proof fn lemma_uploaded_metadata_lookup(
    headers: Seq<(Seq<char>, Seq<u8>)>,
    n: int,
    m: Seq<(Seq<char>, Seq<char>)>,
    i: int,
)
    requires
        0 <= i < 3,
        0 <= n <= 3,
        uploaded_metadata(headers, n) == Ok::<Seq<(Seq<char>, Seq<char>)>, Status>(m),
    ensures
        first_named(m, "duration"@) is None,
        i < n ==> optional_header_text(headers, metadata_header(i)) == Ok::<
            Option<Seq<char>>,
            Status,
        >(first_named(m, metadata_key(i))),
        i >= n ==> first_named(m, metadata_key(i)) is None,
    decreases n,
{
    lemma_names_distinct();
    if n > 0 {
        let prev = uploaded_metadata(headers, n - 1)->Ok_0;
        lemma_uploaded_metadata_lookup(headers, n - 1, prev, i);
        match optional_header_text(headers, metadata_header(n - 1)) {
            Ok(Some(t)) => {
                lemma_first_named_push(prev, (metadata_key(n - 1), t), metadata_key(i));
                lemma_first_named_push(prev, (metadata_key(n - 1), t), "duration"@);
            },
            _ => {},
        }
    }
}

/// The duration that an upload with `headers` stores: its
/// `x-artifact-duration` header when there, `0` otherwise.
pub open spec fn uploaded_duration_of(headers: Seq<(Seq<char>, Seq<u8>)>) -> Seq<char> {
    match optional_header_text(headers, "x-artifact-duration"@) {
        Ok(d) => uploaded_duration(d),
        Err(_) => "0"@,
    }
}

/// A download serves back what the upload stored. Take an accepted upload of
/// `hash` with request `headers`, which stores `meta` under `key` with
/// declared length `len`, and a read of that object whose metadata gives, for
/// every key, the value stored under it. Then, among the headers served with
/// the artifact: `x-artifact-duration` is the uploaded duration (`0` when the
/// upload gave none); each of `x-artifact-tag`, `x-artifact-sha`,
/// `x-artifact-dirty-hash` is there exactly when the upload had it, with the
/// uploaded value; and when the object's size is the declared length,
/// `content-length` reads back as that length.
pub proof fn law_download_serves_upload(
    hash: Seq<char>,
    headers: Seq<(Seq<char>, Seq<u8>)>,
    key: Seq<char>,
    len: u64,
    meta: Seq<(Seq<char>, Seq<char>)>,
    size: u64,
    etag: Seq<char>,
    read_meta: Seq<(Seq<char>, Seq<char>)>,
)
    requires
        upload_plan(hash, headers) == Ok::<(Seq<char>, u64, Seq<(Seq<char>, Seq<char>)>), Status>(
            (key, len, meta),
        ),
        forall|k: Seq<char>| #[trigger] first_named(read_meta, k) == first_named(meta, k),
    ensures
        first_named(object_header_list(size, etag, read_meta), "x-artifact-duration"@) == Some(
            uploaded_duration_of(headers),
        ),
        forall|i: int|
            0 <= i < 3 ==> optional_header_text(headers, #[trigger] metadata_header(i)) == Ok::<
                Option<Seq<char>>,
                Status,
            >(first_named(object_header_list(size, etag, read_meta), metadata_header(i))),
        size == len ==> (first_named(object_header_list(size, etag, read_meta), "content-length"@)
            matches Some(t) && parse_u64_text(t) == Some(len)),
{
    lemma_names_distinct();
    let d = optional_header_text(headers, "x-artifact-duration"@)->Ok_0;
    let m = uploaded_metadata(headers, 3)->Ok_0;
    let first = seq![("duration"@, uploaded_duration(d))];
    assert(meta == first + m);
    let base = seq![
        ("cache-control"@, "private, no-store"@),
        ("content-length"@, decimal(size as nat)),
        ("content-type"@, "application/octet-stream"@),
        ("etag"@, etag),
        ("x-artifact-duration"@, served_duration(read_meta)),
    ];
    let served = object_header_list(size, etag, read_meta);
    assert(served == base + served_metadata(read_meta, 3));
    lemma_first_named_append(first, m, "duration"@);
    assert(first_named(read_meta, "duration"@) == first_named(meta, "duration"@));
    assert(served_duration(read_meta) == uploaded_duration(d));
    lemma_first_named_append(base, served_metadata(read_meta, 3), "x-artifact-duration"@);
    lemma_first_named_append(base, served_metadata(read_meta, 3), "content-length"@);
    reveal_with_fuel(first_named, 6);
    assert(first_named(base, "content-length"@) == Some(decimal(size as nat)));
    assert(first_named(base, "x-artifact-duration"@) == Some(served_duration(read_meta)));
    assert forall|i: int| 0 <= i < 3 implies optional_header_text(
        headers,
        #[trigger] metadata_header(i),
    ) == Ok::<Option<Seq<char>>, Status>(first_named(served, metadata_header(i))) by {
        lemma_first_named_append(base, served_metadata(read_meta, 3), metadata_header(i));
        assert(first_named(base, metadata_header(i)) is None);
        lemma_served_metadata_lookup(read_meta, 3, i);
        assert(first_named(read_meta, metadata_key(i)) == first_named(meta, metadata_key(i)));
        lemma_first_named_append(first, m, metadata_key(i));
        lemma_uploaded_metadata_lookup(headers, 3, m, i);
    }
    if size == len {
        super::text::law_decimal_round_trip(size);
    }
}

/// An upload and a download of one hash address the same object: an
/// accepted upload of `hash` is stored under the key that [`artifact_key`]
/// gives for `hash`.
pub proof fn law_upload_and_download_share_key(
    hash: Seq<char>,
    headers: Seq<(Seq<char>, Seq<u8>)>,
    key: Seq<char>,
    len: u64,
    meta: Seq<(Seq<char>, Seq<char>)>,
)
    requires
        upload_plan(hash, headers) == Ok::<(Seq<char>, u64, Seq<(Seq<char>, Seq<char>)>), Status>(
            (key, len, meta),
        ),
    ensures
        is_artifact_hash(hash),
        key == key_of(hash),
{
}

proof fn lemma_uploaded_metadata_ok(headers: Seq<(Seq<char>, Seq<u8>)>, n: int)
    requires
        0 <= n <= 3,
        forall|i: int| 0 <= i < 3 ==> (#[trigger] optional_header_text(headers, metadata_header(i))) is Ok,
    ensures
        uploaded_metadata(headers, n) is Ok,
    decreases n,
{
    if n > 0 {
        lemma_uploaded_metadata_ok(headers, n - 1);
        assert(optional_header_text(headers, metadata_header(n - 1)) is Ok);
    }
}

/// The duration text that an upload's `x-artifact-duration` header carries,
/// `0` when there is none.
pub open spec fn duration_header_text(headers: Seq<(Seq<char>, Seq<u8>)>) -> Seq<char> {
    match first_named(headers, "x-artifact-duration"@) {
        None => "0"@,
        Some(raw) => match header_text(raw) {
            Some(t) => t,
            None => "0"@,
        },
    }
}

/// No size or duration limit beyond 64 bits: every upload with a valid hash,
/// a first `content-length` header that is text reading as any `u64` `n`, an
/// `x-artifact-duration` header (if any) that is text reading as any `u64`,
/// and optional metadata headers that are text, is accepted. It is stored
/// under the hash's key, with declared length `n`, and its metadata starts
/// with the duration header's own text (`0` when there is none).
pub proof fn law_upload_accepts_any_length_and_duration(
    hash: Seq<char>,
    headers: Seq<(Seq<char>, Seq<u8>)>,
    raw_length: Seq<u8>,
    n: u64,
)
    requires
        is_artifact_hash(hash),
        first_named(headers, "content-length"@) == Some(raw_length),
        header_text(raw_length) matches Some(t) && parse_u64_text(t) == Some(n),
        match first_named(headers, "x-artifact-duration"@) {
            None => true,
            Some(raw) => header_text(raw) matches Some(t) && parse_u64_text(t) is Some,
        },
        forall|i: int| 0 <= i < 3 ==> (#[trigger] optional_header_text(headers, metadata_header(i))) is Ok,
    ensures
        upload_plan(hash, headers) matches Ok((k, len, meta)) && k == key_of(hash) && len == n
            && meta.len() >= 1 && meta[0] == ("duration"@, duration_header_text(headers)),
{
    lemma_uploaded_metadata_ok(headers, 3);
    reveal_strlit("0");
    assert(parse_u64_text("0"@) is Some) by {
        assert(super::text::unsigned_digits("0"@) =~= "0"@);
        assert(super::text::digits_value("0"@.drop_last()) == 0);
    }
    let d = optional_header_text(headers, "x-artifact-duration"@)->Ok_0;
    assert(uploaded_duration(d) == duration_header_text(headers));
}

/// An upload whose `x-artifact-duration` header is text reading as any `u64`
/// stores that text as its duration, whatever the number.
pub proof fn law_upload_stores_any_duration(
    hash: Seq<char>,
    headers: Seq<(Seq<char>, Seq<u8>)>,
    raw_length: Seq<u8>,
    n: u64,
    raw_duration: Seq<u8>,
    duration: Seq<char>,
)
    requires
        is_artifact_hash(hash),
        first_named(headers, "content-length"@) == Some(raw_length),
        header_text(raw_length) matches Some(t) && parse_u64_text(t) == Some(n),
        first_named(headers, "x-artifact-duration"@) == Some(raw_duration),
        header_text(raw_duration) == Some(duration),
        parse_u64_text(duration) is Some,
        forall|i: int| 0 <= i < 3 ==> (#[trigger] optional_header_text(headers, metadata_header(i))) is Ok,
    ensures
        upload_plan(hash, headers) matches Ok((k, len, meta)) && meta[0] == ("duration"@, duration),
{
    law_upload_accepts_any_length_and_duration(hash, headers, raw_length, n);
}

/// Which of the metadata headers may name an entry of
/// `served_metadata(meta, n)`: one of the first `n`.
spec fn is_metadata_header_below(name: Seq<char>, n: int) -> bool {
    ||| (n > 0 && name == metadata_header(0))
    ||| (n > 1 && name == metadata_header(1))
    ||| (n > 2 && name == metadata_header(2))
}

proof fn lemma_served_metadata_names(meta: Seq<(Seq<char>, Seq<char>)>, n: int)
    requires
        n <= 3,
    ensures
        forall|k: int|
            0 <= k < served_metadata(meta, n).len() ==> is_metadata_header_below(
                #[trigger] served_metadata(meta, n)[k].0,
                n,
            ),
        forall|k: int, l: int|
            0 <= k < l < served_metadata(meta, n).len() ==> #[trigger] served_metadata(meta, n)[k].0
                != #[trigger] served_metadata(meta, n)[l].0,
    decreases n,
{
    lemma_names_distinct();
    if n > 0 {
        lemma_served_metadata_names(meta, n - 1);
        let prev = served_metadata(meta, n - 1);
        assert forall|k: int| 0 <= k < prev.len() implies #[trigger] prev[k].0 != metadata_header(
            n - 1,
        ) by {
            assert(is_metadata_header_below(prev[k].0, n - 1));
        }
    }
}

/// The headers served with an artifact name each header once: no two of them
/// have the same name. So every header named `x-artifact-duration` carries the
/// stored duration (`0` when none is stored), and each of `cache-control`,
/// `content-length`, `content-type` and `etag` appears once.
pub proof fn law_served_headers_are_named_once(
    size: u64,
    etag: Seq<char>,
    meta: Seq<(Seq<char>, Seq<char>)>,
)
    ensures
        forall|k: int, l: int|
            0 <= k < l < object_header_list(size, etag, meta).len() ==> #[trigger] object_header_list(
                size,
                etag,
                meta,
            )[k].0 != #[trigger] object_header_list(size, etag, meta)[l].0,
        forall|k: int|
            0 <= k < object_header_list(size, etag, meta).len() && (#[trigger] object_header_list(
                size,
                etag,
                meta,
            )[k]).0 == "x-artifact-duration"@ ==> object_header_list(size, etag, meta)[k].1
                == served_duration(meta),
{
    lemma_names_distinct();
    lemma_served_metadata_names(meta, 3);
    let served = object_header_list(size, etag, meta);
    let tail = served_metadata(meta, 3);
    reveal_strlit("cache-control");
    reveal_strlit("content-length");
    reveal_strlit("content-type");
    reveal_strlit("etag");
    reveal_strlit("x-artifact-duration");
    assert("cache-control"@.len() != "content-type"@.len());
    assert("cache-control"@.len() != "etag"@.len());
    assert("cache-control"@.len() != "x-artifact-duration"@.len());
    assert("content-length"@[8] != "content-type"@[8]);
    assert("content-length"@.len() != "etag"@.len());
    assert("content-length"@.len() != "x-artifact-duration"@.len());
    assert("content-type"@.len() != "etag"@.len());
    assert("content-type"@.len() != "x-artifact-duration"@.len());
    assert("etag"@.len() != "x-artifact-duration"@.len());
    assert forall|k: int| 0 <= k < tail.len() implies {
        &&& (#[trigger] tail[k]).0 != "cache-control"@
        &&& tail[k].0 != "content-length"@
        &&& tail[k].0 != "content-type"@
        &&& tail[k].0 != "etag"@
        &&& tail[k].0 != "x-artifact-duration"@
    } by {
        assert(is_metadata_header_below(tail[k].0, 3));
    }
    assert forall|k: int| 0 <= k < served.len() && k >= 5 implies #[trigger] served[k] == tail[k - 5] by {}
}

/// The headers served with an artifact describe that object: `content-length`
/// reads back as its size, `etag` is its entity tag, `content-type` is
/// `application/octet-stream`, `cache-control` is `private, no-store`,
/// `x-artifact-duration` is its stored `duration` (`0` when none is stored),
/// and `x-artifact-tag`, `x-artifact-sha`, `x-artifact-dirty-hash` are its
/// stored `tag`, `sha`, `dirty-hash`, each served exactly when stored.
pub proof fn law_served_headers_describe_the_object(
    size: u64,
    etag: Seq<char>,
    meta: Seq<(Seq<char>, Seq<char>)>,
)
    ensures
        first_named(object_header_list(size, etag, meta), "content-length"@) matches Some(t)
            && parse_u64_text(t) == Some(size),
        first_named(object_header_list(size, etag, meta), "etag"@) == Some(etag),
        first_named(object_header_list(size, etag, meta), "content-type"@) == Some(
            "application/octet-stream"@,
        ),
        first_named(object_header_list(size, etag, meta), "cache-control"@) == Some(
            "private, no-store"@,
        ),
        first_named(object_header_list(size, etag, meta), "x-artifact-duration"@) == Some(
            match first_named(meta, "duration"@) {
                Some(d) => d,
                None => "0"@,
            },
        ),
        first_named(object_header_list(size, etag, meta), "x-artifact-tag"@) == first_named(
            meta,
            "tag"@,
        ),
        first_named(object_header_list(size, etag, meta), "x-artifact-sha"@) == first_named(
            meta,
            "sha"@,
        ),
        first_named(object_header_list(size, etag, meta), "x-artifact-dirty-hash"@) == first_named(
            meta,
            "dirty-hash"@,
        ),
{
    lemma_names_distinct();
    reveal_strlit("cache-control");
    reveal_strlit("content-length");
    reveal_strlit("content-type");
    reveal_strlit("etag");
    reveal_strlit("x-artifact-duration");
    assert("content-length"@[8] != "content-type"@[8]);
    assert("cache-control"@.len() != "etag"@.len());
    assert("content-length"@.len() != "etag"@.len());
    assert("content-type"@.len() != "etag"@.len());
    assert("cache-control"@.len() != "content-type"@.len());
    let base = seq![
        ("cache-control"@, "private, no-store"@),
        ("content-length"@, decimal(size as nat)),
        ("content-type"@, "application/octet-stream"@),
        ("etag"@, etag),
        ("x-artifact-duration"@, served_duration(meta)),
    ];
    let tail = served_metadata(meta, 3);
    assert(object_header_list(size, etag, meta) == base + tail);
    reveal_with_fuel(first_named, 6);
    lemma_first_named_append(base, tail, "content-length"@);
    lemma_first_named_append(base, tail, "etag"@);
    lemma_first_named_append(base, tail, "content-type"@);
    lemma_first_named_append(base, tail, "cache-control"@);
    lemma_first_named_append(base, tail, "x-artifact-duration"@);
    super::text::law_decimal_round_trip(size);
    lemma_first_named_append(base, tail, metadata_header(0));
    lemma_first_named_append(base, tail, metadata_header(1));
    lemma_first_named_append(base, tail, metadata_header(2));
    lemma_served_metadata_lookup(meta, 3, 0);
    lemma_served_metadata_lookup(meta, 3, 1);
    lemma_served_metadata_lookup(meta, 3, 2);
    assert(first_named(base, metadata_header(0)) is None);
    assert(first_named(base, metadata_header(1)) is None);
    assert(first_named(base, metadata_header(2)) is None);
    assert(first_named(base + tail, metadata_header(0)) == first_named(meta, metadata_key(0)));
    assert(first_named(base + tail, metadata_header(1)) == first_named(meta, metadata_key(1)));
    assert(first_named(base + tail, metadata_header(2)) == first_named(meta, metadata_key(2)));
}

/// An accepted upload stores each of its optional headers under its own key:
/// `x-artifact-tag` under `tag`, `x-artifact-sha` under `sha`,
/// `x-artifact-dirty-hash` under `dirty-hash`, each with the header's text,
/// and nothing under a key whose header it did not have; its duration is
/// stored under `duration`.
pub proof fn law_upload_stores_headers_under_their_keys(
    hash: Seq<char>,
    headers: Seq<(Seq<char>, Seq<u8>)>,
    key: Seq<char>,
    len: u64,
    meta: Seq<(Seq<char>, Seq<char>)>,
)
    requires
        upload_plan(hash, headers) == Ok::<(Seq<char>, u64, Seq<(Seq<char>, Seq<char>)>), Status>(
            (key, len, meta),
        ),
    ensures
        optional_header_text(headers, "x-artifact-tag"@) == Ok::<Option<Seq<char>>, Status>(
            first_named(meta, "tag"@),
        ),
        optional_header_text(headers, "x-artifact-sha"@) == Ok::<Option<Seq<char>>, Status>(
            first_named(meta, "sha"@),
        ),
        optional_header_text(headers, "x-artifact-dirty-hash"@) == Ok::<Option<Seq<char>>, Status>(
            first_named(meta, "dirty-hash"@),
        ),
        first_named(meta, "duration"@) == Some(uploaded_duration_of(headers)),
{
    lemma_names_distinct();
    let d = optional_header_text(headers, "x-artifact-duration"@)->Ok_0;
    let m = uploaded_metadata(headers, 3)->Ok_0;
    let first = seq![("duration"@, uploaded_duration(d))];
    assert(meta == first + m);
    lemma_first_named_append(first, m, "duration"@);
    reveal_with_fuel(first_named, 2);
    assert(first_named(first, metadata_key(0)) is None);
    assert(first_named(first, metadata_key(1)) is None);
    assert(first_named(first, metadata_key(2)) is None);
    lemma_first_named_append(first, m, metadata_key(0));
    lemma_first_named_append(first, m, metadata_key(1));
    lemma_first_named_append(first, m, metadata_key(2));
    lemma_uploaded_metadata_lookup(headers, 3, m, 0);
    lemma_uploaded_metadata_lookup(headers, 3, m, 1);
    lemma_uploaded_metadata_lookup(headers, 3, m, 2);
    assert(optional_header_text(headers, metadata_header(0)) == Ok::<Option<Seq<char>>, Status>(
        first_named(meta, metadata_key(0)),
    ));
    assert(optional_header_text(headers, metadata_header(1)) == Ok::<Option<Seq<char>>, Status>(
        first_named(meta, metadata_key(1)),
    ));
    assert(optional_header_text(headers, metadata_header(2)) == Ok::<Option<Seq<char>>, Status>(
        first_named(meta, metadata_key(2)),
    ));
}

} // verus!
