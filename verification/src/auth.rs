//! Who may use the cache: requests that carry the configured token as a
//! Bearer credential.

use vstd::prelude::*;
use vstd::string::StringSliceAdditionalSpecFns;

use crate::fields::{HeaderField, find_header, first_named, header_fields_view};
use crate::status::Status;
use crate::text::header_text;

verus! {

/// The byte `b` with an ASCII capital letter turned into lowercase.
pub open spec fn ascii_lower(b: u8) -> u8 {
    if 65 <= b && b <= 90 {
        (b + 32) as u8
    } else {
        b
    }
}

/// The bytes of the scheme name `Bearer`.
pub open spec fn bearer_scheme() -> Seq<u8> {
    seq![66u8, 101u8, 97u8, 114u8, 101u8, 114u8]
}

pub open spec fn is_blank(b: u8) -> bool {
    b == 32 || b == 9
}

/// `s` without its leading spaces and tabs.
pub open spec fn trim_blanks_start(s: Seq<u8>) -> Seq<u8>
    decreases s.len(),
{
    if s.len() > 0 && is_blank(s[0]) {
        trim_blanks_start(s.drop_first())
    } else {
        s
    }
}

/// The token of an `Authorization` header value with the Bearer scheme: the
/// value must be text, start with `Bearer` in any case, then one space and at
/// least one more byte; the token is what follows that space, without its
/// leading blanks.
pub open spec fn bearer_token(value: Seq<u8>) -> Option<Seq<u8>> {
    if value.len() > 6 && value[6] == 32 && (forall|i: int|
        0 <= i < 6 ==> ascii_lower(#[trigger] value[i]) == ascii_lower(bearer_scheme()[i]))
        && header_text(value) is Some {
        Some(trim_blanks_start(value.skip(7)))
    } else {
        None
    }
}

/// The answer to a request with `headers` when the configured token is
/// `secret` (nothing when it is not configured): without a Bearer
/// `authorization` header, unauthorized; without a configured token, an
/// internal error; with a token other than the configured one, unauthorized.
pub open spec fn authorization(headers: Seq<(Seq<char>, Seq<u8>)>, secret: Option<Seq<u8>>) -> Result<
    (),
    Status,
> {
    match first_named(headers, "authorization"@) {
        None => Err(Status::Unauthorized),
        Some(v) => match bearer_token(v) {
            None => Err(Status::Unauthorized),
            Some(token) => match secret {
                None => Err(Status::InternalServerError),
                Some(s) => if token == s {
                    Ok(())
                } else {
                    Err(Status::Unauthorized)
                },
            },
        },
    }
}

/// `subtle::ConstantTimeEq::ct_eq` on two byte slices, read as a `bool`.
///
/// Trusted: true exactly when the slices are equal. The subtle crate compares
/// the lengths first and then every byte, in time that does not depend on the
/// bytes.
#[verifier::external_body]
fn constant_time_eq(a: &[u8], b: &[u8]) -> (res: bool)
    ensures
        res == (a@ == b@),
{
    bool::from(subtle::ConstantTimeEq::ct_eq(a, b))
}

/// The Bearer token of an `Authorization` header value, when it has one.
pub fn parse_bearer(value: &[u8]) -> (res: Option<&[u8]>)
    ensures
        match res {
            Some(t) => bearer_token(value@) == Some(t@),
            None => bearer_token(value@) is None,
        },
{
    let n = value.len();
    if n <= 6 || value[6] != 32 {
        return None;
    }
    let scheme: [u8; 6] = [66, 101, 97, 114, 101, 114];
    assert(scheme@ =~= bearer_scheme());
    let mut i: usize = 0;
    while i < 6
        invariant
            i <= 6,
            n == value@.len(),
            n > 6,
            scheme@ == bearer_scheme(),
            forall|j: int|
                0 <= j < i ==> ascii_lower(#[trigger] value@[j]) == ascii_lower(bearer_scheme()[j]),
        decreases 6 - i,
    {
        let b = value[i];
        let lower = if 65 <= b && b <= 90 {
            b + 32
        } else {
            b
        };
        let c = scheme[i];
        let expected = if 65 <= c && c <= 90 {
            c + 32
        } else {
            c
        };
        if lower != expected {
            assert(ascii_lower(value@[i as int]) != ascii_lower(bearer_scheme()[i as int]));
            return None;
        }
        i = i + 1;
    }
    let mut j: usize = 0;
    while j < n
        invariant
            j <= n,
            n == value@.len(),
            forall|k: int| 0 <= k < j ==> super::text::is_visible_ascii(#[trigger] value@[k]),
        decreases n - j,
    {
        let b = value[j];
        if !((32 <= b && b < 127) || b == 9) {
            assert(header_text(value@) is None) by {
                assert(!super::text::is_visible_ascii(value@[j as int]));
            }
            return None;
        }
        j = j + 1;
    }
    assert(header_text(value@) is Some);
    let mut start: usize = 7;
    assert(trim_blanks_start(value@.skip(7)) == trim_blanks_start(value@.skip(start as int)));
    while start < n && (value[start] == 32 || value[start] == 9)
        invariant
            7 <= start <= n,
            n == value@.len(),
            trim_blanks_start(value@.skip(7)) == trim_blanks_start(value@.skip(start as int)),
        decreases n - start,
    {
        assert(value@.skip(start as int).drop_first() =~= value@.skip(start + 1));
        start = start + 1;
    }
    let (_, token) = value.split_at(start);
    assert(token@ =~= value@.skip(start as int));
    Some(token)
}

/// Decides whether a request with `headers` may use the cache, given the
/// configured token `secret` (nothing when it is not configured), as
/// [`authorization`] states. The tokens are compared in constant time.
pub fn authorize(headers: &[HeaderField], secret: Option<&str>) -> (res: Result<(), Status>)
    ensures
        res == authorization(
            header_fields_view(headers@),
            match secret {
                Some(s) => Some(s.spec_bytes()),
                None => None,
            },
        ),
{
    let value = match find_header(headers, "authorization") {
        None => return Err(Status::Unauthorized),
        Some(i) => headers[i].value.as_slice(),
    };
    let token = match parse_bearer(value) {
        None => return Err(Status::Unauthorized),
        Some(t) => t,
    };
    let expected = match secret {
        None => return Err(Status::InternalServerError),
        Some(s) => s.as_bytes(),
    };
    if constant_time_eq(token, expected) {
        Ok(())
    } else {
        Err(Status::Unauthorized)
    }
}

/// The bytes `Bearer ` (the scheme and the one space after it).
pub open spec fn bearer_prefix() -> Seq<u8> {
    bearer_scheme().push(32u8)
}

/// A token of any length sent as `Bearer ` then the token is read back whole:
/// when the token is text (visible ASCII or tabs) and does not start with a
/// blank, the Bearer token of `Bearer ` + `token` is `token` itself.
pub proof fn law_bearer_token_is_read_whole(token: Seq<u8>)
    requires
        forall|i: int| 0 <= i < token.len() ==> super::text::is_visible_ascii(#[trigger] token[i]),
        token.len() > 0 ==> !is_blank(token[0]),
    ensures
        bearer_token(bearer_prefix() + token) == Some(token),
{
    let v = bearer_prefix() + token;
    assert(v.skip(7) =~= token);
    assert(v[6] == 32u8);
    assert forall|i: int| 0 <= i < 6 implies ascii_lower(#[trigger] v[i]) == ascii_lower(
        bearer_scheme()[i],
    ) by {
        assert(v[i] == bearer_scheme()[i]);
    }
    assert forall|i: int| 0 <= i < v.len() implies super::text::is_visible_ascii(#[trigger] v[i]) by {
        if i >= 7 {
            assert(v[i] == token[i - 7]);
        }
    }
    assert(header_text(v) is Some);
}

/// The configured token, of any length, is accepted: a request whose first
/// `authorization` header is `Bearer ` followed by the token is authorized
/// when that token is the configured one (text that does not start with a
/// blank). And a request is authorized only with the configured token.
pub proof fn law_configured_token_is_accepted(
    headers: Seq<(Seq<char>, Seq<u8>)>,
    token: Seq<u8>,
    secret: Option<Seq<u8>>,
)
    ensures
        ({
            &&& forall|i: int| 0 <= i < token.len() ==> super::text::is_visible_ascii(#[trigger] token[i])
            &&& token.len() > 0 ==> !is_blank(token[0])
            &&& first_named(headers, "authorization"@) == Some(bearer_prefix() + token)
            &&& secret == Some(token)
        }) ==> authorization(headers, secret) == Ok::<(), Status>(()),
        authorization(headers, secret) is Ok ==> (first_named(headers, "authorization"@) matches Some(v)
            && secret matches Some(s) && bearer_token(v) == Some(s)),
{
    if forall|i: int| 0 <= i < token.len() ==> super::text::is_visible_ascii(#[trigger] token[i]) {
        if token.len() > 0 ==> !is_blank(token[0]) {
            law_bearer_token_is_read_whole(token);
        }
    }
}

} // verus!
