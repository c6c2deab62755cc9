//! Named values: the headers of a request as they arrived, and the headers
//! or metadata entries that the cache writes out.

use vstd::prelude::*;

use crate::status::Status;
use crate::text::{header_text, header_value_text};

verus! {

/// A request header as it arrived: its name in lowercase and its raw value.
#[derive(Debug)]
pub struct HeaderField {
    pub name: String,
    pub value: Vec<u8>,
}

impl View for HeaderField {
    type V = (Seq<char>, Seq<u8>);

    open spec fn view(&self) -> (Seq<char>, Seq<u8>) {
        (self.name@, self.value@)
    }
}

/// A header or metadata entry that the cache writes: a name and a text value.
#[derive(Clone, Debug)]
pub struct Field {
    pub name: String,
    pub value: String,
}

impl View for Field {
    type V = (Seq<char>, Seq<char>);

    open spec fn view(&self) -> (Seq<char>, Seq<char>) {
        (self.name@, self.value@)
    }
}

pub open spec fn header_fields_view(fields: Seq<HeaderField>) -> Seq<(Seq<char>, Seq<u8>)> {
    fields.map_values(|f: HeaderField| f@)
}

pub open spec fn fields_view(fields: Seq<Field>) -> Seq<(Seq<char>, Seq<char>)> {
    fields.map_values(|f: Field| f@)
}

/// The value of the first entry named `name`, as a header map's lookup gives
/// the first value of a name.
pub open spec fn first_named<V>(entries: Seq<(Seq<char>, V)>, name: Seq<char>) -> Option<V>
    decreases entries.len(),
{
    if entries.len() == 0 {
        None
    } else if entries[0].0 == name {
        Some(entries[0].1)
    } else {
        first_named(entries.drop_first(), name)
    }
}

/// A header that may be absent, read as text: absent gives nothing, a value
/// that is not visible ASCII is a bad request.
pub open spec fn optional_header_text(headers: Seq<(Seq<char>, Seq<u8>)>, name: Seq<char>) -> Result<
    Option<Seq<char>>,
    Status,
> {
    match first_named(headers, name) {
        None => Ok(None),
        Some(v) => match header_text(v) {
            Some(t) => Ok(Some(t)),
            None => Err(Status::BadRequest),
        },
    }
}

proof fn lemma_first_named_skip<V>(entries: Seq<(Seq<char>, V)>, name: Seq<char>, i: int)
    requires
        0 <= i < entries.len(),
    ensures
        first_named(entries.skip(i), name) == if entries[i].0 == name {
            Some(entries[i].1)
        } else {
            first_named(entries.skip(i + 1), name)
        },
{
    assert(entries.skip(i).drop_first() =~= entries.skip(i + 1));
}

/// Where the first header named `name` stands among `headers`.
pub fn find_header(headers: &[HeaderField], name: &str) -> (res: Option<usize>)
    ensures
        match res {
            Some(i) => i < headers@.len() && first_named(header_fields_view(headers@), name@)
                == Some(headers@[i as int].value@),
            None => first_named(header_fields_view(headers@), name@) is None,
        },
{
    let wanted = name.to_owned();
    let ghost all = header_fields_view(headers@);
    let mut i: usize = 0;
    assert(all.skip(0) =~= all);
    while i < headers.len()
        invariant
            i <= headers@.len(),
            all == header_fields_view(headers@),
            wanted@ == name@,
            first_named(all, name@) == first_named(all.skip(i as int), name@),
        decreases headers.len() - i,
    {
        proof {
            lemma_first_named_skip(all, name@, i as int);
        }
        if headers[i].name == wanted {
            return Some(i);
        }
        i = i + 1;
    }
    assert(all.skip(i as int) =~= Seq::<(Seq<char>, Seq<u8>)>::empty());
    None
}

/// The first header named `name`, read as text, when it is there.
pub fn optional_header(headers: &[HeaderField], name: &str) -> (res: Result<Option<String>, Status>)
    ensures
        match (res, optional_header_text(header_fields_view(headers@), name@)) {
            (Ok(Some(s)), Ok(Some(t))) => s@ == t,
            (Ok(None), Ok(None)) => true,
            (Err(e), Err(f)) => e == f,
            _ => false,
        },
{
    match find_header(headers, name) {
        None => Ok(None),
        Some(i) => match header_value_text(headers[i].value.as_slice()) {
            Some(s) => Ok(Some(s)),
            None => Err(Status::BadRequest),
        },
    }
}

/// Where the first entry named `name` stands among `fields`.
pub fn find_field(fields: &[Field], name: &str) -> (res: Option<usize>)
    ensures
        match res {
            Some(i) => i < fields@.len() && first_named(fields_view(fields@), name@) == Some(
                fields@[i as int].value@,
            ),
            None => first_named(fields_view(fields@), name@) is None,
        },
{
    let wanted = name.to_owned();
    let ghost all = fields_view(fields@);
    let mut i: usize = 0;
    assert(all.skip(0) =~= all);
    while i < fields.len()
        invariant
            i <= fields@.len(),
            all == fields_view(fields@),
            wanted@ == name@,
            first_named(all, name@) == first_named(all.skip(i as int), name@),
        decreases fields.len() - i,
    {
        proof {
            lemma_first_named_skip(all, name@, i as int);
        }
        if fields[i].name == wanted {
            return Some(i);
        }
        i = i + 1;
    }
    assert(all.skip(i as int) =~= Seq::<(Seq<char>, Seq<char>)>::empty());
    None
}

} // verus!
