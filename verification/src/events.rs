//! Cache usage events that Turborepo reports, and the Analytics Engine data
//! points recorded for them.

use vstd::prelude::*;
use vstd::string::StringExecFns;

use crate::status::Status;

verus! {

/// Where Turborepo found (or missed) an artifact.
#[derive(Clone, Copy, Debug, PartialEq, Eq, Structural)]
pub enum CacheSource {
    Local,
    Remote,
}

impl CacheSource {
    /// The name under which the source travels, in uppercase.
    pub open spec fn name(self) -> Seq<char> {
        match self {
            CacheSource::Local => "LOCAL"@,
            CacheSource::Remote => "REMOTE"@,
        }
    }

    /// The name under which the source travels: `LOCAL` or `REMOTE`.
    pub fn as_str(self) -> (res: &'static str)
        ensures
            res@ == self.name(),
    {
        match self {
            CacheSource::Local => "LOCAL",
            CacheSource::Remote => "REMOTE",
        }
    }
}

/// Whether a cache lookup hit or missed.
#[derive(Clone, Copy, Debug, PartialEq, Eq, Structural)]
pub enum CacheEventKind {
    Hit,
    Miss,
}

impl CacheEventKind {
    /// The name under which the kind travels, in uppercase.
    pub open spec fn name(self) -> Seq<char> {
        match self {
            CacheEventKind::Hit => "HIT"@,
            CacheEventKind::Miss => "MISS"@,
        }
    }

    /// The name under which the kind travels: `HIT` or `MISS`.
    pub fn as_str(self) -> (res: &'static str)
        ensures
            res@ == self.name(),
    {
        match self {
            CacheEventKind::Hit => "HIT",
            CacheEventKind::Miss => "MISS",
        }
    }
}

/// One cache usage event reported by Turborepo.
#[derive(Debug)]
pub struct CacheEvent {
    pub session_id: Option<String>,
    pub source: CacheSource,
    pub event: CacheEventKind,
    pub hash: String,
    pub duration: u64,
}

/// One Analytics Engine data point: its index, its text blobs and the
/// duration that becomes its one number.
#[derive(Debug)]
pub struct DataPoint {
    pub index: String,
    pub blobs: Vec<String>,
    pub duration: u64,
}

pub open spec fn strings_view(v: Seq<String>) -> Seq<Seq<char>> {
    v.map_values(|s: String| s@)
}

impl View for DataPoint {
    type V = (Seq<char>, Seq<Seq<char>>, u64);

    open spec fn view(&self) -> (Seq<char>, Seq<Seq<char>>, u64) {
        (self.index@, strings_view(self.blobs@), self.duration)
    }
}

/// The most events that one request may report.
pub const MAX_EVENTS_PER_REQUEST: usize = 250;

/// The data point recorded for `e`: index `turborepo`; blobs its source, its
/// kind, its hash and its session id (empty when it has none); its duration.
pub open spec fn data_point_of(e: CacheEvent) -> (Seq<char>, Seq<Seq<char>>, u64) {
    (
        "turborepo"@,
        seq![
            e.source.name(),
            e.event.name(),
            e.hash@,
            match e.session_id {
                Some(s) => s@,
                None => Seq::empty(),
            },
        ],
        e.duration,
    )
}

/// What a batch of reported events is recorded as.
#[derive(Debug)]
pub struct EventBatch {
    /// One data point per event, in the order reported.
    pub data_points: Vec<DataPoint>,
    /// The type of the log line written for the batch.
    pub event_type: String,
    /// How many events the batch holds.
    pub event_count: usize,
}

/// The data point recorded for one event.
pub fn data_point(e: &CacheEvent) -> (res: DataPoint)
    ensures
        res@ == data_point_of(*e),
{
    let mut blobs: Vec<String> = Vec::new();
    blobs.push(String::from_str(e.source.as_str()));
    blobs.push(String::from_str(e.event.as_str()));
    blobs.push(e.hash.clone());
    blobs.push(
        match &e.session_id {
            Some(s) => s.clone(),
            None => String::new(),
        },
    );
    let res = DataPoint { index: String::from_str("turborepo"), blobs, duration: e.duration };
    assert(strings_view(res.blobs@) =~= data_point_of(*e).1);
    res
}

/// Decides what a report of `events` records: more than
/// [`MAX_EVENTS_PER_REQUEST`] events is a payload too large; otherwise one
/// data point per event, in order, and a log line of type
/// `turborepo.cache.events` that counts them.
pub fn record_events(events: &Vec<CacheEvent>) -> (res: Result<EventBatch, Status>)
    ensures
        events@.len() > MAX_EVENTS_PER_REQUEST ==> res == Err::<EventBatch, Status>(
            Status::PayloadTooLarge,
        ),
        events@.len() <= MAX_EVENTS_PER_REQUEST ==> (res matches Ok(b) && {
            &&& b.data_points@.len() == events@.len()
            &&& forall|i: int|
                0 <= i < events@.len() ==> (#[trigger] b.data_points@[i])@ == data_point_of(
                    events@[i],
                )
            &&& b.event_type@ == "turborepo.cache.events"@
            &&& b.event_count == events@.len()
        }),
        res is Ok <==> events@.len() <= 250,
{
    if events.len() > MAX_EVENTS_PER_REQUEST {
        return Err(Status::PayloadTooLarge);
    }
    let mut points: Vec<DataPoint> = Vec::new();
    let mut i: usize = 0;
    while i < events.len()
        invariant
            i <= events@.len(),
            points@.len() == i,
            forall|j: int| 0 <= j < i ==> (#[trigger] points@[j])@ == data_point_of(events@[j]),
        decreases events.len() - i,
    {
        points.push(data_point(&events[i]));
        i = i + 1;
    }
    Ok(
        EventBatch {
            data_points: points,
            event_type: String::from_str("turborepo.cache.events"),
            event_count: events.len(),
        },
    )
}

/// The data point recorded for an event carries that event's own facts, each
/// in its own place and independently of the others: index `turborepo`; the
/// blobs are its source's name, its kind's name (`HIT` for a hit, `MISS` for a
/// miss, whatever the source), its hash and its session id (empty when it has
/// none); the number is its duration. The two sources, and the two kinds, are
/// recorded under different names.
pub proof fn law_data_point_records_the_event(e: CacheEvent)
    ensures
        data_point_of(e).0 == "turborepo"@,
        data_point_of(e).1.len() == 4,
        data_point_of(e).1[0] == e.source.name(),
        data_point_of(e).1[1] == e.event.name(),
        data_point_of(e).1[2] == e.hash@,
        e.session_id matches Some(s) ==> data_point_of(e).1[3] == s@,
        e.session_id is None ==> data_point_of(e).1[3].len() == 0,
        data_point_of(e).2 == e.duration,
        e.source == CacheSource::Local ==> data_point_of(e).1[0] == "LOCAL"@,
        e.source == CacheSource::Remote ==> data_point_of(e).1[0] == "REMOTE"@,
        e.event == CacheEventKind::Hit ==> data_point_of(e).1[1] == "HIT"@,
        e.event == CacheEventKind::Miss ==> data_point_of(e).1[1] == "MISS"@,
        CacheEventKind::Hit.name() != CacheEventKind::Miss.name(),
        CacheSource::Local.name() != CacheSource::Remote.name(),
{
    reveal_strlit("HIT");
    reveal_strlit("MISS");
    reveal_strlit("LOCAL");
    reveal_strlit("REMOTE");
    assert("HIT"@.len() != "MISS"@.len());
    assert("LOCAL"@.len() != "REMOTE"@.len());
}

} // verus!
