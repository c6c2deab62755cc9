use turborepo_cfworkers::events::{
    record_events, CacheEvent, CacheEventKind, CacheSource, MAX_EVENTS_PER_REQUEST,
};
use turborepo_cfworkers::status::Status;

fn event(session: Option<&str>, source: CacheSource, kind: CacheEventKind, hash: &str, duration: u64) -> CacheEvent {
    CacheEvent {
        session_id: session.map(|s| s.to_string()),
        source,
        event: kind,
        hash: hash.to_string(),
        duration,
    }
}

#[test]
fn names_are_uppercase() {
    assert_eq!(CacheSource::Local.as_str(), "LOCAL");
    assert_eq!(CacheSource::Remote.as_str(), "REMOTE");
    assert_eq!(CacheEventKind::Hit.as_str(), "HIT");
    assert_eq!(CacheEventKind::Miss.as_str(), "MISS");
}

#[test]
fn one_data_point_per_event() {
    let events = vec![
        event(None, CacheSource::Local, CacheEventKind::Hit, "abc", 42),
        event(Some("session-1"), CacheSource::Remote, CacheEventKind::Miss, "def", 7),
    ];
    let batch = record_events(&events).unwrap();
    assert_eq!(batch.event_type, "turborepo.cache.events");
    assert_eq!(batch.event_count, 2);
    assert_eq!(batch.data_points.len(), 2);
    assert_eq!(batch.data_points[0].index, "turborepo");
    assert_eq!(batch.data_points[0].blobs, vec!["LOCAL", "HIT", "abc", ""]);
    assert_eq!(batch.data_points[0].duration, 42);
    assert_eq!(batch.data_points[1].blobs, vec!["REMOTE", "MISS", "def", "session-1"]);
    assert_eq!(batch.data_points[1].duration, 7);
}

#[test]
fn too_many_events_are_refused() {
    let at_limit: Vec<CacheEvent> = (0..MAX_EVENTS_PER_REQUEST)
        .map(|_| event(None, CacheSource::Local, CacheEventKind::Hit, "h", 1))
        .collect();
    assert_eq!(record_events(&at_limit).unwrap().event_count, 250);
    let mut over = at_limit;
    over.push(event(None, CacheSource::Local, CacheEventKind::Hit, "h", 1));
    assert_eq!(record_events(&over).unwrap_err(), Status::PayloadTooLarge);
    assert_eq!(record_events(&Vec::new()).unwrap().data_points.len(), 0);
}
