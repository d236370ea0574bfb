use stop_sync::enrich::{
    read_answer, retry_delay_secs, EnrichFailure, EnrichOutcome, EnrichRun, GeocodeCandidate,
    GeocodeReply, GeocodeRetry, RetryStep, BATCH_SIZE, MAX_RETRIES,
};
use stop_sync::models::Stop;

fn stop(id: &str, position: &str) -> Stop {
    Stop {
        id: id.to_string(),
        position: position.to_string(),
        latitude: String::new(),
        longitude: String::new(),
        stop_id: "TS00011".to_string(),
    }
}

fn bogota() -> GeocodeCandidate {
    GeocodeCandidate {
        full_address: Some("Bogotá, 111611, Colombia".to_string()),
        has_coordinates: true,
        longitude: Some("-74.103439".to_string()),
        latitude: Some("4.605241".to_string()),
    }
}

fn failure(o: &EnrichOutcome) -> Option<EnrichFailure> {
    match o {
        EnrichOutcome::Failed(f) => Some(*f),
        _ => None,
    }
}

#[test]
fn first_candidate_is_taken() {
    let other = GeocodeCandidate {
        full_address: Some("Elsewhere".to_string()),
        has_coordinates: true,
        longitude: Some("1".to_string()),
        latitude: Some("2".to_string()),
    };
    match read_answer(Some(vec![bogota(), other])) {
        EnrichOutcome::Enriched { position, latitude, longitude } => {
            assert_eq!(position, "Bogotá, 111611, Colombia");
            assert_eq!(latitude, "4.605241");
            assert_eq!(longitude, "-74.103439");
        }
        _ => panic!("expected an enriched record"),
    }
}

#[test]
fn empty_answer_is_no_results() {
    assert_eq!(failure(&read_answer(Some(Vec::new()))), Some(EnrichFailure::NoResults));
    assert_eq!(failure(&read_answer(None)), Some(EnrichFailure::NoFeatures));
}

#[test]
fn missing_fields_fail() {
    let mut c = bogota();
    c.full_address = None;
    assert_eq!(failure(&read_answer(Some(vec![c]))), Some(EnrichFailure::MissingAddress));
    let mut c = bogota();
    c.has_coordinates = false;
    assert_eq!(failure(&read_answer(Some(vec![c]))), Some(EnrichFailure::MissingCoordinates));
    let mut c = bogota();
    c.longitude = None;
    assert_eq!(failure(&read_answer(Some(vec![c]))), Some(EnrichFailure::InvalidLongitude));
    let mut c = bogota();
    c.latitude = None;
    assert_eq!(failure(&read_answer(Some(vec![c]))), Some(EnrichFailure::InvalidLatitude));
}

#[test]
fn backoff_doubles_or_follows_hint() {
    assert_eq!(retry_delay_secs(0, None), 1);
    assert_eq!(retry_delay_secs(1, None), 2);
    assert_eq!(retry_delay_secs(2, None), 4);
    assert_eq!(retry_delay_secs(3, None), 8);
    assert_eq!(retry_delay_secs(2, Some(7)), 7);
}

#[test]
fn throttled_until_cap_then_fails() {
    let mut r = GeocodeRetry::new();
    let mut waits = Vec::new();
    loop {
        match r.on_reply(GeocodeReply::Throttled { retry_after: None }) {
            RetryStep::Wait(s) => waits.push(s),
            RetryStep::Finish(o) => {
                assert_eq!(failure(&o), Some(EnrichFailure::RateLimited));
                break;
            }
        }
    }
    assert_eq!(waits, vec![1, 2, 4]);
    assert_eq!(waits.len(), MAX_RETRIES as usize);
}

#[test]
fn other_replies_are_definitive() {
    let mut r = GeocodeRetry::new();
    match r.on_reply(GeocodeReply::Status(500)) {
        RetryStep::Finish(o) => assert_eq!(failure(&o), Some(EnrichFailure::UnexpectedStatus(500))),
        _ => panic!("a server error is not retried"),
    }
    let mut r = GeocodeRetry::new();
    match r.on_reply(GeocodeReply::Transport) {
        RetryStep::Finish(o) => assert_eq!(failure(&o), Some(EnrichFailure::Transport)),
        _ => panic!("a transport failure is not retried"),
    }
    let mut r = GeocodeRetry::new();
    assert!(matches!(r.on_reply(GeocodeReply::Throttled { retry_after: Some(3) }), RetryStep::Wait(3)));
    match r.on_reply(GeocodeReply::Answer { features: Some(vec![bogota()]) }) {
        RetryStep::Finish(EnrichOutcome::Enriched { position, .. }) => {
            assert_eq!(position, "Bogotá, 111611, Colombia")
        }
        _ => panic!("expected an enriched record"),
    }
}

fn run(n: usize, b: usize, fail: &[usize]) -> (Vec<(usize, usize)>, usize, EnrichRun) {
    let records: Vec<Stop> = (0..n).map(|i| stop(&i.to_string(), "old")).collect();
    let mut e = EnrichRun::new(records, b);
    let mut batches = Vec::new();
    let mut waits = 0;
    while let Some((start, end)) = e.next_batch() {
        batches.push((start, end));
        let outcomes = (start..end)
            .map(|i| {
                if fail.contains(&i) {
                    EnrichOutcome::Failed(EnrichFailure::RateLimited)
                } else {
                    EnrichOutcome::Enriched {
                        position: format!("new {}", i),
                        latitude: "1".to_string(),
                        longitude: "2".to_string(),
                    }
                }
            })
            .collect();
        if e.apply_batch(outcomes) {
            waits += 1;
        }
    }
    (batches, waits, e)
}

#[test]
fn twelve_records_two_batches_one_wait() {
    let (batches, waits, e) = run(12, BATCH_SIZE, &[]);
    assert_eq!(batches, vec![(0, 10), (10, 12)]);
    assert_eq!(waits, 1);
    assert_eq!(e.cooldowns(), 1);
}

#[test]
fn full_last_batch_needs_no_wait() {
    let (batches, waits, _) = run(20, 10, &[]);
    assert_eq!(batches.len(), 2);
    assert_eq!(waits, 1);
    let (_, waits, _) = run(10, 10, &[]);
    assert_eq!(waits, 0);
    let (batches, waits, _) = run(0, 10, &[]);
    assert!(batches.is_empty());
    assert_eq!(waits, 0);
    let (_, waits, _) = run(35, 10, &[]);
    assert_eq!(waits, 3);
}

#[test]
fn failed_record_keeps_values_and_is_logged_once() {
    let (_, _, e) = run(12, 10, &[3, 11]);
    assert_eq!(e.failed(), &vec![3, 11]);
    let records = e.into_records();
    assert_eq!(records[3].position, "old");
    assert_eq!(records[11].position, "old");
    assert_eq!(records[4].position, "new 4");
    assert_eq!(records[4].latitude, "1");
    assert_eq!(records[4].longitude, "2");
    assert_eq!(records[4].stop_id, "TS00011");
    assert_eq!(records[4].id, "4");
}
