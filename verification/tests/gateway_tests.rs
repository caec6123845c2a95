use tasksync::gateway::{
    calendar_events_query, classify_status, extract_event, extract_events, fetch_window_start,
    next_sync_step, CalendarEvent, EntryPoint, ProviderError, RawEvent, SyncStep,
};

fn raw(summary: Option<&str>) -> RawEvent {
    RawEvent {
        summary: summary.map(|s| s.to_string()),
        hangout_link: None,
        entry_points: vec![],
        location: None,
        start_date_time: None,
        start_date: None,
        end_date_time: None,
        end_date: None,
        description: None,
    }
}

#[test]
fn statuses_classify_as_documented() {
    assert_eq!(classify_status(200), Ok(()));
    assert_eq!(classify_status(204), Ok(()));
    assert_eq!(classify_status(299), Ok(()));
    assert_eq!(classify_status(401), Err(ProviderError::AuthExpired));
    assert_eq!(classify_status(403), Err(ProviderError::AuthExpired));
    assert_eq!(classify_status(404), Err(ProviderError::PermanentRejection));
    assert_eq!(classify_status(429), Err(ProviderError::PermanentRejection));
    assert_eq!(classify_status(500), Err(ProviderError::Transient));
    assert_eq!(classify_status(503), Err(ProviderError::Transient));
    assert_eq!(classify_status(599), Err(ProviderError::Transient));
    assert_eq!(classify_status(300), Err(ProviderError::PermanentRejection));
}

#[test]
fn auth_failure_refreshes_once_then_aborts() {
    assert_eq!(next_sync_step(false, Ok(())), SyncStep::Done);
    assert_eq!(
        next_sync_step(false, Err(ProviderError::AuthExpired)),
        SyncStep::RefreshAndRetry
    );
    assert_eq!(
        next_sync_step(true, Err(ProviderError::AuthExpired)),
        SyncStep::AbortReauthorize
    );
    assert_eq!(
        next_sync_step(false, Err(ProviderError::Transient)),
        SyncStep::RetryNextCycle
    );
    assert_eq!(
        next_sync_step(true, Err(ProviderError::PermanentRejection)),
        SyncStep::AbortRejected
    );
}

#[test]
fn items_without_a_summary_are_skipped() {
    assert_eq!(extract_event(&raw(None)), None);
    assert_eq!(extract_event(&raw(Some(""))), None);
}

#[test]
fn hangout_link_is_preferred_over_everything() {
    let mut r = raw(Some("standup"));
    r.hangout_link = Some("https://meet.example/abc".to_string());
    r.entry_points = vec![EntryPoint {
        entry_point_type: "video".to_string(),
        uri: Some("https://other.example".to_string()),
    }];
    r.location = Some("Room 1".to_string());
    let ev = extract_event(&r).unwrap();
    assert_eq!(ev.location.as_deref(), Some("https://meet.example/abc"));
}

#[test]
fn first_video_entry_point_is_the_fallback_link() {
    let mut r = raw(Some("standup"));
    r.entry_points = vec![
        EntryPoint { entry_point_type: "phone".to_string(), uri: Some("tel:1".to_string()) },
        EntryPoint {
            entry_point_type: "video".to_string(),
            uri: Some("https://meet.example/v".to_string()),
        },
        EntryPoint {
            entry_point_type: "video".to_string(),
            uri: Some("https://late.example".to_string()),
        },
    ];
    r.location = Some("Room 1".to_string());
    let ev = extract_event(&r).unwrap();
    assert_eq!(ev.location.as_deref(), Some("https://meet.example/v"));
}

#[test]
fn video_entry_without_uri_falls_back_to_location() {
    let mut r = raw(Some("standup"));
    r.entry_points = vec![EntryPoint { entry_point_type: "video".to_string(), uri: None }];
    r.location = Some("Room 1".to_string());
    let ev = extract_event(&r).unwrap();
    assert_eq!(ev.location.as_deref(), Some("Room 1"));
}

#[test]
fn timed_fields_are_preferred_over_all_day_dates() {
    let mut r = raw(Some("standup"));
    r.start_date_time = Some("2024-05-01T09:00:00Z".to_string());
    r.start_date = Some("2024-05-01".to_string());
    r.end_date = Some("2024-05-01".to_string());
    r.description = Some("daily".to_string());
    let ev = extract_event(&r).unwrap();
    assert_eq!(
        ev,
        CalendarEvent {
            summary: "standup".to_string(),
            start: Some("2024-05-01T09:00:00Z".to_string()),
            end: Some("2024-05-01".to_string()),
            description: Some("daily".to_string()),
            location: None,
        }
    );
}

#[test]
fn extraction_keeps_order_and_drops_skipped_items() {
    let items = vec![raw(Some("one")), raw(None), raw(Some("")), raw(Some("two"))];
    let events = extract_events(&items);
    let summaries: Vec<&str> = events.iter().map(|e| e.summary.as_str()).collect();
    assert_eq!(summaries, vec!["one", "two"]);
}

#[test]
fn fetch_query_lists_the_three_parameters() {
    let q = calendar_events_query("2024-04-01T00:00:00Z");
    assert_eq!(q.len(), 3);
    assert_eq!(q[0], ("timeMin".to_string(), "2024-04-01T00:00:00Z".to_string()));
    assert_eq!(q[1], ("singleEvents".to_string(), "true".to_string()));
    assert_eq!(q[2], ("orderBy".to_string(), "startTime".to_string()));
}

#[test]
fn fetch_window_start_is_a_timestamp() {
    let t = fetch_window_start();
    assert!(!t.is_empty());
    // RFC 3339: the date part alone is ten characters.
    assert!(t.len() >= 10);
}
