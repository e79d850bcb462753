use time_tracker::changes_status::ChangesStatus;
use time_tracker::remote_data::RemoteData;
use time_tracker::time::{tracked_total, Span};

#[test]
fn tracked_counts_running_entry_up_to_now() {
    let t0: i64 = 1_609_459_200;
    let t1: i64 = t0 + 3_600;
    let spans = vec![
        Span { started: t0, stopped: Some(t0 + 30) },
        Span { started: t1, stopped: None },
    ];
    assert_eq!(tracked_total(&spans, t1 + 10), Some(40));
}

#[test]
fn tracked_of_nothing_is_zero() {
    assert_eq!(tracked_total(&Vec::new(), 123), Some(0));
}

#[test]
fn tracked_refuses_a_total_out_of_range() {
    let spans = vec![
        Span { started: 0, stopped: Some(i64::MAX) },
        Span { started: 0, stopped: Some(1) },
    ];
    assert_eq!(tracked_total(&spans, 0), None);
    let back = vec![
        Span { started: 0, stopped: Some(i64::MAX) },
        Span { started: 1, stopped: Some(0) },
    ];
    assert_eq!(tracked_total(&back, 0), Some(i64::MAX - 1));
}

#[test]
fn three_saves_settle_once() {
    let mut s = ChangesStatus::new();
    assert_eq!(s.requests_in_flight(), 0);
    s.request_started();
    s.request_started();
    s.request_started();
    assert_eq!(s, ChangesStatus::Saving { requests_in_flight: 3 });
    s.request_finished(10);
    assert_eq!(s, ChangesStatus::Saving { requests_in_flight: 2 });
    s.request_finished(11);
    assert_eq!(s, ChangesStatus::Saving { requests_in_flight: 1 });
    s.request_finished(12);
    assert_eq!(s, ChangesStatus::Saved(12));
    s.request_finished(13);
    assert_eq!(s, ChangesStatus::Saved(12));
    assert_eq!(s.requests_in_flight(), 0);
}

#[test]
fn saved_goes_back_to_saving() {
    let mut s = ChangesStatus::Saved(5);
    s.request_started();
    assert_eq!(s, ChangesStatus::Saving { requests_in_flight: 1 });
}

#[test]
fn finishing_with_nothing_in_flight_changes_nothing() {
    let mut s = ChangesStatus::NoChanges;
    s.request_finished(3);
    assert_eq!(s, ChangesStatus::NoChanges);
}

#[test]
fn remote_data_is_present_only_when_loaded() {
    let mut loading: RemoteData<u32> = RemoteData::Loading;
    assert!(loading.loaded().is_none());
    assert!(loading.loaded_mut().is_none());
    let not_asked: RemoteData<u32> = RemoteData::NotAsked;
    assert!(not_asked.loaded().is_none());
    let mut loaded = RemoteData::Loaded(7u32);
    assert_eq!(loaded.loaded(), Some(&7));
    if let Some(v) = loaded.loaded_mut() {
        *v = 8;
    }
    assert_eq!(loaded.loaded(), Some(&8));
}
