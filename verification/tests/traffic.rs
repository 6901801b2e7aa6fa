use fe2o3_steel::feeds::{build_chart_json, by_status_json, sorted_status_keys};
use fe2o3_steel::traffic::{
    RequestRecord, TrafficRecorder, TrafficSample, DEFAULT_RING_CAPACITY, MAX_PATHS_PER_VHOST,
    OTHER_PATH_BUCKET,
};

fn mkrec(vhost: &str, path: &str, status: u16) -> RequestRecord {
    RequestRecord {
        when_ns: 0,
        vhost: vhost.to_string(),
        method: "GET".to_string(),
        path: path.to_string(),
        status,
        peer: "127.0.0.1:0".to_string(),
        bytes: Some(42),
        duration_us: 123,
    }
}

#[test]
fn record_and_recent() {
    let mut r = TrafficRecorder::new(4);
    r.record(mkrec("a", "/", 200));
    r.record(mkrec("a", "/x", 200));
    r.record(mkrec("a", "/y", 404));
    let recent = r.recent(0);
    assert_eq!(recent.len(), 3);
    assert_eq!(recent[0].path, "/y");
    assert_eq!(recent[2].path, "/");
}

#[test]
fn ring_evicts_oldest() {
    let mut r = TrafficRecorder::new(2);
    r.record(mkrec("a", "/1", 200));
    r.record(mkrec("a", "/2", 200));
    r.record(mkrec("a", "/3", 200));
    let recent = r.recent(0);
    assert_eq!(recent.len(), 2);
    let paths: Vec<&str> = recent.iter().map(|r| r.path.as_str()).collect();
    assert!(!paths.contains(&"/1"));
    assert!(paths.contains(&"/3"));
}

#[test]
fn counters_track_status_and_vhost() {
    let mut r = TrafficRecorder::new(100);
    r.record(mkrec("a", "/", 200));
    r.record(mkrec("a", "/", 200));
    r.record(mkrec("a", "/", 404));
    r.record(mkrec("b", "/", 500));
    let snap = r.counters_snapshot();
    assert_eq!(snap.total, 4);
    assert_eq!(snap.status_count(200), Some(2));
    assert_eq!(snap.status_count(404), Some(1));
    assert_eq!(snap.status_count(500), Some(1));
    let vh_a = snap.vhost("a").expect("vhost a");
    assert_eq!(vh_a.total, 3);
    let vh_b = snap.vhost("b").expect("vhost b");
    assert_eq!(vh_b.total, 1);
    assert_eq!(r.total(), 4);
}

#[test]
fn per_vhost_path_bucket_saturates() {
    let mut r = TrafficRecorder::new(10_000);
    for i in 0..(MAX_PATHS_PER_VHOST + 5) {
        let p = format!("/p{}", i);
        r.record(mkrec("a", &p, 200));
    }
    let snap = r.counters_snapshot();
    let vh_a = snap.vhost("a").expect("vhost a");
    assert!(vh_a.path_buckets() <= MAX_PATHS_PER_VHOST + 1);
    assert_eq!(vh_a.path_count(OTHER_PATH_BUCKET), Some(5));
}

#[test]
fn recent_honours_limit() {
    let mut r = TrafficRecorder::new(100);
    for i in 0..10 {
        r.record(mkrec("a", &format!("/p{}", i), 200));
    }
    let three = r.recent(3);
    assert_eq!(three.len(), 3);
    assert_eq!(three[0].path, "/p9");
    assert_eq!(three[2].path, "/p7");
}

#[test]
fn a_zero_capacity_means_the_default() {
    let r = TrafficRecorder::new(0);
    assert_eq!(r.capacity(), DEFAULT_RING_CAPACITY);
}

#[test]
fn the_ring_never_exceeds_its_capacity() {
    let mut r = TrafficRecorder::new(3);
    for i in 0..20 {
        r.record(mkrec("a", &format!("/{}", i), 200));
        assert!(r.recent(0).len() <= 3);
    }
    assert_eq!(r.total(), 20);
}

#[test]
fn samples_are_kept_oldest_first() {
    let mut r = TrafficRecorder::new(10);
    r.record(mkrec("a", "/", 200));
    r.sample_at(100);
    r.record(mkrec("a", "/", 404));
    r.sample_at(105);
    let h = r.history_snapshot();
    assert_eq!(h.len(), 2);
    assert_eq!(h[0].when_secs, 100);
    assert_eq!(h[0].total, 1);
    assert_eq!(h[1].total, 2);
}

fn sample(when: u64, total: u64, by: &[(u16, u64)]) -> TrafficSample {
    TrafficSample { when_secs: when, total, by_status: by.to_vec() }
}

#[test]
fn the_chart_counts_requests_per_interval() {
    let h = vec![
        sample(100, 3, &[(200, 2), (404, 1)]),
        sample(105, 6, &[(200, 4), (404, 2)]),
        sample(110, 7, &[(200, 5), (404, 2)]),
    ];
    let chart = build_chart_json(&h, &vec![200, 404]);
    assert_eq!(
        chart,
        "{\"t\":[105,110],\"series\":[{\"label\":\"HTTP 200\",\"values\":[2,1]},{\"label\":\"HTTP 404\",\"values\":[1,0]}]}"
    );
}

#[test]
fn a_chart_needs_two_samples() {
    let h = vec![sample(100, 3, &[(200, 3)])];
    assert_eq!(build_chart_json(&h, &vec![200]), "{\"t\": [], \"series\": []}");
}

#[test]
fn a_counter_that_went_backwards_counts_zero() {
    let h = vec![sample(1, 9, &[(500, 9)]), sample(2, 0, &[])];
    assert_eq!(
        build_chart_json(&h, &vec![500]),
        "{\"t\":[2],\"series\":[{\"label\":\"HTTP 500\",\"values\":[0]}]}"
    );
}

#[test]
fn status_keys_come_out_sorted_and_once() {
    let keys = sorted_status_keys(&vec![(404, 1), (200, 7), (500, 2), (200, 1)]);
    assert_eq!(keys, vec![200, 404, 500]);
    assert_eq!(
        by_status_json(&vec![200, 404, 301], &vec![(404, 1), (200, 7)]),
        "[{\"code\":200,\"count\":7},{\"code\":404,\"count\":1},{\"code\":301,\"count\":0}]"
    );
}

#[test]
fn recording_a_request_shows_in_every_reading() {
    let mut r = TrafficRecorder::new(3);
    r.record(mkrec("a", "/1", 200));
    r.record(mkrec("a", "/2", 404));
    r.record(mkrec("b", "/3", 200));
    let before: Vec<String> = r.recent(0).iter().map(|x| x.path.clone()).collect();
    let snap = r.counters_snapshot();
    r.record(mkrec("a", "/2", 404));
    assert_eq!(r.total(), snap.total + 1);
    let after = r.counters_snapshot();
    assert_eq!(after.status_count(404), Some(snap.status_count(404).unwrap() + 1));
    let (old_a, new_a) = (snap.vhost("a").unwrap(), after.vhost("a").unwrap());
    assert_eq!(new_a.total, old_a.total + 1);
    assert_eq!(new_a.path_count("/2"), Some(old_a.path_count("/2").unwrap() + 1));
    let recent: Vec<String> = r.recent(0).iter().map(|x| x.path.clone()).collect();
    let mut expected = vec!["/2".to_string()];
    expected.extend(before.into_iter().take(2));
    assert_eq!(recent, expected);
}
