use website_monitor::fingerprint::fingerprint;
use website_monitor::monitor::{CheckFailure, CheckResult, SiteState};

const URL: &str = "http://example.test";

#[test]
fn fingerprint_of_body_is_md5_hex() {
    let fp = fingerprint("hello");
    assert_eq!(fp.hash, "5d41402abc4b2a76b9719d911017c592");
    assert_eq!(fp.size, 5);
    let empty = fingerprint("");
    assert_eq!(empty.hash, "d41d8cd98f00b204e9800998ecf8427e");
    assert_eq!(empty.size, 0);
}

#[test]
fn fingerprint_counts_bytes_not_chars() {
    let fp = fingerprint("é");
    assert_eq!(fp.size, 2);
    assert_eq!(fp.hash.len(), 32);
}

#[test]
fn response_status_classes() {
    assert!(CheckResult::from_response(200, "A", 1).is_up);
    assert!(CheckResult::from_response(204, "A", 1).is_up);
    assert!(CheckResult::from_response(299, "A", 1).is_up);
    assert!(!CheckResult::from_response(199, "A", 1).is_up);
    assert!(!CheckResult::from_response(300, "A", 1).is_up);
    assert!(!CheckResult::from_response(404, "A", 1).is_up);
    assert!(!CheckResult::from_response(500, "A", 1).is_up);
}

#[test]
fn body_changes_between_ticks() {
    let mut state = SiteState::new();
    let first = state.record_success(URL, CheckResult::from_response(200, "A", 12));
    assert_eq!(
        first,
        vec!["website: http://example.test | load_time: 12ms | status: up | size: 1bytes | content_hash: 7fc56".to_string()]
    );
    let second = state.record_success(URL, CheckResult::from_response(200, "B", 7));
    assert_eq!(
        second,
        vec![
            "website: http://example.test | load_time: 7ms | status: up | size: 1bytes | content_hash: 9d5ed".to_string(),
            "  content changed".to_string(),
        ]
    );
    assert!(state.is_up);
    assert_eq!(state.last_hash.as_deref(), Some("9d5ed678fe57bcca610140957afab571"));
    assert_eq!(state.last_size, Some(1));
}

#[test]
fn server_error_on_first_check_is_a_transition() {
    let mut state = SiteState::new();
    let lines = state.record_success(URL, CheckResult::from_response(500, "oops", 30));
    assert_eq!(
        lines,
        vec![
            "website: http://example.test | load_time: 30ms | status: down | size: 4bytes | content_hash: 02c77".to_string(),
            "  status changed: up -> down".to_string(),
        ]
    );
    assert!(!state.is_up);
}

#[test]
fn first_check_never_reports_content_change() {
    let mut state = SiteState::new();
    let lines = state.record_success(URL, CheckResult::from_response(200, "anything", 0));
    assert_eq!(lines.len(), 1);
    assert!(!lines.contains(&"  content changed".to_string()));
}

#[test]
fn identical_bodies_never_report_change() {
    let mut state = SiteState::new();
    for tick in 0..5u128 {
        let lines = state.record_success(URL, CheckResult::from_response(200, "same", tick));
        assert_eq!(lines.len(), 1);
    }
}

#[test]
fn each_differing_body_reports_one_change() {
    let mut state = SiteState::new();
    let bodies = ["a", "b", "b", "c", "a"];
    let mut changes = Vec::new();
    for body in bodies {
        let lines = state.record_success(URL, CheckResult::from_response(200, body, 1));
        changes.push(lines.iter().filter(|l| l.as_str() == "  content changed").count());
    }
    assert_eq!(changes, vec![0, 1, 0, 1, 1]);
}

#[test]
fn transitions_only_when_status_differs() {
    let mut state = SiteState::new();
    let codes = [200u16, 503, 503, 200, 200, 404];
    let mut transitions = Vec::new();
    for code in codes {
        let lines = state.record_success(URL, CheckResult::from_response(code, "x", 1));
        transitions.push(
            lines
                .iter()
                .filter(|l| l.starts_with("  status changed:"))
                .cloned()
                .collect::<Vec<_>>(),
        );
    }
    assert!(transitions[0].is_empty());
    assert_eq!(transitions[1], vec!["  status changed: up -> down".to_string()]);
    assert!(transitions[2].is_empty());
    assert_eq!(transitions[3], vec!["  status changed: down -> up".to_string()]);
    assert!(transitions[4].is_empty());
    assert_eq!(transitions[5], vec!["  status changed: up -> down".to_string()]);
}

#[test]
fn failed_request_marks_down_without_transition_line() {
    let mut state = SiteState::new();
    state.record_success(URL, CheckResult::from_response(200, "A", 3));
    let lines = state.record_failure(URL, &CheckFailure::Request("connection refused".to_string()));
    assert_eq!(
        lines,
        vec![
            "website: http://example.test | load_time: n/a | status: error".to_string(),
            "  error: Request failed: connection refused".to_string(),
        ]
    );
    assert!(!state.is_up);
    assert_eq!(state.last_hash.as_deref(), Some("7fc56270e7a70fa81a5935b72eacbe29"));
    let back = state.record_success(URL, CheckResult::from_response(200, "A", 3));
    assert_eq!(back[1], "  status changed: down -> up");
    assert_eq!(back.len(), 2);
}

#[test]
fn body_read_failure_message() {
    let f = CheckFailure::BodyRead("eof".to_string());
    assert_eq!(f.message(), "Failed to read response body: eof");
    let mut state = SiteState::new();
    let lines = state.record(URL, Err(f));
    assert_eq!(lines[1], "  error: Failed to read response body: eof");
}

#[test]
fn record_dispatches_success() {
    let mut state = SiteState::new();
    let lines = state.record(URL, Ok(CheckResult::from_response(201, "", 1234567)));
    assert_eq!(
        lines,
        vec!["website: http://example.test | load_time: 1234567ms | status: up | size: 0bytes | content_hash: d41d8".to_string()]
    );
}

#[test]
fn short_hash_is_shown_whole() {
    let mut state = SiteState::new();
    let r = CheckResult { is_up: true, hash: "ab".to_string(), content_size: 10, load_time: 0 };
    let lines = state.record_success(URL, r);
    assert_eq!(lines[0], "website: http://example.test | load_time: 0ms | status: up | size: 10bytes | content_hash: ab");
}

#[test]
fn failures_keep_the_content_baseline() {
    let mut state = SiteState::new();
    let fail = || Err(CheckFailure::Request("timeout".to_string()));
    let first = state.record(URL, fail());
    assert_eq!(first.len(), 2);
    let ok_a = state.record(URL, Ok(CheckResult::from_response(200, "A", 1)));
    assert_eq!(ok_a, vec!["website: http://example.test | load_time: 1ms | status: up | size: 1bytes | content_hash: 7fc56".to_string(), "  status changed: down -> up".to_string()]);
    state.record(URL, fail());
    let same = state.record(URL, Ok(CheckResult::from_response(200, "A", 1)));
    assert!(!same.contains(&"  content changed".to_string()));
    state.record(URL, fail());
    let other = state.record(URL, Ok(CheckResult::from_response(200, "B", 1)));
    assert_eq!(other.last().map(|s| s.as_str()), Some("  content changed"));
    assert_eq!(other.iter().filter(|l| l.as_str() == "  content changed").count(), 1);
}

#[test]
fn digest_is_lowercase_hex() {
    let r = CheckResult::from_response(200, "Hello, World!", 1);
    assert_eq!(r.hash.len(), 32);
    assert!(r.hash.chars().all(|c| c.is_ascii_digit() || ('a'..='f').contains(&c)));
}
