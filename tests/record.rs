use prpick::record::{records_from_raw, Field, PrStatus, PullRequest, RawPullRequest, RecordError};
use prpick::search::{raw_from_search_item, SearchItem};

fn raw() -> RawPullRequest {
    RawPullRequest {
        number: Some(42),
        title: Some("Fix parser".to_string()),
        url: Some("https://github.com/x/y/pull/42".to_string()),
        body: Some("Body text".to_string()),
        created_at: Some("1970-01-01T00:01:40Z".to_string()),
        updated_at: Some("2024-01-01T01:00:00+01:00".to_string()),
        repository: Some("x/y".to_string()),
        state: Some("OPEN".to_string()),
        is_draft: Some(false),
        merged: Some(false),
    }
}

#[test]
fn complete_result_becomes_record() {
    let p = PullRequest::from_raw(raw()).unwrap();
    assert_eq!(p.number, 42);
    assert_eq!(p.title, "Fix parser");
    assert_eq!(p.html_url, "https://github.com/x/y/pull/42");
    assert_eq!(p.body.as_deref(), Some("Body text"));
    assert_eq!(p.created_at, 100);
    assert_eq!(p.updated_at, 1704067200);
    assert_eq!(p.repository_name, "x/y");
    assert_eq!(p.status, PrStatus::Open);
}

#[test]
fn absent_body_is_kept_absent() {
    let mut r = raw();
    r.body = None;
    let p = PullRequest::from_raw(r).unwrap();
    assert!(p.body.is_none());
}

#[test]
fn missing_fields_are_reported_in_order() {
    let mut r = raw();
    r.title = None;
    r.state = None;
    assert_eq!(PullRequest::from_raw(r).unwrap_err(), RecordError::Missing(Field::Title));
    let mut r = raw();
    r.merged = None;
    assert_eq!(PullRequest::from_raw(r).unwrap_err(), RecordError::Missing(Field::Merged));
    let mut r = raw();
    r.number = None;
    assert_eq!(PullRequest::from_raw(r).unwrap_err(), RecordError::Missing(Field::Number));
}

#[test]
fn bad_timestamp_is_reported() {
    let mut r = raw();
    r.created_at = Some("yesterday".to_string());
    assert_eq!(PullRequest::from_raw(r).unwrap_err(), RecordError::BadTimestamp(Field::CreatedAt));
    let mut r = raw();
    r.updated_at = Some("2024-13-01T00:00:00Z".to_string());
    assert_eq!(PullRequest::from_raw(r).unwrap_err(), RecordError::BadTimestamp(Field::UpdatedAt));
}

#[test]
fn status_collapses_flags() {
    assert_eq!(PrStatus::from_flags("MERGED", false, true), PrStatus::Merged);
    assert_eq!(PrStatus::from_flags("CLOSED", true, true), PrStatus::Merged);
    assert_eq!(PrStatus::from_flags("CLOSED", false, false), PrStatus::Closed);
    assert_eq!(PrStatus::from_flags("OPEN", true, false), PrStatus::Draft);
    assert_eq!(PrStatus::from_flags("OPEN", false, false), PrStatus::Open);
}

#[test]
fn status_labels() {
    assert_eq!(PrStatus::Open.label(), "OPEN");
    assert_eq!(PrStatus::Draft.label(), "DRAFT");
    assert_eq!(PrStatus::Merged.label(), "MERGED");
    assert_eq!(PrStatus::Closed.label(), "CLOSED");
}

#[test]
fn page_of_results_keeps_order() {
    let mut second = raw();
    second.number = Some(7);
    second.merged = Some(true);
    let prs = records_from_raw(vec![raw(), second]).unwrap();
    assert_eq!(prs.len(), 2);
    assert_eq!(prs[0].number, 42);
    assert_eq!(prs[1].number, 7);
    assert_eq!(prs[1].status, PrStatus::Merged);
}

#[test]
fn page_fails_on_first_bad_result() {
    let mut bad = raw();
    bad.url = None;
    let mut worse = raw();
    worse.number = None;
    assert_eq!(
        records_from_raw(vec![raw(), bad, worse]).unwrap_err(),
        RecordError::Missing(Field::Url)
    );
    assert!(records_from_raw(Vec::new()).unwrap().is_empty());
}

fn item() -> SearchItem {
    SearchItem {
        number: Some(42),
        title: Some("Fix parser".to_string()),
        html_url: Some("https://github.com/x/y/pull/42".to_string()),
        body: None,
        created_at: Some("1970-01-01T00:01:40Z".to_string()),
        updated_at: Some("2024-01-01T00:00:00Z".to_string()),
        repository_url: Some("https://api.github.com/repos/x/y".to_string()),
        state: Some("open".to_string()),
        draft: Some(false),
        merged_at: None,
    }
}

#[test]
fn search_item_matches_graph_record() {
    let a = PullRequest::from_raw(raw_from_search_item(item())).unwrap();
    let mut r = raw();
    r.body = None;
    let b = PullRequest::from_raw(r).unwrap();
    assert_eq!(a.number, b.number);
    assert_eq!(a.title, b.title);
    assert_eq!(a.html_url, b.html_url);
    assert_eq!(a.body, b.body);
    assert_eq!(a.created_at, b.created_at);
    assert_eq!(a.updated_at, b.updated_at);
    assert_eq!(a.repository_name, "x/y");
    assert_eq!(a.status, PrStatus::Open);
}

#[test]
fn search_item_states() {
    let mut closed = item();
    closed.state = Some("closed".to_string());
    assert_eq!(raw_from_search_item(closed.clone()).state.as_deref(), Some("CLOSED"));
    assert_eq!(PullRequest::from_raw(raw_from_search_item(closed.clone())).unwrap().status, PrStatus::Closed);
    closed.merged_at = Some("2024-01-02T00:00:00Z".to_string());
    assert_eq!(PullRequest::from_raw(raw_from_search_item(closed)).unwrap().status, PrStatus::Merged);
    let mut draft = item();
    draft.draft = Some(true);
    assert_eq!(PullRequest::from_raw(raw_from_search_item(draft)).unwrap().status, PrStatus::Draft);
}

#[test]
fn search_item_without_api_repository() {
    let mut odd = item();
    odd.repository_url = Some("https://example.com/x/y".to_string());
    assert_eq!(raw_from_search_item(odd.clone()).repository, None);
    assert_eq!(PullRequest::from_raw(raw_from_search_item(odd)).unwrap_err(), RecordError::Missing(Field::Repository));
}

#[test]
fn search_item_without_draft_flag_is_not_draft() {
    let mut plain = item();
    plain.draft = None;
    let raw = raw_from_search_item(plain);
    assert_eq!(raw.is_draft, Some(false));
    assert_eq!(raw.merged, Some(false));
    assert_eq!(PullRequest::from_raw(raw).unwrap().status, PrStatus::Open);
}
