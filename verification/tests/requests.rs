use nymshare_core::downloader::{
    apply_ack_advertise_request, apply_ack_file_request, apply_getadvertise, find_request,
    handle_download_request, handle_explore_request, mark_completed, mark_explore_sent, mark_sent,
    parse_share_link, AddExploreOutcome, AddRequestOutcome, ExploreAckOutcome,
};
use nymshare_core::request::{DownLoadRequest, ExploreRequest};

fn dl(id: &str, filename: &str) -> DownLoadRequest {
    DownLoadRequest::new("svc-addr".to_string(), filename.to_string(), id.to_string())
}

fn ex(id: &str) -> ExploreRequest {
    ExploreRequest::new("svc-addr".to_string(), id.to_string())
}

#[test]
fn new_download_request_starts_clean() {
    let r = dl("id1", "a.txt");
    assert!(!r.sent && !r.accepted && !r.completed);
    assert_eq!(r.sent_time, None);
    assert_eq!(r.ack_time, None);
    assert_eq!(r.from, "svc-addr");
    assert_eq!(r.filename, "a.txt");
    assert_eq!(r.request_id, "id1");
}

#[test]
fn new_explore_request_starts_clean() {
    let r = ex("id4");
    assert!(!r.sent && !r.accepted && !r.completed);
    assert!(r.advertise_files.is_empty());
}

#[test]
fn mark_sent_stamps_the_record() {
    let mut rs = vec![dl("id1", "a.txt")];
    mark_sent(&mut rs, 0, 500);
    assert!(rs[0].sent);
    assert_eq!(rs[0].sent_time, Some(500));
    assert!(!rs[0].accepted && !rs[0].completed);
    let mut es = vec![ex("id4")];
    mark_explore_sent(&mut es, 0, 700);
    assert!(es[0].sent);
    assert_eq!(es[0].sent_time, Some(700));
}

#[test]
fn ack_accepts_the_matching_record() {
    let mut rs = vec![dl("id1", "a.txt"), dl("id2", "b.txt")];
    let hit = apply_ack_file_request(&mut rs, &"id2".to_string(), 900);
    assert_eq!(hit, Some(1));
    assert!(!rs[0].accepted);
    assert!(rs[1].accepted);
    assert_eq!(rs[1].ack_time, Some(900));
}

#[test]
fn ack_twice_is_a_no_op() {
    let mut rs = vec![dl("id1", "a.txt")];
    apply_ack_file_request(&mut rs, &"id1".to_string(), 900);
    let after_first = rs.clone();
    let hit = apply_ack_file_request(&mut rs, &"id1".to_string(), 2000);
    assert_eq!(hit, Some(0));
    assert_eq!(rs, after_first);
    assert_eq!(rs[0].ack_time, Some(900));
}

#[test]
fn ack_for_unknown_id_changes_nothing() {
    let mut rs = vec![dl("id1", "a.txt")];
    let before = rs.clone();
    assert_eq!(apply_ack_file_request(&mut rs, &"stale".to_string(), 5), None);
    assert_eq!(rs, before);
}

#[test]
fn completion_leaves_acceptance_alone() {
    // A payload may arrive with no acknowledgment ever recorded.
    let mut rs = vec![dl("id3", "c.txt")];
    mark_sent(&mut rs, 0, 1);
    mark_completed(&mut rs, 0);
    assert!(rs[0].completed);
    assert!(!rs[0].accepted);
}

#[test]
fn explore_ack_is_idempotent() {
    let mut es = vec![ex("id4")];
    assert_eq!(
        apply_ack_advertise_request(&mut es, &"id4".to_string(), 10),
        ExploreAckOutcome::NewlyAccepted(0)
    );
    assert_eq!(es[0].ack_time, Some(10));
    assert_eq!(
        apply_ack_advertise_request(&mut es, &"id4".to_string(), 99),
        ExploreAckOutcome::AlreadyAccepted(0)
    );
    assert_eq!(es[0].ack_time, Some(10));
    assert_eq!(
        apply_ack_advertise_request(&mut es, &"other".to_string(), 99),
        ExploreAckOutcome::NoMatch
    );
}

#[test]
fn getadvertise_retroactively_accepts() {
    let mut es = vec![ex("id4")];
    let names = vec!["x.txt".to_string(), "y.txt".to_string()];
    let hit = apply_getadvertise(&mut es, &"id4".to_string(), names.clone(), 42);
    assert_eq!(hit, Some(0));
    assert!(es[0].accepted);
    assert_eq!(es[0].ack_time, Some(42));
    assert!(es[0].completed);
    assert_eq!(es[0].advertise_files, names);
}

#[test]
fn getadvertise_after_ack_keeps_the_first_ack_time() {
    let mut es = vec![ex("id4")];
    apply_ack_advertise_request(&mut es, &"id4".to_string(), 10);
    apply_getadvertise(&mut es, &"id4".to_string(), vec!["x".to_string()], 50);
    assert_eq!(es[0].ack_time, Some(10));
    assert!(es[0].completed);
}

#[test]
fn parse_share_link_splits_on_a_single_separator() {
    assert_eq!(
        parse_share_link("service::file.txt"),
        Some(("service".to_string(), "file.txt".to_string()))
    );
    assert_eq!(parse_share_link("nosep"), None);
    assert_eq!(parse_share_link("a::b::c"), None);
    assert_eq!(
        parse_share_link("a:::b"),
        Some(("a".to_string(), ":b".to_string()))
    );
    assert_eq!(parse_share_link("::file"), Some(("".to_string(), "file".to_string())));
}

#[test]
fn handle_download_request_covers_each_outcome() {
    let mut rs: Vec<DownLoadRequest> = Vec::new();
    assert_eq!(
        handle_download_request(&mut rs, "   ", "id0".to_string()),
        AddRequestOutcome::EmptyInput
    );
    assert_eq!(
        handle_download_request(&mut rs, "no-separator", "id0".to_string()),
        AddRequestOutcome::BadLinkFormat
    );
    assert!(rs.is_empty());
    assert_eq!(
        handle_download_request(&mut rs, "svc::a.txt", "id1".to_string()),
        AddRequestOutcome::Added
    );
    assert_eq!(rs.len(), 1);
    assert_eq!(rs[0].from, "svc");
    assert_eq!(rs[0].filename, "a.txt");
    assert_eq!(rs[0].request_id, "id1");
    assert!(!rs[0].sent);
    assert_eq!(
        handle_download_request(&mut rs, "svc::a.txt", "id2".to_string()),
        AddRequestOutcome::Duplicate
    );
    assert_eq!(rs.len(), 1);
    // The same file from another service is a different request.
    assert_eq!(
        handle_download_request(&mut rs, "other::a.txt", "id3".to_string()),
        AddRequestOutcome::Added
    );
    assert_eq!(rs.len(), 2);
}

#[test]
fn handle_explore_request_covers_each_outcome() {
    let mut es: Vec<ExploreRequest> = Vec::new();
    assert_eq!(
        handle_explore_request(&mut es, "", "id0".to_string()),
        AddExploreOutcome::EmptyInput
    );
    assert_eq!(
        handle_explore_request(&mut es, "svc-addr", "id4".to_string()),
        AddExploreOutcome::Added
    );
    assert_eq!(es.len(), 1);
    assert_eq!(es[0].from, "svc-addr");
    assert_eq!(es[0].request_id, "id4");
    assert_eq!(
        handle_explore_request(&mut es, "svc-addr", "id5".to_string()),
        AddExploreOutcome::Duplicate
    );
    assert_eq!(es.len(), 1);
}

#[test]
fn find_request_picks_the_first_match() {
    let rs = vec![dl("a", "1"), dl("b", "2"), dl("b", "3")];
    assert_eq!(find_request(&rs, &"b".to_string()), Some(1));
    assert_eq!(find_request(&rs, &"zzz".to_string()), None);
}

#[test]
fn late_ack_after_completion_still_accepts() {
    // The payload arrived first; the acknowledgment limps in afterwards.
    let mut rs = vec![dl("id9", "slow.txt")];
    mark_sent(&mut rs, 0, 1);
    mark_completed(&mut rs, 0);
    assert!(!rs[0].accepted);
    assert_eq!(apply_ack_file_request(&mut rs, &"id9".to_string(), 77), Some(0));
    assert!(rs[0].accepted);
    assert!(rs[0].completed);
    assert_eq!(rs[0].ack_time, Some(77));
}
