//! Whole exchanges played out over an in-memory transport: frames move
//! as byte vectors, the disk is a byte vector, and the clock is a
//! counter.

use nymshare_core::downloader::{
    advertise_frame, apply_ack_advertise_request, apply_ack_file_request, apply_getadvertise,
    file_request_frame, find_request, handle_download_request, handle_explore_request,
    mark_completed, mark_explore_sent, mark_sent, AddExploreOutcome, AddRequestOutcome,
    ExploreAckOutcome,
};
use nymshare_core::message::{decode_message, Message};
use nymshare_core::server::{getadvertise_frame, getfile_frame, server_plan_reply, ServerReply};
use nymshare_core::shareable::{record_advertise, record_download, PathStatus, Shareable};

fn active_file(path: &str) -> Shareable {
    let mut s = Shareable::new(path.to_string(), PathStatus::RegularFile).unwrap();
    s.activate();
    s
}

#[test]
fn served_download_completes_and_persists_the_bytes() {
    // Server side: one active file.
    let mut files = vec![active_file("share/report.pdf")];
    let disk_bytes: Vec<u8> = b"%PDF-1.4 pretend payload".to_vec();

    // Downloader side: the user enqueues the request.
    let mut requests = Vec::new();
    assert_eq!(
        handle_download_request(&mut requests, "svc::report.pdf", "id1".to_string()),
        AddRequestOutcome::Added
    );

    // Send-pending tick: build the frame and transmit it.
    let frame = file_request_frame(&requests[0]).unwrap();
    mark_sent(&mut requests, 0, 100);
    assert!(requests[0].sent);

    // Serving side: the frame arrives and earns a plan.
    let plan = server_plan_reply(&files, false, &frame);
    let (file_index, request_id, ack_frame) = match plan {
        ServerReply::ServeFile { file_index, request_id, ack_frame } => {
            (file_index, request_id, ack_frame)
        },
        _ => panic!("expected a file to be served"),
    };
    assert_eq!(file_index, 0);
    assert_eq!(request_id, "id1");
    assert_eq!(
        decode_message(&ack_frame),
        Ok(Message::AckFileRequest { request_id: "id1".to_string() })
    );

    // The ACK went out; the server reads the file and sends its bytes.
    let data_frame = getfile_frame(&request_id, &disk_bytes).unwrap();
    record_download(&mut files, file_index);
    assert_eq!(files[0].downloads, 1);

    // Downloader: the ACK arrives first.
    match decode_message(&ack_frame) {
        Ok(Message::AckFileRequest { request_id }) => {
            assert_eq!(apply_ack_file_request(&mut requests, &request_id, 200), Some(0));
        },
        other => panic!("unexpected reply: {:?}", other),
    }

    // Downloader: the payload arrives and is persisted.
    let mut download_dir: Vec<(String, Vec<u8>)> = Vec::new();
    match decode_message(&data_frame) {
        Ok(Message::GetFile { request_id, contents }) => {
            let i = find_request(&requests, &request_id).unwrap();
            download_dir.push((requests[i].filename.clone(), contents));
            mark_completed(&mut requests, i);
        },
        other => panic!("unexpected reply: {:?}", other),
    }

    assert!(requests[0].sent && requests[0].accepted && requests[0].completed);
    assert_eq!(download_dir.len(), 1);
    assert_eq!(download_dir[0].0, "report.pdf");
    assert_eq!(download_dir[0].1, disk_bytes);
}

#[test]
fn unserved_request_stays_pending_forever() {
    let files = vec![active_file("share/report.pdf")];
    let mut requests = Vec::new();
    handle_download_request(&mut requests, "svc::missing.txt", "id2".to_string());
    let frame = file_request_frame(&requests[0]).unwrap();
    mark_sent(&mut requests, 0, 100);

    // The server has nothing by that name: it stays silent.
    match server_plan_reply(&files, false, &frame) {
        ServerReply::Ignore => {},
        other => panic!("expected silence, got {:?}", describe(&other)),
    }

    // Nothing ever arrives; the record never moves past sent.
    assert!(requests[0].sent);
    assert!(!requests[0].accepted);
    assert!(!requests[0].completed);
}

fn describe(r: &ServerReply) -> &'static str {
    match r {
        ServerReply::ServeFile { .. } => "a file reply",
        ServerReply::ServeAdvertise { .. } => "an advertise reply",
        ServerReply::Ignore => "silence",
    }
}

#[test]
fn payload_without_ack_still_completes() {
    // A GETFILE for a known request whose ACK was lost.
    let mut requests = vec![nymshare_core::request::DownLoadRequest::new(
        "svc".to_string(),
        "late.txt".to_string(),
        "id3".to_string(),
    )];
    mark_sent(&mut requests, 0, 100);

    let data_frame = getfile_frame(&"id3".to_string(), &b"bytes".to_vec()).unwrap();
    let mut download_dir: Vec<(String, Vec<u8>)> = Vec::new();
    match decode_message(&data_frame) {
        Ok(Message::GetFile { request_id, contents }) => {
            let i = find_request(&requests, &request_id).unwrap();
            download_dir.push((requests[i].filename.clone(), contents));
            mark_completed(&mut requests, i);
        },
        other => panic!("unexpected reply: {:?}", other),
    }

    // Completed even though no acknowledgment was ever recorded; the
    // acceptance flag is left exactly as it was.
    assert!(requests[0].completed);
    assert!(!requests[0].accepted);
    assert_eq!(download_dir[0].1, b"bytes".to_vec());
}

#[test]
fn explore_lists_the_active_files_and_counts_one_advertisement_each() {
    // Server side: two active files, advertise mode on.
    let mut files = vec![active_file("pub/x.txt"), active_file("pub/y.txt")];

    // Explorer side: the user enqueues the request.
    let mut explores = Vec::new();
    assert_eq!(
        handle_explore_request(&mut explores, "svc-addr", "id4".to_string()),
        AddExploreOutcome::Added
    );
    let frame = advertise_frame(&explores[0]).unwrap();
    mark_explore_sent(&mut explores, 0, 100);

    // Serving side.
    let plan = server_plan_reply(&files, true, &frame);
    let (request_id, ack_frame, names) = match plan {
        ServerReply::ServeAdvertise { request_id, ack_frame, names } => {
            (request_id, ack_frame, names)
        },
        _ => panic!("expected an advertise reply"),
    };
    assert_eq!(request_id, "id4");
    assert_eq!(names, vec!["x.txt".to_string(), "y.txt".to_string()]);
    assert_eq!(
        decode_message(&ack_frame),
        Ok(Message::AckAdvertiseRequest { request_id: "id4".to_string() })
    );
    let list_frame = getadvertise_frame(&request_id, &names).unwrap();
    record_advertise(&mut files, &names);
    assert_eq!(files[0].advertise, 1);
    assert_eq!(files[1].advertise, 1);

    // Explorer: the ACK, then the list.
    assert_eq!(
        apply_ack_advertise_request(&mut explores, &"id4".to_string(), 200),
        ExploreAckOutcome::NewlyAccepted(0)
    );
    match decode_message(&list_frame) {
        Ok(Message::GetAdvertise { request_id, names }) => {
            assert_eq!(apply_getadvertise(&mut explores, &request_id, names, 300), Some(0));
        },
        other => panic!("unexpected reply: {:?}", other),
    }

    assert!(explores[0].sent && explores[0].accepted && explores[0].completed);
    assert_eq!(
        explores[0].advertise_files,
        vec!["x.txt".to_string(), "y.txt".to_string()]
    );
}

#[test]
fn advertise_is_ignored_outside_advertise_mode() {
    let files = vec![active_file("pub/x.txt")];
    let mut explores = Vec::new();
    handle_explore_request(&mut explores, "svc-addr", "id5".to_string());
    let frame = advertise_frame(&explores[0]).unwrap();
    match server_plan_reply(&files, false, &frame) {
        ServerReply::Ignore => {},
        other => panic!("expected silence, got {:?}", describe(&other)),
    }
}
