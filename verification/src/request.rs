//! Request records: the mutable state of one outstanding protocol
//! exchange, tracked by the downloading side.
//!
//! A record is created by the interface layer, transmitted by the
//! send-pending tick, and then mutated only by replies.  Acceptance is
//! monotonic: once a record is accepted it stays accepted, and duplicate
//! or late acknowledgments change nothing.  Timestamps are plain
//! millisecond counts handed in by the caller; the library never reads a
//! clock.

use vstd::prelude::*;

verus! {

/// One outstanding file download exchange.
#[derive(Debug, Clone, PartialEq)]
pub struct DownLoadRequest {
    /// The transport address of the file's owner.
    pub from: String,
    /// The requested file's name, also the on-disk save name.
    pub filename: String,
    /// The identifier that correlates replies with this record.
    pub request_id: String,
    /// Whether the request has been transmitted.
    pub sent: bool,
    /// When the request was first transmitted.
    pub sent_time: Option<u64>,
    /// When the acknowledgment arrived.
    pub ack_time: Option<u64>,
    /// Whether the server acknowledged the request.
    pub accepted: bool,
    /// Whether the file payload arrived and was persisted.
    pub completed: bool,
}

impl DownLoadRequest {
    /// A fresh record: nothing sent, acknowledged or completed yet.
    pub fn new(from: String, filename: String, request_id: String) -> (r: Self)
        ensures
            r == (DownLoadRequest {
                from,
                filename,
                request_id,
                sent: false,
                sent_time: None,
                ack_time: None,
                accepted: false,
                completed: false,
            }),
    {
        DownLoadRequest {
            from,
            filename,
            request_id,
            sent: false,
            sent_time: None,
            ack_time: None,
            accepted: false,
            completed: false,
        }
    }
}

/// One outstanding discovery exchange; same shape as a download record
/// but it collects a list of discovered file names.
#[derive(Debug, Clone, PartialEq)]
pub struct ExploreRequest {
    /// The transport address of the peer being explored.
    pub from: String,
    /// The identifier that correlates replies with this record.
    pub request_id: String,
    /// Whether the request has been transmitted.
    pub sent: bool,
    /// When the request was first transmitted.
    pub sent_time: Option<u64>,
    /// When the acknowledgment arrived.
    pub ack_time: Option<u64>,
    /// Whether the server acknowledged the request.
    pub accepted: bool,
    /// Whether the name list arrived.
    pub completed: bool,
    /// The file names the peer advertised.
    pub advertise_files: Vec<String>,
}

impl ExploreRequest {
    /// A fresh record: nothing sent, acknowledged or completed yet.
    pub fn new(from: String, request_id: String) -> (r: Self)
        ensures
            r == (ExploreRequest {
                from,
                request_id,
                sent: false,
                sent_time: None,
                ack_time: None,
                accepted: false,
                completed: false,
                advertise_files: r.advertise_files,
            }),
            r.advertise_files@ =~= Seq::<String>::empty(),
    {
        ExploreRequest {
            from,
            request_id,
            sent: false,
            sent_time: None,
            ack_time: None,
            accepted: false,
            completed: false,
            advertise_files: Vec::new(),
        }
    }
}

/// A download record after its first transmission.
pub open spec fn sent_marked(r: DownLoadRequest, now: u64) -> DownLoadRequest {
    DownLoadRequest { sent: true, sent_time: Some(now), ..r }
}

/// A download record after an acknowledgment arrives.  A record that
/// was already accepted is left exactly as it is.
pub open spec fn ack_applied(r: DownLoadRequest, now: u64) -> DownLoadRequest {
    if r.accepted {
        r
    } else {
        DownLoadRequest { accepted: true, ack_time: Some(now), ..r }
    }
}

/// A download record after its file payload was persisted.  Acceptance
/// is deliberately untouched: a payload may arrive before (or without)
/// its acknowledgment.
pub open spec fn completion_applied(r: DownLoadRequest) -> DownLoadRequest {
    DownLoadRequest { completed: true, ..r }
}

/// An explore record after its first transmission.
pub open spec fn explore_sent_marked(r: ExploreRequest, now: u64) -> ExploreRequest {
    ExploreRequest { sent: true, sent_time: Some(now), ..r }
}

/// An explore record after an acknowledgment arrives; a duplicate or
/// late acknowledgment changes nothing.
pub open spec fn explore_ack_applied(r: ExploreRequest, now: u64) -> ExploreRequest {
    if r.accepted {
        r
    } else {
        ExploreRequest { accepted: true, ack_time: Some(now), ..r }
    }
}

/// An explore record after its name list arrives: the record completes
/// with those names, and a record whose acknowledgment never arrived is
/// retroactively accepted.
pub open spec fn advertise_applied(r: ExploreRequest, names: Vec<String>, now: u64)
    -> ExploreRequest {
    let acked = explore_ack_applied(r, now);
    ExploreRequest { advertise_files: names, completed: true, ..acked }
}

/// Law: acceptance is monotonic for download records.  An
/// acknowledgment accepts the record; one that arrives when the record
/// is already accepted is a no-op; transmission and completion never
/// change acceptance, and no transition ever withdraws it.
pub proof fn lemma_download_accepted_monotonic(r: DownLoadRequest, now: u64)
    ensures
        ack_applied(r, now).accepted,
        r.accepted ==> ack_applied(r, now) == r,
        sent_marked(r, now).accepted == r.accepted,
        completion_applied(r).accepted == r.accepted,
        ack_applied(r, now).request_id == r.request_id,
{
}

/// Law: acceptance is monotonic for explore records, and the name list
/// retroactively accepts a record whose acknowledgment was lost.
pub proof fn lemma_explore_accepted_monotonic(r: ExploreRequest, names: Vec<String>, now: u64)
    ensures
        explore_ack_applied(r, now).accepted,
        r.accepted ==> explore_ack_applied(r, now) == r,
        explore_sent_marked(r, now).accepted == r.accepted,
        advertise_applied(r, names, now).accepted,
        r.accepted ==> advertise_applied(r, names, now).ack_time == r.ack_time,
        explore_ack_applied(r, now).request_id == r.request_id,
{
}

/// Law: applying the same acknowledgment twice to a collection of
/// download records leaves exactly the state after the first
/// application, whenever both applications land on the same record.
pub proof fn lemma_ack_idempotent(rs: Seq<DownLoadRequest>, i: int, n1: u64, n2: u64)
    requires
        0 <= i < rs.len(),
    ensures
        ({
            let once = rs.update(i, ack_applied(rs[i], n1));
            once.update(i, ack_applied(once[i], n2)) == once
        }),
{
    let once = rs.update(i, ack_applied(rs[i], n1));
    assert(once[i] == ack_applied(rs[i], n1));
    assert(ack_applied(once[i], n2) == once[i]);
    assert(once.update(i, once[i]) =~= once);
}

} // verus!
