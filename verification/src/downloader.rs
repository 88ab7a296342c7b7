//! Decision logic of the downloading loop.
//!
//! The loop around this module does three things on its timers: it
//! transmits every record not yet sent, drains inbound frames, and
//! persists delivered file bytes.  Everything it decides — which frame
//! to build, which record a reply belongs to, and how the record
//! changes — is here, on plain values; the loop itself only moves bytes
//! and reports outcomes back.

use vstd::prelude::*;
use vstd::std_specs::vec::vec_index_mut;
use vstd::string::{StrSliceExecFns, StringExecFns};
use vstd::utf8::encode_utf8;
use crate::message::{frame_bytes, Message, MsgView};
use crate::request::{
    ack_applied, advertise_applied, completion_applied, explore_ack_applied, explore_sent_marked,
    sent_marked, DownLoadRequest, ExploreRequest,
};

verus! {

/// The reply-path provisioning hint attached to a file request: a file
/// reply may need several extra reply opportunities.
pub const FILE_REQUEST_REPLY_HINT: u32 = 10;

/// The reply-path provisioning hint attached to an advertise request.
pub const ADVERTISE_REPLY_HINT: u32 = 5;

/// Finds the first download record correlated with `request_id`.
pub fn find_request(requests: &Vec<DownLoadRequest>, request_id: &String) -> (r: Option<usize>)
    ensures
        match r {
            Some(i) => {
                &&& i < requests@.len()
                &&& requests@[i as int].request_id@ == request_id@
                &&& forall|j: int|
                    0 <= j < i ==> (#[trigger] requests@[j]).request_id@ != request_id@
            },
            None => forall|j: int|
                0 <= j < requests@.len() ==> (#[trigger] requests@[j]).request_id@
                    != request_id@,
        },
{
    let mut i: usize = 0;
    while i < requests.len()
        invariant
            i <= requests@.len(),
            forall|j: int| 0 <= j < i ==> (#[trigger] requests@[j]).request_id@ != request_id@,
        decreases requests@.len() - i,
    {
        if requests[i].request_id == *request_id {
            return Some(i);
        }
        i = i + 1;
    }
    None
}

/// Finds the first explore record correlated with `request_id`.
pub fn find_explore_request(explores: &Vec<ExploreRequest>, request_id: &String) -> (r: Option<
    usize,
>)
    ensures
        match r {
            Some(i) => {
                &&& i < explores@.len()
                &&& explores@[i as int].request_id@ == request_id@
                &&& forall|j: int|
                    0 <= j < i ==> (#[trigger] explores@[j]).request_id@ != request_id@
            },
            None => forall|j: int|
                0 <= j < explores@.len() ==> (#[trigger] explores@[j]).request_id@
                    != request_id@,
        },
{
    let mut i: usize = 0;
    while i < explores.len()
        invariant
            i <= explores@.len(),
            forall|j: int| 0 <= j < i ==> (#[trigger] explores@[j]).request_id@ != request_id@,
        decreases explores@.len() - i,
    {
        if explores[i].request_id == *request_id {
            return Some(i);
        }
        i = i + 1;
    }
    None
}

/// Applies an acknowledgment to the download record it correlates
/// with: the record becomes accepted, and a duplicate acknowledgment is
/// a no-op.  Returns the record's index so that the caller can surface
/// a status message; no record matches a stale or foreign identifier.
pub fn apply_ack_file_request(
    requests: &mut Vec<DownLoadRequest>,
    request_id: &String,
    now: u64,
) -> (r: Option<usize>)
    ensures
        match r {
            Some(i) => {
                &&& i < old(requests)@.len()
                &&& old(requests)@[i as int].request_id@ == request_id@
                &&& forall|j: int|
                    0 <= j < i ==> (#[trigger] old(requests)@[j]).request_id@ != request_id@
                &&& final(requests)@ == old(requests)@.update(
                    i as int,
                    ack_applied(old(requests)@[i as int], now),
                )
            },
            None => {
                &&& final(requests)@ == old(requests)@
                &&& forall|j: int|
                    0 <= j < old(requests)@.len() ==> (#[trigger] old(
                        requests,
                    )@[j]).request_id@ != request_id@
            },
        },
{
    match find_request(requests, request_id) {
        None => None,
        Some(i) => {
            let e = vec_index_mut(requests, i);
            if !e.accepted {
                e.accepted = true;
                e.ack_time = Some(now);
            }
            assert(old(requests)@.update(i as int, old(requests)@[i as int]) =~= old(
                requests,
            )@);
            Some(i)
        },
    }
}

/// What became of an advertise acknowledgment.
#[derive(Debug, Clone, Copy, PartialEq, Eq)]
pub enum ExploreAckOutcome {
    /// The matching record was accepted now.
    NewlyAccepted(usize),
    /// The matching record had already been accepted; nothing changed.
    AlreadyAccepted(usize),
    /// No record is correlated with the identifier.
    NoMatch,
}

/// Applies an advertise acknowledgment to the explore record it
/// correlates with; a duplicate or late acknowledgment is reported and
/// changes nothing.
pub fn apply_ack_advertise_request(
    explores: &mut Vec<ExploreRequest>,
    request_id: &String,
    now: u64,
) -> (r: ExploreAckOutcome)
    ensures
        match r {
            ExploreAckOutcome::NewlyAccepted(i) => {
                &&& i < old(explores)@.len()
                &&& old(explores)@[i as int].request_id@ == request_id@
                &&& forall|j: int|
                    0 <= j < i ==> (#[trigger] old(explores)@[j]).request_id@ != request_id@
                &&& !old(explores)@[i as int].accepted
                &&& final(explores)@ == old(explores)@.update(
                    i as int,
                    explore_ack_applied(old(explores)@[i as int], now),
                )
            },
            ExploreAckOutcome::AlreadyAccepted(i) => {
                &&& i < old(explores)@.len()
                &&& old(explores)@[i as int].request_id@ == request_id@
                &&& forall|j: int|
                    0 <= j < i ==> (#[trigger] old(explores)@[j]).request_id@ != request_id@
                &&& old(explores)@[i as int].accepted
                &&& final(explores)@ == old(explores)@
            },
            ExploreAckOutcome::NoMatch => {
                &&& final(explores)@ == old(explores)@
                &&& forall|j: int|
                    0 <= j < old(explores)@.len() ==> (#[trigger] old(
                        explores,
                    )@[j]).request_id@ != request_id@
            },
        },
{
    match find_explore_request(explores, request_id) {
        None => ExploreAckOutcome::NoMatch,
        Some(i) => {
            if explores[i].accepted {
                ExploreAckOutcome::AlreadyAccepted(i)
            } else {
                let e = vec_index_mut(explores, i);
                e.accepted = true;
                e.ack_time = Some(now);
                ExploreAckOutcome::NewlyAccepted(i)
            }
        },
    }
}

/// Marks the download record at `i` completed, once its file bytes have
/// been persisted.  Acceptance is deliberately left alone: a payload
/// may arrive before — or entirely without — its acknowledgment.
pub fn mark_completed(requests: &mut Vec<DownLoadRequest>, i: usize)
    requires
        i < old(requests)@.len(),
    ensures
        final(requests)@ == old(requests)@.update(
            i as int,
            completion_applied(old(requests)@[i as int]),
        ),
{
    let e = vec_index_mut(requests, i);
    e.completed = true;
}

/// Applies a delivered name list to the explore record it correlates
/// with: the record completes with those names, and is retroactively
/// accepted when its acknowledgment never arrived.
pub fn apply_getadvertise(
    explores: &mut Vec<ExploreRequest>,
    request_id: &String,
    names: Vec<String>,
    now: u64,
) -> (r: Option<usize>)
    ensures
        match r {
            Some(i) => {
                &&& i < old(explores)@.len()
                &&& old(explores)@[i as int].request_id@ == request_id@
                &&& forall|j: int|
                    0 <= j < i ==> (#[trigger] old(explores)@[j]).request_id@ != request_id@
                &&& final(explores)@ == old(explores)@.update(
                    i as int,
                    advertise_applied(old(explores)@[i as int], names, now),
                )
            },
            None => {
                &&& final(explores)@ == old(explores)@
                &&& forall|j: int|
                    0 <= j < old(explores)@.len() ==> (#[trigger] old(
                        explores,
                    )@[j]).request_id@ != request_id@
            },
        },
{
    match find_explore_request(explores, request_id) {
        None => None,
        Some(i) => {
            let e = vec_index_mut(explores, i);
            if !e.accepted {
                e.accepted = true;
                e.ack_time = Some(now);
            }
            e.advertise_files = names;
            e.completed = true;
            Some(i)
        },
    }
}

/// Marks the download record at `i` transmitted now.
pub fn mark_sent(requests: &mut Vec<DownLoadRequest>, i: usize, now: u64)
    requires
        i < old(requests)@.len(),
    ensures
        final(requests)@ == old(requests)@.update(
            i as int,
            sent_marked(old(requests)@[i as int], now),
        ),
{
    let e = vec_index_mut(requests, i);
    e.sent = true;
    e.sent_time = Some(now);
}

/// Marks the explore record at `i` transmitted now.
pub fn mark_explore_sent(explores: &mut Vec<ExploreRequest>, i: usize, now: u64)
    requires
        i < old(explores)@.len(),
    ensures
        final(explores)@ == old(explores)@.update(
            i as int,
            explore_sent_marked(old(explores)@[i as int], now),
        ),
{
    let e = vec_index_mut(explores, i);
    e.sent = true;
    e.sent_time = Some(now);
}

/// Builds the request frame for a download record.  `None` only when a
/// name is too long for a length prefix, which no real path reaches.
pub fn file_request_frame(r: &DownLoadRequest) -> (f: Option<Vec<u8>>)
    ensures
        match f {
            Some(b) => b@ == frame_bytes(
                MsgView::FileRequest { request_id: r.request_id@, filename: r.filename@ },
            ),
            None => !(encode_utf8(r.request_id@).len() <= u32::MAX && encode_utf8(
                r.filename@,
            ).len() <= u32::MAX),
        },
{
    if r.request_id.as_str().as_bytes().len() > u32::MAX as usize
        || r.filename.as_str().as_bytes().len() > u32::MAX as usize {
        return None;
    }
    let m = Message::FileRequest {
        request_id: r.request_id.clone(),
        filename: r.filename.clone(),
    };
    Some(crate::message::encode_message(&m))
}

/// Builds the advertise frame for an explore record.  `None` only when
/// the identifier is too long for a length prefix.
pub fn advertise_frame(r: &ExploreRequest) -> (f: Option<Vec<u8>>)
    ensures
        match f {
            Some(b) => b@ == frame_bytes(MsgView::Advertise { request_id: r.request_id@ }),
            None => encode_utf8(r.request_id@).len() > u32::MAX,
        },
{
    if r.request_id.as_str().as_bytes().len() > u32::MAX as usize {
        return None;
    }
    let m = Message::Advertise { request_id: r.request_id.clone() };
    Some(crate::message::encode_message(&m))
}

/// Whether a character counts as blank in user input.
pub open spec fn is_space_char(c: char) -> bool {
    c == ' ' || c == '\t' || c == '\r' || c == '\n'
}

/// Whether the input holds nothing but blanks.
pub open spec fn is_blank(u: Seq<char>) -> bool {
    forall|i: int| 0 <= i < u.len() ==> is_space_char(#[trigger] u[i])
}

/// Whether the input is blank, exactly as [`is_blank`] gives it.
pub fn blank(s: &str) -> (r: bool)
    ensures
        r == is_blank(s@),
{
    let n = s.unicode_len();
    let mut i: usize = 0;
    while i < n
        invariant
            n == s@.len(),
            i <= n,
            forall|j: int| 0 <= j < i ==> is_space_char(#[trigger] s@[j]),
        decreases n - i,
    {
        let c = s.get_char(i);
        if !(c == ' ' || c == '\t' || c == '\r' || c == '\n') {
            return false;
        }
        i = i + 1;
    }
    true
}

/// Whether a link separator `::` starts at `i`.
pub open spec fn sep_at(u: Seq<char>, i: int) -> bool {
    u[i] == ':' && u[i + 1] == ':'
}

/// Splits the input at its first `::`, when it has one.
pub open spec fn split_link(u: Seq<char>) -> Option<(Seq<char>, Seq<char>)>
    decreases u.len(),
{
    if u.len() < 2 {
        None
    } else if u[0] == ':' && u[1] == ':' {
        Some((Seq::empty(), u.subrange(2, u.len() as int)))
    } else {
        match split_link(u.drop_first()) {
            Some(p) => Some((seq![u[0]] + p.0, p.1)),
            None => None,
        }
    }
}

/// A share link names a service and a file, joined by a single `::`.
pub open spec fn link_parts(u: Seq<char>) -> Option<(Seq<char>, Seq<char>)> {
    match split_link(u) {
        Some(p) => if split_link(p.1) is Some {
            None
        } else {
            Some(p)
        },
        None => None,
    }
}

/// The first separator determines the split.
proof fn lemma_split_link_at(u: Seq<char>, i: int)
    requires
        0 <= i,
        i + 1 < u.len(),
        sep_at(u, i),
        forall|j: int| 0 <= j < i ==> !sep_at(u, j),
    ensures
        split_link(u) == Some((u.subrange(0, i), u.subrange(i + 2, u.len() as int))),
    decreases i,
{
    if i == 0 {
        assert(u.subrange(0, 0) =~= Seq::<char>::empty());
    } else {
        assert(!sep_at(u, 0));
        let d = u.drop_first();
        assert(sep_at(d, i - 1));
        assert forall|j: int| 0 <= j < i - 1 implies !#[trigger] sep_at(d, j) by {
            assert(d[j] == u[j + 1]);
            assert(d[j + 1] == u[j + 2]);
            assert(!sep_at(u, j + 1));
        }
        lemma_split_link_at(d, i - 1);
        assert(seq![u[0]] + d.subrange(0, i - 1) =~= u.subrange(0, i));
        assert(d.subrange(i + 1, d.len() as int) =~= u.subrange(i + 2, u.len() as int));
    }
}

/// Without a separator there is no split.
proof fn lemma_split_link_none(u: Seq<char>)
    requires
        forall|j: int| 0 <= j < u.len() - 1 ==> !sep_at(u, j),
    ensures
        split_link(u) is None,
    decreases u.len(),
{
    if u.len() >= 2 {
        let d = u.drop_first();
        assert forall|j: int| 0 <= j < d.len() - 1 implies !#[trigger] sep_at(d, j) by {
            assert(d[j] == u[j + 1]);
            assert(d[j + 1] == u[j + 2]);
            assert(!sep_at(u, j + 1));
        }
        lemma_split_link_none(d);
        assert(!sep_at(u, 0));
    }
}

/// Finds the first `::` of the input.
fn find_sep(s: &str) -> (r: Option<usize>)
    ensures
        match r {
            Some(i) => {
                &&& i + 1 < s@.len()
                &&& sep_at(s@, i as int)
                &&& forall|j: int| 0 <= j < i ==> !sep_at(s@, j)
            },
            None => forall|j: int| 0 <= j < s@.len() - 1 ==> !sep_at(s@, j),
        },
{
    let n = s.unicode_len();
    if n < 2 {
        return None;
    }
    let mut i: usize = 0;
    while i + 1 < n
        invariant
            n == s@.len(),
            i + 1 <= n,
            forall|j: int| 0 <= j < i ==> !sep_at(s@, j),
        decreases n - i,
    {
        if s.get_char(i) == ':' && s.get_char(i + 1) == ':' {
            return Some(i);
        }
        i = i + 1;
    }
    None
}

/// Splits a share link into its service address and file name, exactly
/// as [`link_parts`] gives them: there must be one `::` and only one.
pub fn parse_share_link(url: &str) -> (r: Option<(String, String)>)
    ensures
        match r {
            Some(p) => link_parts(url@) == Some((p.0@, p.1@)),
            None => link_parts(url@) is None,
        },
{
    let n = url.unicode_len();
    match find_sep(url) {
        None => {
            proof {
                lemma_split_link_none(url@);
            }
            None
        },
        Some(i) => {
            proof {
                lemma_split_link_at(url@, i as int);
            }
            let service = url.substring_char(0, i);
            let rest = url.substring_char(i + 2, n);
            match find_sep(rest) {
                Some(j) => {
                    proof {
                        lemma_split_link_at(rest@, j as int);
                    }
                    None
                },
                None => {
                    proof {
                        lemma_split_link_none(rest@);
                    }
                    Some((String::from_str(service), String::from_str(rest)))
                },
            }
        },
    }
}

/// What became of a request the interface layer tried to enqueue.
#[derive(Debug, Clone, Copy, PartialEq, Eq, Structural)]
pub enum AddRequestOutcome {
    /// A fresh record was enqueued.
    Added,
    /// The input was blank.
    EmptyInput,
    /// The input was not of the form `service::filename`.
    BadLinkFormat,
    /// A record for the same file from the same service already exists.
    Duplicate,
}

/// Whether a download of `filename` from `from` is already tracked.
pub open spec fn dl_duplicate(rs: Seq<DownLoadRequest>, from: Seq<char>, filename: Seq<char>)
    -> bool {
    exists|j: int|
        0 <= j < rs.len() && (#[trigger] rs[j]).filename@ == filename && rs[j].from@ == from
}

/// Enqueues a download request for a share link, under a fresh
/// identifier chosen by the caller.  A blank or ill-formed link and a
/// duplicate request change nothing.
#[verifier::loop_isolation(false)]
pub fn handle_download_request(
    requests: &mut Vec<DownLoadRequest>,
    url: &str,
    request_id: String,
) -> (r: AddRequestOutcome)
    ensures
        is_blank(url@) ==> r == AddRequestOutcome::EmptyInput && final(requests)@ == old(
            requests,
        )@,
        !is_blank(url@) && link_parts(url@) is None ==> r == AddRequestOutcome::BadLinkFormat
            && final(requests)@ == old(requests)@,
        !is_blank(url@) ==> (link_parts(url@) matches Some(p) ==> {
            if dl_duplicate(old(requests)@, p.0, p.1) {
                r == AddRequestOutcome::Duplicate && final(requests)@ == old(requests)@
            } else {
                {
                    let rec = final(requests)@.last();
                    &&& r == AddRequestOutcome::Added
                    &&& final(requests)@ == old(requests)@.push(rec)
                    &&& rec.from@ == p.0
                    &&& rec.filename@ == p.1
                    &&& rec.request_id@ == request_id@
                    &&& rec.sent == false
                    &&& rec.sent_time is None
                    &&& rec.ack_time is None
                    &&& rec.accepted == false
                    &&& rec.completed == false
                }
            }
        }),
{
    if blank(url) {
        return AddRequestOutcome::EmptyInput;
    }
    match parse_share_link(url) {
        None => AddRequestOutcome::BadLinkFormat,
        Some((service, filename)) => {
            let mut j: usize = 0;
            while j < requests.len()
                invariant
                    j <= requests@.len(),
                    forall|k: int|
                        0 <= k < j ==> !((#[trigger] requests@[k]).filename@ == filename@
                            && requests@[k].from@ == service@),
                decreases requests@.len() - j,
            {
                if requests[j].filename == filename && requests[j].from == service {
                    return AddRequestOutcome::Duplicate;
                }
                j = j + 1;
            }
            let rec = DownLoadRequest::new(service, filename, request_id);
            requests.push(rec);
            AddRequestOutcome::Added
        },
    }
}

/// What became of an explore request the interface layer tried to
/// enqueue.
#[derive(Debug, Clone, Copy, PartialEq, Eq, Structural)]
pub enum AddExploreOutcome {
    /// A fresh record was enqueued.
    Added,
    /// The input was blank.
    EmptyInput,
    /// A record for the same service already exists.
    Duplicate,
}

/// Whether the service at `from` is already being explored.
pub open spec fn explore_duplicate(rs: Seq<ExploreRequest>, from: Seq<char>) -> bool {
    exists|j: int| 0 <= j < rs.len() && (#[trigger] rs[j]).from@ == from
}

/// Enqueues an explore request for a service address, under a fresh
/// identifier chosen by the caller.  A blank address and a duplicate
/// request change nothing.
#[verifier::loop_isolation(false)]
pub fn handle_explore_request(
    explores: &mut Vec<ExploreRequest>,
    address: &str,
    request_id: String,
) -> (r: AddExploreOutcome)
    ensures
        is_blank(address@) ==> r == AddExploreOutcome::EmptyInput && final(explores)@ == old(
            explores,
        )@,
        !is_blank(address@) ==> {
            if explore_duplicate(old(explores)@, address@) {
                r == AddExploreOutcome::Duplicate && final(explores)@ == old(explores)@
            } else {
                {
                    let rec = final(explores)@.last();
                    &&& r == AddExploreOutcome::Added
                    &&& final(explores)@ == old(explores)@.push(rec)
                    &&& rec.from@ == address@
                    &&& rec.request_id@ == request_id@
                    &&& rec.sent == false
                    &&& rec.sent_time is None
                    &&& rec.ack_time is None
                    &&& rec.accepted == false
                    &&& rec.completed == false
                    &&& rec.advertise_files@ =~= Seq::<String>::empty()
                }
            }
        },
{
    if blank(address) {
        return AddExploreOutcome::EmptyInput;
    }
    let mut j: usize = 0;
    while j < explores.len()
        invariant
            j <= explores@.len(),
            forall|k: int| 0 <= k < j ==> (#[trigger] explores@[k]).from@ != address@,
        decreases explores@.len() - j,
    {
        let a = String::from_str(address);
        if explores[j].from == a {
            return AddExploreOutcome::Duplicate;
        }
        j = j + 1;
    }
    let rec = ExploreRequest::new(String::from_str(address), request_id);
    explores.push(rec);
    AddExploreOutcome::Added
}

} // verus!
