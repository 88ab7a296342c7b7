//! Decision logic of the serving loop.
//!
//! For each inbound frame the loop asks this module what to reply.  A
//! file request for an active file earns an acknowledgment and then the
//! file's bytes; an advertise request earns an acknowledgment and then
//! the names of all active files, but only in advertise mode.  Anything
//! else — a malformed frame, an unknown command, a file that is absent
//! or inactive — is dropped, and the loop goes on to the next frame.
//! Reading the file and sending the frames is the loop's own business;
//! it reports back so that the counters can be brought up to date.

use vstd::prelude::*;
use vstd::utf8::encode_utf8;
use crate::codec::{field_end, lemma_str_field_bounded};
use crate::message::{
    decode_message, encode_message, frame_bytes, parse_frame, strings_view, Message, MsgView,
};
use crate::shareable::{active_names, active_names_spec, find_active_file, serves, Shareable};

verus! {

/// What the serving loop should do with one inbound frame.
pub enum ServerReply {
    /// Send the acknowledgment, read the file at `file_index`, send its
    /// bytes, and then count the download.
    ServeFile { file_index: usize, request_id: String, ack_frame: Vec<u8> },
    /// Send the acknowledgment, send the name list, and then count the
    /// advertisement on every named file.
    ServeAdvertise { request_id: String, ack_frame: Vec<u8>, names: Vec<String> },
    /// Drop the frame and continue.
    Ignore,
}

/// Decides the reply to one inbound frame on the serving side.
pub fn server_plan_reply(files: &Vec<Shareable>, advertise_mode: bool, frame: &Vec<u8>) -> (r:
    ServerReply)
    ensures
        match parse_frame(frame@) {
            Some(m) => match m {
                MsgView::FileRequest { request_id: id, filename } => {
                    if exists|i: int|
                        0 <= i < files@.len() && serves(#[trigger] files@[i], filename) {
                        r matches ServerReply::ServeFile { file_index, request_id, ack_frame }
                            && {
                            &&& file_index < files@.len()
                            &&& serves(files@[file_index as int], filename)
                            &&& forall|j: int|
                                0 <= j < file_index ==> !serves(#[trigger] files@[j], filename)
                            &&& request_id@ == id
                            &&& ack_frame@ == frame_bytes(
                                MsgView::AckFileRequest { request_id: id },
                            )
                        }
                    } else {
                        r is Ignore
                    }
                },
                MsgView::Advertise { request_id: id } => {
                    if advertise_mode {
                        r matches ServerReply::ServeAdvertise { request_id, ack_frame, names }
                            && {
                            &&& request_id@ == id
                            &&& ack_frame@ == frame_bytes(
                                MsgView::AckAdvertiseRequest { request_id: id },
                            )
                            &&& strings_view(names@) == active_names_spec(files@)
                        }
                    } else {
                        r is Ignore
                    }
                },
                _ => r is Ignore,
            },
            None => r is Ignore,
        },
{
    let msg = match decode_message(frame) {
        Err(_) => {
            return ServerReply::Ignore;
        },
        Ok(m) => m,
    };
    match msg {
        Message::FileRequest { request_id, filename } => {
            match find_active_file(files, &filename) {
                None => ServerReply::Ignore,
                Some(i) => {
                    proof {
                        lemma_str_field_bounded(frame@, field_end(frame@, 0));
                    }
                    let ack = encode_message(
                        &Message::AckFileRequest { request_id: request_id.clone() },
                    );
                    ServerReply::ServeFile { file_index: i, request_id, ack_frame: ack }
                },
            }
        },
        Message::Advertise { request_id } => {
            if advertise_mode {
                proof {
                    lemma_str_field_bounded(frame@, field_end(frame@, 0));
                }
                let ack = encode_message(
                    &Message::AckAdvertiseRequest { request_id: request_id.clone() },
                );
                let names = active_names(files);
                ServerReply::ServeAdvertise { request_id, ack_frame: ack, names }
            } else {
                ServerReply::Ignore
            }
        },
        _ => ServerReply::Ignore,
    }
}

/// Builds the frame that delivers a file's bytes.  `None` only when
/// the identifier or the contents are too long for a length prefix.
pub fn getfile_frame(request_id: &String, contents: &Vec<u8>) -> (f: Option<Vec<u8>>)
    ensures
        match f {
            Some(b) => b@ == frame_bytes(
                MsgView::GetFile { request_id: request_id@, contents: contents@ },
            ),
            None => !(encode_utf8(request_id@).len() <= u32::MAX && contents@.len()
                <= u32::MAX),
        },
{
    if request_id.as_str().as_bytes().len() > u32::MAX as usize || contents.len()
        > u32::MAX as usize {
        return None;
    }
    let c = contents.clone();
    assert(c@ =~= contents@);
    Some(encode_message(&Message::GetFile { request_id: request_id.clone(), contents: c }))
}

/// Builds the frame that delivers the advertised name list.  `None`
/// only when the identifier or a name is too long for a length prefix,
/// or the list itself could not carry a count.
pub fn getadvertise_frame(request_id: &String, names: &Vec<String>) -> (f: Option<Vec<u8>>)
    ensures
        match f {
            Some(b) => b@ == frame_bytes(
                MsgView::GetAdvertise { request_id: request_id@, names: strings_view(names@) },
            ),
            None => !(encode_utf8(request_id@).len() <= u32::MAX && names@.len() <= u32::MAX
                && (forall|k: int|
                0 <= k < names@.len() ==> encode_utf8(
                    #[trigger] strings_view(names@)[k],
                ).len() <= u32::MAX)),
        },
{
    if request_id.as_str().as_bytes().len() > u32::MAX as usize {
        return None;
    }
    if names.len() > u32::MAX as usize {
        return None;
    }
    let mut j: usize = 0;
    while j < names.len()
        invariant
            j <= names@.len(),
            forall|k: int|
                0 <= k < j ==> encode_utf8(#[trigger] strings_view(names@)[k]).len() <= u32::MAX,
        decreases names@.len() - j,
    {
        assert(strings_view(names@)[j as int] == names@[j as int]@);
        if names[j].as_str().as_bytes().len() > u32::MAX as usize {
            return None;
        }
        j = j + 1;
    }
    let n = names.clone();
    proof {
        assert(strings_view(n@) =~= strings_view(names@));
    }
    Some(
        encode_message(&Message::GetAdvertise { request_id: request_id.clone(), names: n }),
    )
}

} // verus!
