//! The protocol's commands as a closed tagged union, with a verified
//! encoder and decoder over the field codec.
//!
//! A frame starts with a string field holding the command tag; the
//! remaining fields are positional and typed per command.  A frame whose
//! first field parses but whose tag is not a known command decodes to
//! [`Message::Unrecognized`], which callers drop; a frame whose required
//! fields cannot be read decodes to a [`MalformedMessage`] error, which
//! callers must treat as "drop and continue", never as fatal.

use vstd::prelude::*;
use vstd::utf8::encode_utf8;
use vstd::string::StringExecFns;
use crate::codec::{
    field_end, field_ok, field_payload, lp_bytes, str_field, str_field_ok, str_lp, u32_field,
    u32_field_ok, u32_lp, lemma_lp_parses, lemma_str_lp_parses, lemma_u32_lp_parses, read_field,
    read_str_field, read_u32_field, write_field, write_str_field, write_u32_field,
};

verus! {

/// A decoded protocol message.
#[derive(Debug, Clone, PartialEq)]
pub enum Message {
    /// A downloader asks for one file by name.
    FileRequest { request_id: String, filename: String },
    /// The server acknowledges a file request it will serve.
    AckFileRequest { request_id: String },
    /// The server delivers the requested file's bytes.
    GetFile { request_id: String, contents: Vec<u8> },
    /// An explorer asks for the list of shared files.
    Advertise { request_id: String },
    /// The server acknowledges an advertise request.
    AckAdvertiseRequest { request_id: String },
    /// The server delivers the names of its shared files.
    GetAdvertise { request_id: String, names: Vec<String> },
    /// A frame with a well-formed but unknown command tag.
    Unrecognized { command: String },
}

/// The mathematical image of a [`Message`].
pub enum MsgView {
    FileRequest { request_id: Seq<char>, filename: Seq<char> },
    AckFileRequest { request_id: Seq<char> },
    GetFile { request_id: Seq<char>, contents: Seq<u8> },
    Advertise { request_id: Seq<char> },
    AckAdvertiseRequest { request_id: Seq<char> },
    GetAdvertise { request_id: Seq<char>, names: Seq<Seq<char>> },
    Unrecognized { command: Seq<char> },
}

/// The views of a sequence of strings.
pub open spec fn strings_view(v: Seq<String>) -> Seq<Seq<char>> {
    v.map_values(|s: String| s@)
}

impl View for Message {
    type V = MsgView;

    open spec fn view(&self) -> MsgView {
        match self {
            Message::FileRequest { request_id, filename } => MsgView::FileRequest {
                request_id: request_id@,
                filename: filename@,
            },
            Message::AckFileRequest { request_id } => MsgView::AckFileRequest {
                request_id: request_id@,
            },
            Message::GetFile { request_id, contents } => MsgView::GetFile {
                request_id: request_id@,
                contents: contents@,
            },
            Message::Advertise { request_id } => MsgView::Advertise { request_id: request_id@ },
            Message::AckAdvertiseRequest { request_id } => MsgView::AckAdvertiseRequest {
                request_id: request_id@,
            },
            Message::GetAdvertise { request_id, names } => MsgView::GetAdvertise {
                request_id: request_id@,
                names: strings_view(names@),
            },
            Message::Unrecognized { command } => MsgView::Unrecognized { command: command@ },
        }
    }
}

/// Whether every field of the message fits behind a four-byte length
/// prefix; every message a real machine can hold satisfies this.
pub open spec fn msg_wf(m: MsgView) -> bool {
    match m {
        MsgView::FileRequest { request_id, filename } => encode_utf8(request_id).len() <= u32::MAX
            && encode_utf8(filename).len() <= u32::MAX,
        MsgView::AckFileRequest { request_id } => encode_utf8(request_id).len() <= u32::MAX,
        MsgView::GetFile { request_id, contents } => encode_utf8(request_id).len() <= u32::MAX
            && contents.len() <= u32::MAX,
        MsgView::Advertise { request_id } => encode_utf8(request_id).len() <= u32::MAX,
        MsgView::AckAdvertiseRequest { request_id } => encode_utf8(request_id).len() <= u32::MAX,
        MsgView::GetAdvertise { request_id, names } => encode_utf8(request_id).len() <= u32::MAX
            && names.len() <= u32::MAX && (forall|i: int|
            0 <= i < names.len() ==> encode_utf8(#[trigger] names[i]).len() <= u32::MAX),
        MsgView::Unrecognized { command } => encode_utf8(command).len() <= u32::MAX,
    }
}

/// The encoding of a list of strings: one string field per name.
pub open spec fn names_lp(names: Seq<Seq<char>>) -> Seq<u8>
    decreases names.len(),
{
    if names.len() == 0 {
        Seq::empty()
    } else {
        str_lp(names.first()) + names_lp(names.drop_first())
    }
}

/// The byte encoding of a message.  Only real commands are encoded;
/// an unrecognized message has no encoding of its own.
pub open spec fn frame_bytes(m: MsgView) -> Seq<u8> {
    match m {
        MsgView::FileRequest { request_id, filename } => str_lp("FILE_REQUEST"@) + str_lp(
            request_id,
        ) + str_lp(filename),
        MsgView::AckFileRequest { request_id } => str_lp("ACK_FILE_REQUEST"@) + str_lp(request_id),
        MsgView::GetFile { request_id, contents } => str_lp("GETFILE"@) + str_lp(request_id)
            + lp_bytes(contents),
        MsgView::Advertise { request_id } => str_lp("ADVERTISE"@) + str_lp(request_id),
        MsgView::AckAdvertiseRequest { request_id } => str_lp("ACK_ADVERTISE_REQUEST"@) + str_lp(
            request_id,
        ),
        MsgView::GetAdvertise { request_id, names } => str_lp("GETADVERTISE"@) + str_lp(request_id)
            + u32_lp(names.len() as int) + names_lp(names),
        MsgView::Unrecognized { command } => str_lp(command),
    }
}

/// Parses `n` consecutive string fields starting at `pos`, yielding the
/// names and the position just past them.
pub open spec fn parse_names(buf: Seq<u8>, pos: int, n: nat) -> Option<(Seq<Seq<char>>, int)>
    decreases n,
{
    if n == 0 {
        Some((Seq::empty(), pos))
    } else if str_field_ok(buf, pos) {
        match parse_names(buf, field_end(buf, pos), (n - 1) as nat) {
            Some(r) => Some((seq![str_field(buf, pos)] + r.0, r.1)),
            None => None,
        }
    } else {
        None
    }
}

/// The message encoded in a frame: `None` when a required field is
/// missing or ill-typed, the unrecognized variant for a sound frame whose
/// command tag is unknown.  Bytes past the last required field are
/// ignored.
pub open spec fn parse_frame(buf: Seq<u8>) -> Option<MsgView> {
    if !str_field_ok(buf, 0) {
        None
    } else {
        let cmd = str_field(buf, 0);
        let p1 = field_end(buf, 0);
        if cmd == "FILE_REQUEST"@ {
            if str_field_ok(buf, p1) && str_field_ok(buf, field_end(buf, p1)) {
                Some(
                    MsgView::FileRequest {
                        request_id: str_field(buf, p1),
                        filename: str_field(buf, field_end(buf, p1)),
                    },
                )
            } else {
                None
            }
        } else if cmd == "ACK_FILE_REQUEST"@ {
            if str_field_ok(buf, p1) {
                Some(MsgView::AckFileRequest { request_id: str_field(buf, p1) })
            } else {
                None
            }
        } else if cmd == "GETFILE"@ {
            if str_field_ok(buf, p1) && field_ok(buf, field_end(buf, p1)) {
                Some(
                    MsgView::GetFile {
                        request_id: str_field(buf, p1),
                        contents: field_payload(buf, field_end(buf, p1)),
                    },
                )
            } else {
                None
            }
        } else if cmd == "ADVERTISE"@ {
            if str_field_ok(buf, p1) {
                Some(MsgView::Advertise { request_id: str_field(buf, p1) })
            } else {
                None
            }
        } else if cmd == "ACK_ADVERTISE_REQUEST"@ {
            if str_field_ok(buf, p1) {
                Some(MsgView::AckAdvertiseRequest { request_id: str_field(buf, p1) })
            } else {
                None
            }
        } else if cmd == "GETADVERTISE"@ {
            if str_field_ok(buf, p1) && u32_field_ok(buf, field_end(buf, p1)) {
                let p2 = field_end(buf, p1);
                match parse_names(buf, field_end(buf, p2), u32_field(buf, p2) as nat) {
                    Some(r) => Some(
                        MsgView::GetAdvertise { request_id: str_field(buf, p1), names: r.0 },
                    ),
                    None => None,
                }
            } else {
                None
            }
        } else {
            Some(MsgView::Unrecognized { command: cmd })
        }
    }
}

/// The condition reported for a frame whose required fields cannot be
/// read; the receiving loop drops the frame and continues.
#[derive(Debug, Clone, Copy, PartialEq, Eq)]
pub struct MalformedMessage;

/// Compares a string against a literal tag.
fn str_eq_lit(a: &String, lit: &str) -> (r: bool)
    ensures
        r == (a@ == lit@),
{
    let tmp = String::from_str(lit);
    *a == tmp
}

/// An ASCII text encodes to one byte per character.
proof fn lemma_ascii_len(t: Seq<char>)
    requires
        vstd::utf8::is_ascii_chars(t),
    ensures
        encode_utf8(t).len() == t.len(),
{
    vstd::utf8::is_ascii_chars_encode_utf8(t);
}

/// `names_lp` distributes over concatenation.
proof fn lemma_names_lp_concat(a: Seq<Seq<char>>, b: Seq<Seq<char>>)
    ensures
        names_lp(a + b) == names_lp(a) + names_lp(b),
    decreases a.len(),
{
    if a.len() == 0 {
        assert(a + b =~= b);
        assert(names_lp(a) + names_lp(b) =~= names_lp(b));
    } else {
        assert((a + b).first() == a.first());
        assert((a + b).drop_first() =~= a.drop_first() + b);
        lemma_names_lp_concat(a.drop_first(), b);
        assert(str_lp(a.first()) + (names_lp(a.drop_first()) + names_lp(b)) =~= (str_lp(a.first())
            + names_lp(a.drop_first())) + names_lp(b));
    }
}

/// Parsing `k + more` names is parsing `k` names and then `more` names
/// from where the first parse stopped.
proof fn lemma_parse_names_split(buf: Seq<u8>, pos: int, k: nat, more: nat)
    ensures
        parse_names(buf, pos, k + more) == (match parse_names(buf, pos, k) {
            Some(r) => match parse_names(buf, r.1, more) {
                Some(r2) => Some(((r.0 + r2.0), r2.1)),
                None => None::<(Seq<Seq<char>>, int)>,
            },
            None => None::<(Seq<Seq<char>>, int)>,
        }),
    decreases k,
{
    if k == 0 {
        match parse_names(buf, pos, more) {
            Some(r2) => {
                assert(Seq::<Seq<char>>::empty() + r2.0 =~= r2.0);
            },
            None => {},
        }
    } else {
        if str_field_ok(buf, pos) {
            let mid = field_end(buf, pos);
            let x = str_field(buf, pos);
            lemma_parse_names_split(buf, mid, (k - 1) as nat, more);
            match parse_names(buf, mid, (k - 1) as nat) {
                Some(r) => {
                    match parse_names(buf, r.1, more) {
                        Some(r2) => {
                            assert((seq![x] + r.0) + r2.0 =~= seq![x] + (r.0 + r2.0));
                        },
                        None => {},
                    }
                },
                None => {},
            }
        }
    }
}

/// A list of string fields written after `front` parses back to its own
/// names, whatever bytes follow it.
proof fn lemma_names_lp_parses(front: Seq<u8>, names: Seq<Seq<char>>, rest: Seq<u8>)
    requires
        forall|i: int| 0 <= i < names.len() ==> encode_utf8(#[trigger] names[i]).len() <= u32::MAX,
    ensures
        parse_names(front + names_lp(names) + rest, front.len() as int, names.len())
            == Some((names, (front.len() + names_lp(names).len()) as int)),
    decreases names.len(),
{
    let buf = front + names_lp(names) + rest;
    let pos = front.len() as int;
    if names.len() == 0 {
        assert(names_lp(names) =~= Seq::<u8>::empty());
        assert(names =~= Seq::<Seq<char>>::empty());
    } else {
        let x = names.first();
        let tail = names.drop_first();
        assert(names_lp(names) == str_lp(x) + names_lp(tail));
        assert(buf =~= front + str_lp(x) + (names_lp(tail) + rest));
        lemma_str_lp_parses(front, x, names_lp(tail) + rest);
        assert(buf =~= (front + str_lp(x)) + names_lp(tail) + rest);
        lemma_names_lp_parses(front + str_lp(x), tail, rest);
        assert(field_end(buf, pos) == (front + str_lp(x)).len() as int);
        assert(seq![x] + tail =~= names);
    }
}

/// Encodes a message into a frame of length-prefixed fields, the command
/// tag first.
pub fn encode_message(m: &Message) -> (r: Vec<u8>)
    requires
        msg_wf(m@),
        !(m@ is Unrecognized),
    ensures
        r@ == frame_bytes(m@),
{
    let mut out: Vec<u8> = Vec::new();
    match m {
        Message::FileRequest { request_id, filename } => {
            proof {
                reveal_strlit("FILE_REQUEST");
                lemma_ascii_len("FILE_REQUEST"@);
            }
            write_str_field(&mut out, "FILE_REQUEST");
            write_str_field(&mut out, request_id.as_str());
            write_str_field(&mut out, filename.as_str());
            assert(out@ =~= frame_bytes(m@));
        },
        Message::AckFileRequest { request_id } => {
            proof {
                reveal_strlit("ACK_FILE_REQUEST");
                lemma_ascii_len("ACK_FILE_REQUEST"@);
            }
            write_str_field(&mut out, "ACK_FILE_REQUEST");
            write_str_field(&mut out, request_id.as_str());
            assert(out@ =~= frame_bytes(m@));
        },
        Message::GetFile { request_id, contents } => {
            proof {
                reveal_strlit("GETFILE");
                lemma_ascii_len("GETFILE"@);
            }
            write_str_field(&mut out, "GETFILE");
            write_str_field(&mut out, request_id.as_str());
            write_field(&mut out, contents.as_slice());
            assert(out@ =~= frame_bytes(m@));
        },
        Message::Advertise { request_id } => {
            proof {
                reveal_strlit("ADVERTISE");
                lemma_ascii_len("ADVERTISE"@);
            }
            write_str_field(&mut out, "ADVERTISE");
            write_str_field(&mut out, request_id.as_str());
            assert(out@ =~= frame_bytes(m@));
        },
        Message::AckAdvertiseRequest { request_id } => {
            proof {
                reveal_strlit("ACK_ADVERTISE_REQUEST");
                lemma_ascii_len("ACK_ADVERTISE_REQUEST"@);
            }
            write_str_field(&mut out, "ACK_ADVERTISE_REQUEST");
            write_str_field(&mut out, request_id.as_str());
            assert(out@ =~= frame_bytes(m@));
        },
        Message::GetAdvertise { request_id, names } => {
            proof {
                reveal_strlit("GETADVERTISE");
                lemma_ascii_len("GETADVERTISE"@);
            }
            write_str_field(&mut out, "GETADVERTISE");
            write_str_field(&mut out, request_id.as_str());
            write_u32_field(&mut out, names.len() as u32);
            let ghost head = out@;
            let ghost all = strings_view(names@);
            assert(names_lp(all.take(0)) =~= Seq::<u8>::empty());
            assert(out@ =~= head + names_lp(all.take(0)));
            let mut j: usize = 0;
            while j < names.len()
                invariant
                    j <= names@.len(),
                    all == strings_view(names@),
                    all.len() == names@.len(),
                    forall|i: int| 0 <= i < all.len() ==> encode_utf8(#[trigger] all[i]).len()
                        <= u32::MAX,
                    out@ == head + names_lp(all.take(j as int)),
                decreases names@.len() - j,
            {
                assert(all[j as int] == names@[j as int]@);
                write_str_field(&mut out, names[j].as_str());
                proof {
                    let prefix = all.take(j as int);
                    assert(all.take(j + 1) =~= prefix + seq![all[j as int]]);
                    lemma_names_lp_concat(prefix, seq![all[j as int]]);
                    assert(seq![all[j as int]].drop_first() =~= Seq::<Seq<char>>::empty());
                    assert(names_lp(seq![all[j as int]]) == str_lp(all[j as int]) + names_lp(
                        Seq::<Seq<char>>::empty(),
                    ));
                    assert(str_lp(all[j as int]) + Seq::<u8>::empty() =~= str_lp(all[j as int]));
                    assert(out@ =~= head + names_lp(all.take(j + 1)));
                }
                j = j + 1;
            }
            assert(all.take(names@.len() as int) =~= all);
            assert(out@ =~= frame_bytes(m@));
        },
        Message::Unrecognized { .. } => {
            assert(false);
        },
    }
    out
}

/// Decodes one inbound frame.  `Ok` holds exactly the message that
/// [`parse_frame`] gives for these bytes; `Err` reports a frame that
/// [`parse_frame`] refuses.
#[verifier::loop_isolation(false)]
pub fn decode_message(buf: &Vec<u8>) -> (r: Result<Message, MalformedMessage>)
    ensures
        match r {
            Ok(m) => parse_frame(buf@) == Some(m@),
            Err(_) => parse_frame(buf@) is None,
        },
{
    let mut pos: usize = 0;
    let cmd = match read_str_field(buf, &mut pos) {
        None => {
            return Err(MalformedMessage);
        },
        Some(c) => c,
    };
    if str_eq_lit(&cmd, "FILE_REQUEST") {
        let request_id = match read_str_field(buf, &mut pos) {
            None => {
                return Err(MalformedMessage);
            },
            Some(s) => s,
        };
        let filename = match read_str_field(buf, &mut pos) {
            None => {
                return Err(MalformedMessage);
            },
            Some(s) => s,
        };
        Ok(Message::FileRequest { request_id, filename })
    } else if str_eq_lit(&cmd, "ACK_FILE_REQUEST") {
        let request_id = match read_str_field(buf, &mut pos) {
            None => {
                return Err(MalformedMessage);
            },
            Some(s) => s,
        };
        Ok(Message::AckFileRequest { request_id })
    } else if str_eq_lit(&cmd, "GETFILE") {
        let request_id = match read_str_field(buf, &mut pos) {
            None => {
                return Err(MalformedMessage);
            },
            Some(s) => s,
        };
        let contents = match read_field(buf, &mut pos) {
            None => {
                return Err(MalformedMessage);
            },
            Some(b) => b,
        };
        Ok(Message::GetFile { request_id, contents })
    } else if str_eq_lit(&cmd, "ADVERTISE") {
        let request_id = match read_str_field(buf, &mut pos) {
            None => {
                return Err(MalformedMessage);
            },
            Some(s) => s,
        };
        Ok(Message::Advertise { request_id })
    } else if str_eq_lit(&cmd, "ACK_ADVERTISE_REQUEST") {
        let request_id = match read_str_field(buf, &mut pos) {
            None => {
                return Err(MalformedMessage);
            },
            Some(s) => s,
        };
        Ok(Message::AckAdvertiseRequest { request_id })
    } else if str_eq_lit(&cmd, "GETADVERTISE") {
        let request_id = match read_str_field(buf, &mut pos) {
            None => {
                return Err(MalformedMessage);
            },
            Some(s) => s,
        };
        let count = match read_u32_field(buf, &mut pos) {
            None => {
                return Err(MalformedMessage);
            },
            Some(v) => v,
        };
        let ghost p_names = pos as int;
        let mut names: Vec<String> = Vec::new();
        let mut k: u32 = 0;
        assert(strings_view(names@) =~= Seq::<Seq<char>>::empty());
        while k < count
            invariant
                k <= count,
                parse_names(buf@, p_names, k as nat) == Some((strings_view(names@), pos as int)),
            decreases count - k,
        {
            let ghost pre = pos as int;
            let ghost old_views = strings_view(names@);
            match read_str_field(buf, &mut pos) {
                None => {
                    proof {
                        lemma_parse_names_split(buf@, p_names, k as nat, (count - k) as nat);
                        assert((count - k) as nat != 0);
                        assert(parse_names(buf@, pre, (count - k) as nat) is None);
                        assert(k as nat + (count - k) as nat == count as nat);
                    }
                    return Err(MalformedMessage);
                },
                Some(s) => {
                    proof {
                        lemma_parse_names_split(buf@, p_names, k as nat, 1);
                        assert(parse_names(buf@, field_end(buf@, pre), 0nat) == Some(
                            (Seq::<Seq<char>>::empty(), field_end(buf@, pre)),
                        ));
                        assert(seq![str_field(buf@, pre)] + Seq::<Seq<char>>::empty() =~= seq![
                            str_field(buf@, pre),
                        ]);
                        assert(parse_names(buf@, pre, 1nat) == Some(
                            (seq![str_field(buf@, pre)], field_end(buf@, pre)),
                        ));
                        assert(parse_names(buf@, p_names, k as nat + 1) == Some(
                            (old_views + seq![str_field(buf@, pre)], field_end(buf@, pre)),
                        ));
                    }
                    names.push(s);
                    proof {
                        assert(strings_view(names@) =~= old_views + seq![s@]);
                        assert((k + 1) as nat == k as nat + 1);
                    }
                    k = k + 1;
                },
            }
        }
        Ok(Message::GetAdvertise { request_id, names })
    } else {
        Ok(Message::Unrecognized { command: cmd })
    }
}

/// Round trip of a file request frame.
#[verifier::spinoff_prover]
#[verifier::rlimit(100)]
proof fn lemma_rt_file_request(request_id: Seq<char>, filename: Seq<char>)
    requires
        msg_wf(MsgView::FileRequest { request_id, filename }),
    ensures
        parse_frame(frame_bytes(MsgView::FileRequest { request_id, filename })) == Some(
            MsgView::FileRequest { request_id, filename },
        ),
{
    reveal_strlit("FILE_REQUEST");
    lemma_ascii_len("FILE_REQUEST"@);
    let tag = "FILE_REQUEST"@;
    let buf = frame_bytes(MsgView::FileRequest { request_id, filename });
    assert(buf =~= Seq::<u8>::empty() + str_lp(tag) + (str_lp(request_id) + str_lp(filename)));
    lemma_str_lp_parses(Seq::empty(), tag, str_lp(request_id) + str_lp(filename));
    assert(buf =~= str_lp(tag) + str_lp(request_id) + str_lp(filename));
    lemma_str_lp_parses(str_lp(tag), request_id, str_lp(filename));
    assert(buf =~= (str_lp(tag) + str_lp(request_id)) + str_lp(filename) + Seq::<u8>::empty());
    lemma_str_lp_parses(str_lp(tag) + str_lp(request_id), filename, Seq::empty());
}

/// Round trip of a frame whose body is the command tag and one request
/// id: the shape shared by the acknowledgment and advertise commands.
#[verifier::spinoff_prover]
#[verifier::rlimit(100)]
proof fn lemma_rt_tagged_id(tag: Seq<char>, request_id: Seq<char>)
    requires
        encode_utf8(tag).len() <= u32::MAX,
        encode_utf8(request_id).len() <= u32::MAX,
    ensures
        str_field_ok(str_lp(tag) + str_lp(request_id), 0),
        str_field(str_lp(tag) + str_lp(request_id), 0) == tag,
        str_field_ok(
            str_lp(tag) + str_lp(request_id),
            field_end(str_lp(tag) + str_lp(request_id), 0),
        ),
        str_field(
            str_lp(tag) + str_lp(request_id),
            field_end(str_lp(tag) + str_lp(request_id), 0),
        ) == request_id,
{
    let buf = str_lp(tag) + str_lp(request_id);
    assert(buf =~= Seq::<u8>::empty() + str_lp(tag) + str_lp(request_id));
    lemma_str_lp_parses(Seq::empty(), tag, str_lp(request_id));
    assert(buf =~= str_lp(tag) + str_lp(request_id) + Seq::<u8>::empty());
    lemma_str_lp_parses(str_lp(tag), request_id, Seq::empty());
}

/// Round trip of a file delivery frame.
#[verifier::spinoff_prover]
#[verifier::rlimit(100)]
proof fn lemma_rt_getfile(request_id: Seq<char>, contents: Seq<u8>)
    requires
        msg_wf(MsgView::GetFile { request_id, contents }),
    ensures
        parse_frame(frame_bytes(MsgView::GetFile { request_id, contents })) == Some(
            MsgView::GetFile { request_id, contents },
        ),
{
    reveal_strlit("FILE_REQUEST");
    reveal_strlit("ACK_FILE_REQUEST");
    reveal_strlit("GETFILE");
    lemma_ascii_len("GETFILE"@);
    let tag = "GETFILE"@;
    let buf = frame_bytes(MsgView::GetFile { request_id, contents });
    assert(buf =~= Seq::<u8>::empty() + str_lp(tag) + (str_lp(request_id) + lp_bytes(contents)));
    lemma_str_lp_parses(Seq::empty(), tag, str_lp(request_id) + lp_bytes(contents));
    assert(buf =~= str_lp(tag) + str_lp(request_id) + lp_bytes(contents));
    lemma_str_lp_parses(str_lp(tag), request_id, lp_bytes(contents));
    assert(buf =~= (str_lp(tag) + str_lp(request_id)) + lp_bytes(contents) + Seq::<u8>::empty());
    lemma_lp_parses(str_lp(tag) + str_lp(request_id), contents, Seq::empty());
}

/// Round trip of an advertise delivery frame.
#[verifier::spinoff_prover]
#[verifier::rlimit(100)]
proof fn lemma_rt_getadvertise(request_id: Seq<char>, names: Seq<Seq<char>>)
    requires
        msg_wf(MsgView::GetAdvertise { request_id, names }),
    ensures
        parse_frame(frame_bytes(MsgView::GetAdvertise { request_id, names })) == Some(
            MsgView::GetAdvertise { request_id, names },
        ),
{
    reveal_strlit("FILE_REQUEST");
    reveal_strlit("ACK_FILE_REQUEST");
    reveal_strlit("GETFILE");
    reveal_strlit("ADVERTISE");
    reveal_strlit("ACK_ADVERTISE_REQUEST");
    reveal_strlit("GETADVERTISE");
    lemma_ascii_len("GETADVERTISE"@);
    let tag = "GETADVERTISE"@;
    let cnt = names.len() as int;
    let buf = frame_bytes(MsgView::GetAdvertise { request_id, names });
    assert(buf =~= Seq::<u8>::empty() + str_lp(tag) + (str_lp(request_id) + u32_lp(cnt)
        + names_lp(names)));
    lemma_str_lp_parses(Seq::empty(), tag, str_lp(request_id) + u32_lp(cnt) + names_lp(names));
    assert(buf =~= str_lp(tag) + str_lp(request_id) + (u32_lp(cnt) + names_lp(names)));
    lemma_str_lp_parses(str_lp(tag), request_id, u32_lp(cnt) + names_lp(names));
    assert(buf =~= (str_lp(tag) + str_lp(request_id)) + u32_lp(cnt) + names_lp(names));
    lemma_u32_lp_parses(str_lp(tag) + str_lp(request_id), cnt, names_lp(names));
    assert(buf =~= (str_lp(tag) + str_lp(request_id) + u32_lp(cnt)) + names_lp(names)
        + Seq::<u8>::empty());
    lemma_names_lp_parses(str_lp(tag) + str_lp(request_id) + u32_lp(cnt), names, Seq::empty());
}

/// The round trip of the codec: any well-formed command encodes to a
/// frame that parses back to exactly the same message.
#[verifier::spinoff_prover]
#[verifier::rlimit(100)]
pub proof fn lemma_frame_round_trip(m: MsgView)
    requires
        msg_wf(m),
        !(m is Unrecognized),
    ensures
        parse_frame(frame_bytes(m)) == Some(m),
{
    match m {
        MsgView::FileRequest { request_id, filename } => {
            lemma_rt_file_request(request_id, filename);
        },
        MsgView::AckFileRequest { request_id } => {
            reveal_strlit("FILE_REQUEST");
            reveal_strlit("ACK_FILE_REQUEST");
            lemma_ascii_len("ACK_FILE_REQUEST"@);
            lemma_rt_tagged_id("ACK_FILE_REQUEST"@, request_id);
        },
        MsgView::GetFile { request_id, contents } => {
            lemma_rt_getfile(request_id, contents);
        },
        MsgView::Advertise { request_id } => {
            reveal_strlit("FILE_REQUEST");
            reveal_strlit("ACK_FILE_REQUEST");
            reveal_strlit("GETFILE");
            reveal_strlit("ADVERTISE");
            lemma_ascii_len("ADVERTISE"@);
            lemma_rt_tagged_id("ADVERTISE"@, request_id);
        },
        MsgView::AckAdvertiseRequest { request_id } => {
            reveal_strlit("FILE_REQUEST");
            reveal_strlit("ACK_FILE_REQUEST");
            reveal_strlit("GETFILE");
            reveal_strlit("ADVERTISE");
            reveal_strlit("ACK_ADVERTISE_REQUEST");
            lemma_ascii_len("ACK_ADVERTISE_REQUEST"@);
            lemma_rt_tagged_id("ACK_ADVERTISE_REQUEST"@, request_id);
        },
        MsgView::GetAdvertise { request_id, names } => {
            lemma_rt_getadvertise(request_id, names);
        },
        MsgView::Unrecognized { .. } => {},
    }
}

} // verus!
