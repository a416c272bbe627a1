//! The session log: an append-only record of one interactive run, a binary
//! codec for persisting it, and an in-memory store of encoded sessions.
//!
//! Encoding is length-prefixed: a string becomes its UTF-8 bytes behind a
//! little-endian `u64` byte count, an event becomes a one-byte tag followed
//! by its fields, and a session becomes id, creation time, workspace and the
//! counted event list. Decoding rejects any malformed or truncated input.

use vstd::prelude::*;
use vstd::bytes::*;
use vstd::slice::*;
use vstd::string::*;
use vstd::utf8::*;
use vstd::multiset::Multiset;
use crate::strutil::str_eq;

verus! {

/// One entry of a session's history.
#[derive(Debug, Clone, PartialEq, Eq)]
pub enum SessionEvent {
    UserInput(String),
    AgentToken(String),
    ToolCalled { name: String, args: String, result: String },
    EditApplied { file: String, patch: String },
    Error(String),
}

/// The durable, replayable history of one interactive run.
#[derive(Debug, Clone, PartialEq, Eq)]
pub struct Session {
    pub id: String,
    pub created_at: u64,
    pub workspace: String,
    pub events: Vec<SessionEvent>,
}

/// Lightweight session metadata, as reported by `SessionStore::list`.
#[derive(Debug, Clone, PartialEq, Eq)]
pub struct SessionMeta {
    pub id: String,
    pub created_at: u64,
    pub event_count: usize,
    pub workspace: String,
}

/// The mathematical content of a `SessionEvent`.
pub enum EventModel {
    UserInput { text: Seq<char> },
    AgentToken { text: Seq<char> },
    ToolCalled { name: Seq<char>, args: Seq<char>, result: Seq<char> },
    EditApplied { file: Seq<char>, patch: Seq<char> },
    Error { text: Seq<char> },
}

/// The mathematical content of a `Session`.
pub struct SessionModel {
    pub id: Seq<char>,
    pub created_at: u64,
    pub workspace: Seq<char>,
    pub events: Seq<EventModel>,
}

/// The mathematical content of a `SessionMeta`.
pub struct SessionMetaModel {
    pub id: Seq<char>,
    pub created_at: u64,
    pub event_count: int,
    pub workspace: Seq<char>,
}

impl SessionEvent {
    pub open spec fn model(self) -> EventModel {
        match self {
            SessionEvent::UserInput(t) => EventModel::UserInput { text: t@ },
            SessionEvent::AgentToken(t) => EventModel::AgentToken { text: t@ },
            SessionEvent::ToolCalled { name, args, result } => EventModel::ToolCalled {
                name: name@,
                args: args@,
                result: result@,
            },
            SessionEvent::EditApplied { file, patch } => EventModel::EditApplied {
                file: file@,
                patch: patch@,
            },
            SessionEvent::Error(t) => EventModel::Error { text: t@ },
        }
    }
}

impl Session {
    pub open spec fn model(self) -> SessionModel {
        SessionModel {
            id: self.id@,
            created_at: self.created_at,
            workspace: self.workspace@,
            events: self.events@.map_values(|e: SessionEvent| e.model()),
        }
    }
}

impl SessionMeta {
    pub open spec fn model(self) -> SessionMetaModel {
        SessionMetaModel {
            id: self.id@,
            created_at: self.created_at,
            event_count: self.event_count as int,
            workspace: self.workspace@,
        }
    }
}

/// The string's UTF-8 encoding fits behind a `u64` byte count.
pub open spec fn wf_str(s: Seq<char>) -> bool {
    encode_utf8(s).len() <= u64::MAX
}

impl EventModel {
    /// Every field fits its length prefix.
    pub open spec fn wf(self) -> bool {
        match self {
            EventModel::UserInput { text } => wf_str(text),
            EventModel::AgentToken { text } => wf_str(text),
            EventModel::ToolCalled { name, args, result } => wf_str(name) && wf_str(args)
                && wf_str(result),
            EventModel::EditApplied { file, patch } => wf_str(file) && wf_str(patch),
            EventModel::Error { text } => wf_str(text),
        }
    }
}

impl SessionModel {
    /// Every string and the event count fit their length prefixes.
    pub open spec fn wf(self) -> bool {
        &&& wf_str(self.id)
        &&& wf_str(self.workspace)
        &&& self.events.len() <= u64::MAX
        &&& forall|i: int| 0 <= i < self.events.len() ==> (#[trigger] self.events[i]).wf()
    }
}

// ---------------------------------------------------------------------------
// Specification of the encoding
// ---------------------------------------------------------------------------

/// A `u64` as eight little-endian bytes.
pub open spec fn enc_u64(x: u64) -> Seq<u8> {
    spec_u64_to_le_bytes(x)
}

/// A string as its byte count followed by its UTF-8 bytes.
pub open spec fn enc_str(s: Seq<char>) -> Seq<u8> {
    enc_u64(encode_utf8(s).len() as u64) + encode_utf8(s)
}

/// The tag byte of an event.
pub open spec fn event_tag(e: EventModel) -> u8 {
    match e {
        EventModel::UserInput { .. } => 1u8,
        EventModel::AgentToken { .. } => 2u8,
        EventModel::ToolCalled { .. } => 3u8,
        EventModel::EditApplied { .. } => 4u8,
        EventModel::Error { .. } => 5u8,
    }
}

/// An event as its tag followed by its string fields.
pub open spec fn enc_event(e: EventModel) -> Seq<u8> {
    seq![event_tag(e)] + match e {
        EventModel::UserInput { text } => enc_str(text),
        EventModel::AgentToken { text } => enc_str(text),
        EventModel::ToolCalled { name, args, result } => enc_str(name) + enc_str(args) + enc_str(
            result,
        ),
        EventModel::EditApplied { file, patch } => enc_str(file) + enc_str(patch),
        EventModel::Error { text } => enc_str(text),
    }
}

/// A list of events, one after the other.
pub open spec fn enc_events(es: Seq<EventModel>) -> Seq<u8>
    decreases es.len(),
{
    if es.len() == 0 {
        seq![]
    } else {
        enc_event(es[0]) + enc_events(es.drop_first())
    }
}

/// A whole session.
pub open spec fn enc_session(m: SessionModel) -> Seq<u8> {
    enc_str(m.id) + enc_u64(m.created_at) + enc_str(m.workspace) + enc_u64(m.events.len() as u64)
        + enc_events(m.events)
}

// ---------------------------------------------------------------------------
// Specification of the decoding
// ---------------------------------------------------------------------------

/// Reads one byte.
pub open spec fn dec_u8(b: Seq<u8>, pos: int) -> Option<(u8, int)> {
    if 0 <= pos && pos + 1 <= b.len() {
        Some((b[pos], pos + 1))
    } else {
        None
    }
}

/// Reads eight little-endian bytes.
pub open spec fn dec_u64(b: Seq<u8>, pos: int) -> Option<(u64, int)> {
    if 0 <= pos && pos + 8 <= b.len() {
        Some((spec_u64_from_le_bytes(b.subrange(pos, pos + 8)), pos + 8))
    } else {
        None
    }
}

/// Reads a length-prefixed UTF-8 string.
pub open spec fn dec_str(b: Seq<u8>, pos: int) -> Option<(Seq<char>, int)> {
    match dec_u64(b, pos) {
        Option::None => None,
        Option::Some((n, p)) => {
            if p + n <= b.len() && valid_utf8(b.subrange(p, p + n)) {
                Some((decode_utf8(b.subrange(p, p + n)), p + n))
            } else {
                None
            }
        },
    }
}

/// Reads one tagged event.
pub open spec fn dec_event(b: Seq<u8>, pos: int) -> Option<(EventModel, int)> {
    match dec_u8(b, pos) {
        Option::None => None,
        Option::Some((tag, p)) => {
            if tag == 1 {
                match dec_str(b, p) {
                    Option::None => None,
                    Option::Some((text, q)) => Some((EventModel::UserInput { text }, q)),
                }
            } else if tag == 2 {
                match dec_str(b, p) {
                    Option::None => None,
                    Option::Some((text, q)) => Some((EventModel::AgentToken { text }, q)),
                }
            } else if tag == 3 {
                match dec_str(b, p) {
                    Option::None => None,
                    Option::Some((name, q1)) => match dec_str(b, q1) {
                        Option::None => None,
                        Option::Some((args, q2)) => match dec_str(b, q2) {
                            Option::None => None,
                            Option::Some((result, q3)) => Some(
                                (EventModel::ToolCalled { name, args, result }, q3),
                            ),
                        },
                    },
                }
            } else if tag == 4 {
                match dec_str(b, p) {
                    Option::None => None,
                    Option::Some((file, q1)) => match dec_str(b, q1) {
                        Option::None => None,
                        Option::Some((patch, q2)) => Some(
                            (EventModel::EditApplied { file, patch }, q2),
                        ),
                    },
                }
            } else if tag == 5 {
                match dec_str(b, p) {
                    Option::None => None,
                    Option::Some((text, q)) => Some((EventModel::Error { text }, q)),
                }
            } else {
                None
            }
        },
    }
}

/// Reads `count` events, one after the other.
pub open spec fn dec_events(b: Seq<u8>, pos: int, count: int) -> Option<(Seq<EventModel>, int)>
    decreases count,
{
    if count <= 0 {
        Some((seq![], pos))
    } else {
        match dec_event(b, pos) {
            Option::None => None,
            Option::Some((e, p)) => match dec_events(b, p, count - 1) {
                Option::None => None,
                Option::Some((es, q)) => Some((seq![e] + es, q)),
            },
        }
    }
}

/// Reads a whole session; the input must be consumed exactly.
pub open spec fn dec_session(b: Seq<u8>) -> Option<SessionModel> {
    match dec_str(b, 0) {
        Option::None => None,
        Option::Some((id, p1)) => match dec_u64(b, p1) {
            Option::None => None,
            Option::Some((created_at, p2)) => match dec_str(b, p2) {
                Option::None => None,
                Option::Some((workspace, p3)) => match dec_u64(b, p3) {
                    Option::None => None,
                    Option::Some((count, p4)) => match dec_events(b, p4, count as int) {
                        Option::None => None,
                        Option::Some((events, p5)) => {
                            if p5 == b.len() {
                                Some(SessionModel { id, created_at, workspace, events })
                            } else {
                                None
                            }
                        },
                    },
                },
            },
        },
    }
}

// ---------------------------------------------------------------------------
// Executable encoder
// ---------------------------------------------------------------------------

fn encode_u64(out: &mut Vec<u8>, x: u64)
    ensures
        final(out)@ == old(out)@ + enc_u64(x),
{
    let mut b = u64_to_le_bytes(x);
    out.append(&mut b);
}

fn encode_str(out: &mut Vec<u8>, s: &str)
    ensures
        final(out)@ == old(out)@ + enc_str(s@),
        wf_str(s@),
{
    let mut payload = s.as_bytes_vec();
    let n = payload.len();
    encode_u64(out, n as u64);
    out.append(&mut payload);
}

fn encode_event(out: &mut Vec<u8>, e: &SessionEvent)
    ensures
        final(out)@ == old(out)@ + enc_event(e.model()),
        e.model().wf(),
{
    match e {
        SessionEvent::UserInput(t) => {
            out.push(1u8);
            encode_str(out, t.as_str());
        },
        SessionEvent::AgentToken(t) => {
            out.push(2u8);
            encode_str(out, t.as_str());
        },
        SessionEvent::ToolCalled { name, args, result } => {
            out.push(3u8);
            encode_str(out, name.as_str());
            encode_str(out, args.as_str());
            encode_str(out, result.as_str());
        },
        SessionEvent::EditApplied { file, patch } => {
            out.push(4u8);
            encode_str(out, file.as_str());
            encode_str(out, patch.as_str());
        },
        SessionEvent::Error(t) => {
            out.push(5u8);
            encode_str(out, t.as_str());
        },
    }
    proof {
        assert(out@ =~= old(out)@ + enc_event(e.model()));
    }
}

proof fn lemma_enc_events_push(es: Seq<EventModel>, e: EventModel)
    ensures
        enc_events(es.push(e)) == enc_events(es) + enc_event(e),
    decreases es.len(),
{
    if es.len() == 0 {
        assert(es.push(e)[0] == e);
        assert(es.push(e).drop_first() =~= Seq::<EventModel>::empty());
        assert(enc_events(es.push(e)) == enc_event(e) + enc_events(es.push(e).drop_first()));
        assert(enc_events(es.push(e).drop_first()) == Seq::<u8>::empty());
        assert(enc_events(es) == Seq::<u8>::empty());
        assert(enc_events(es.push(e)) =~= enc_events(es) + enc_event(e));
    } else {
        assert(es.push(e).drop_first() =~= es.drop_first().push(e));
        lemma_enc_events_push(es.drop_first(), e);
        assert(enc_events(es.push(e)) =~= enc_events(es) + enc_event(e));
    }
}

/// Serializes a session.
pub fn encode_session(s: &Session) -> (out: Vec<u8>)
    ensures
        out@ == enc_session(s.model()),
        s.model().wf(),
{
    let mut out: Vec<u8> = Vec::new();
    encode_str(&mut out, s.id.as_str());
    encode_u64(&mut out, s.created_at);
    encode_str(&mut out, s.workspace.as_str());
    let n = s.events.len();
    encode_u64(&mut out, n as u64);
    let ghost header = out@;
    let ghost evs = s.events@.map_values(|e: SessionEvent| e.model());
    let mut i: usize = 0;
    proof {
        assert(evs.take(0) =~= Seq::<EventModel>::empty());
        assert(out@ =~= header + enc_events(evs.take(0)));
    }
    while i < n
        invariant
            n == s.events@.len(),
            evs == s.events@.map_values(|e: SessionEvent| e.model()),
            i <= n,
            out@ == header + enc_events(evs.take(i as int)),
            forall|j: int| 0 <= j < i ==> (#[trigger] evs[j]).wf(),
        decreases n - i,
    {
        encode_event(&mut out, &s.events[i]);
        proof {
            assert(evs.take(i + 1) =~= evs.take(i as int).push(evs[i as int]));
            lemma_enc_events_push(evs.take(i as int), evs[i as int]);
        }
        i += 1;
    }
    proof {
        assert(evs.take(n as int) =~= evs);
        assert(out@ =~= enc_session(s.model()));
    }
    out
}

// ---------------------------------------------------------------------------
// Round trip: decoding an encoding yields the original
// ---------------------------------------------------------------------------

/// The bytes `part` stand at offset `off` of `whole`, which itself stands
/// at offset `pos` of `b`: then `part` stands at `pos + off` of `b`.
proof fn lemma_sub_at(b: Seq<u8>, pos: int, whole: Seq<u8>, off: int, part: Seq<u8>)
    requires
        0 <= pos,
        pos + whole.len() <= b.len(),
        b.subrange(pos, pos + whole.len()) == whole,
        0 <= off,
        off + part.len() <= whole.len(),
        whole.subrange(off, off + part.len()) == part,
    ensures
        b.subrange(pos + off, pos + off + part.len()) == part,
{
    assert forall|i: int| 0 <= i < part.len() implies b[pos + off + i] == part[i] by {
        assert(whole[off + i] == b.subrange(pos, pos + whole.len())[off + i]);
        assert(part[i] == whole.subrange(off, off + part.len())[i]);
    }
    assert(b.subrange(pos + off, pos + off + part.len()) =~= part);
}

proof fn lemma_enc_str_len(s: Seq<char>)
    ensures
        enc_str(s).len() == 8 + encode_utf8(s).len(),
        enc_u64(encode_utf8(s).len() as u64).len() == 8,
{
    lemma_auto_spec_u64_to_from_le_bytes();
}

proof fn lemma_dec_u64_at(b: Seq<u8>, pos: int, x: u64)
    requires
        0 <= pos,
        pos + 8 <= b.len(),
        b.subrange(pos, pos + 8) == enc_u64(x),
    ensures
        dec_u64(b, pos) == Some((x, pos + 8)),
{
    lemma_auto_spec_u64_to_from_le_bytes();
}

proof fn lemma_dec_str_at(b: Seq<u8>, pos: int, s: Seq<char>)
    requires
        wf_str(s),
        0 <= pos,
        pos + enc_str(s).len() <= b.len(),
        b.subrange(pos, pos + enc_str(s).len()) == enc_str(s),
    ensures
        dec_str(b, pos) == Some((s, pos + enc_str(s).len())),
{
    broadcast use encode_utf8_valid_utf8, encode_utf8_decode_utf8;

    lemma_auto_spec_u64_to_from_le_bytes();
    let whole = enc_str(s);
    let payload = encode_utf8(s);
    let n = payload.len() as u64;
    let lenb = enc_u64(n);
    lemma_enc_str_len(s);
    assert(whole.subrange(0, 8) =~= lenb);
    lemma_sub_at(b, pos, whole, 0, lenb);
    lemma_dec_u64_at(b, pos, n);
    let p = pos + 8;
    assert(whole.subrange(8, whole.len() as int) =~= payload);
    lemma_sub_at(b, pos, whole, 8, payload);
    assert(b.subrange(p, p + n as int) == payload);
}

proof fn lemma_dec_event_at(b: Seq<u8>, pos: int, e: EventModel)
    requires
        e.wf(),
        0 <= pos,
        pos + enc_event(e).len() <= b.len(),
        b.subrange(pos, pos + enc_event(e).len()) == enc_event(e),
    ensures
        dec_event(b, pos) == Some((e, pos + enc_event(e).len())),
{
    let whole = enc_event(e);
    assert(b[pos] == b.subrange(pos, pos + whole.len())[0]);
    assert(dec_u8(b, pos) == Some((event_tag(e), pos + 1)));
    let p = pos + 1;
    match e {
        EventModel::UserInput { text } => {
            lemma_enc_str_len(text);
            assert(whole.subrange(1, 1 + enc_str(text).len() as int) =~= enc_str(text));
            lemma_sub_at(b, pos, whole, 1, enc_str(text));
            lemma_dec_str_at(b, p, text);
        },
        EventModel::AgentToken { text } => {
            lemma_enc_str_len(text);
            assert(whole.subrange(1, 1 + enc_str(text).len() as int) =~= enc_str(text));
            lemma_sub_at(b, pos, whole, 1, enc_str(text));
            lemma_dec_str_at(b, p, text);
        },
        EventModel::ToolCalled { name, args, result } => {
            lemma_enc_str_len(name);
            lemma_enc_str_len(args);
            lemma_enc_str_len(result);
            let l1 = enc_str(name).len() as int;
            let l2 = enc_str(args).len() as int;
            let l3 = enc_str(result).len() as int;
            assert(whole.subrange(1, 1 + l1) =~= enc_str(name));
            lemma_sub_at(b, pos, whole, 1, enc_str(name));
            lemma_dec_str_at(b, p, name);
            assert(whole.subrange(1 + l1, 1 + l1 + l2) =~= enc_str(args));
            lemma_sub_at(b, pos, whole, 1 + l1, enc_str(args));
            lemma_dec_str_at(b, p + l1, args);
            assert(whole.subrange(1 + l1 + l2, 1 + l1 + l2 + l3) =~= enc_str(result));
            lemma_sub_at(b, pos, whole, 1 + l1 + l2, enc_str(result));
            lemma_dec_str_at(b, p + l1 + l2, result);
        },
        EventModel::EditApplied { file, patch } => {
            lemma_enc_str_len(file);
            lemma_enc_str_len(patch);
            let l1 = enc_str(file).len() as int;
            let l2 = enc_str(patch).len() as int;
            assert(whole.subrange(1, 1 + l1) =~= enc_str(file));
            lemma_sub_at(b, pos, whole, 1, enc_str(file));
            lemma_dec_str_at(b, p, file);
            assert(whole.subrange(1 + l1, 1 + l1 + l2) =~= enc_str(patch));
            lemma_sub_at(b, pos, whole, 1 + l1, enc_str(patch));
            lemma_dec_str_at(b, p + l1, patch);
        },
        EventModel::Error { text } => {
            lemma_enc_str_len(text);
            assert(whole.subrange(1, 1 + enc_str(text).len() as int) =~= enc_str(text));
            lemma_sub_at(b, pos, whole, 1, enc_str(text));
            lemma_dec_str_at(b, p, text);
        },
    }
}

proof fn lemma_dec_events_at(b: Seq<u8>, pos: int, es: Seq<EventModel>)
    requires
        forall|i: int| 0 <= i < es.len() ==> (#[trigger] es[i]).wf(),
        0 <= pos,
        pos + enc_events(es).len() <= b.len(),
        b.subrange(pos, pos + enc_events(es).len()) == enc_events(es),
    ensures
        dec_events(b, pos, es.len() as int) == Some((es, pos + enc_events(es).len())),
    decreases es.len(),
{
    if es.len() == 0 {
        assert(dec_events(b, pos, 0) == Some((Seq::<EventModel>::empty(), pos)));
        assert(es =~= Seq::<EventModel>::empty());
    } else {
        let e = es[0];
        let rest = es.drop_first();
        let whole = enc_events(es);
        let l1 = enc_event(e).len() as int;
        let l2 = enc_events(rest).len() as int;
        assert(whole == enc_event(e) + enc_events(rest));
        assert(whole.subrange(0, l1) =~= enc_event(e));
        lemma_sub_at(b, pos, whole, 0, enc_event(e));
        lemma_dec_event_at(b, pos, e);
        assert(whole.subrange(l1, l1 + l2) =~= enc_events(rest));
        lemma_sub_at(b, pos, whole, l1, enc_events(rest));
        lemma_dec_events_at(b, pos + l1, rest);
        assert(seq![e] + rest =~= es);
    }
}

/// Law: decoding an encoded session yields exactly the original content,
/// events in their original order included.
pub proof fn lemma_session_codec_round_trip(m: SessionModel)
    requires
        m.wf(),
    ensures
        dec_session(enc_session(m)) == Some(m),
{
    lemma_auto_spec_u64_to_from_le_bytes();
    lemma_enc_str_len(m.id);
    lemma_enc_str_len(m.workspace);
    let b = enc_session(m);
    let l1 = enc_str(m.id).len() as int;
    let l2 = 8int;
    let l3 = enc_str(m.workspace).len() as int;
    let l4 = 8int;
    let l5 = enc_events(m.events).len() as int;
    assert(b.len() == l1 + l2 + l3 + l4 + l5);
    assert(b.subrange(0, b.len() as int) =~= b);
    assert(b.subrange(0, l1) =~= enc_str(m.id));
    lemma_sub_at(b, 0, b, 0, enc_str(m.id));
    lemma_dec_str_at(b, 0, m.id);
    assert(b.subrange(l1, l1 + l2) =~= enc_u64(m.created_at));
    lemma_dec_u64_at(b, l1, m.created_at);
    assert(b.subrange(l1 + l2, l1 + l2 + l3) =~= enc_str(m.workspace));
    lemma_dec_str_at(b, l1 + l2, m.workspace);
    assert(b.subrange(l1 + l2 + l3, l1 + l2 + l3 + l4) =~= enc_u64(m.events.len() as u64));
    lemma_dec_u64_at(b, l1 + l2 + l3, m.events.len() as u64);
    assert(b.subrange(l1 + l2 + l3 + l4, l1 + l2 + l3 + l4 + l5) =~= enc_events(m.events));
    lemma_dec_events_at(b, l1 + l2 + l3 + l4, m.events);
    assert(m.events.len() as u64 as int == m.events.len() as int);
}

// ---------------------------------------------------------------------------
// Executable decoder
// ---------------------------------------------------------------------------

#[verifier::external_type_specification]
#[verifier::external_body]
pub struct ExFromUtf8Error(std::string::FromUtf8Error);

/// Relies on `String::from_utf8` of std: it succeeds exactly on valid UTF-8
/// input, and then yields the decoded character sequence.
pub assume_specification[ String::from_utf8 ](v: Vec<u8>) -> (r: Result<
    String,
    std::string::FromUtf8Error,
>)
    ensures
        r is Ok <==> valid_utf8(v@),
        r is Ok ==> r->Ok_0@ == decode_utf8(v@),
;

fn decode_u64(b: &Vec<u8>, pos: usize) -> (r: Option<(u64, usize)>)
    requires
        pos <= b@.len(),
    ensures
        r is Some <==> dec_u64(b@, pos as int) is Some,
        r is Some ==> Some((r.unwrap().0, r.unwrap().1 as int)) == dec_u64(b@, pos as int),
        r is Some ==> pos < r.unwrap().1 <= b@.len(),
{
    let len = b.len();
    if len - pos < 8 {
        return None;
    }
    let s = slice_subrange(b.as_slice(), pos, pos + 8);
    let x = u64_from_le_bytes(s);
    Some((x, pos + 8))
}

fn decode_str(b: &Vec<u8>, pos: usize) -> (r: Option<(String, usize)>)
    requires
        pos <= b@.len(),
    ensures
        r is Some <==> dec_str(b@, pos as int) is Some,
        r is Some ==> r.unwrap().0@ == dec_str(b@, pos as int).unwrap().0,
        r is Some ==> r.unwrap().1 as int == dec_str(b@, pos as int).unwrap().1,
        r is Some ==> pos < r.unwrap().1 <= b@.len(),
{
    let (n, p) = match decode_u64(b, pos) {
        Option::Some(x) => x,
        Option::None => {
            return None;
        },
    };
    let rem = b.len() - p;
    if n > rem as u64 {
        return None;
    }
    let n_us = n as usize;
    let payload = slice_to_vec(slice_subrange(b.as_slice(), p, p + n_us));
    proof {
        assert(payload@ == b@.subrange(p as int, p as int + n as int));
    }
    match String::from_utf8(payload) {
        Result::Ok(s) => Some((s, p + n_us)),
        Result::Err(_) => None,
    }
}

fn decode_event(b: &Vec<u8>, pos: usize) -> (r: Option<(SessionEvent, usize)>)
    requires
        pos <= b@.len(),
    ensures
        r is Some <==> dec_event(b@, pos as int) is Some,
        r is Some ==> Some((r.unwrap().0.model(), r.unwrap().1 as int)) == dec_event(
            b@,
            pos as int,
        ),
        r is Some ==> pos < r.unwrap().1 <= b@.len(),
{
    if pos >= b.len() {
        return None;
    }
    let tag = b[pos];
    let p = pos + 1;
    if tag == 1 {
        match decode_str(b, p) {
            Option::Some((text, q)) => Some((SessionEvent::UserInput(text), q)),
            Option::None => None,
        }
    } else if tag == 2 {
        match decode_str(b, p) {
            Option::Some((text, q)) => Some((SessionEvent::AgentToken(text), q)),
            Option::None => None,
        }
    } else if tag == 3 {
        match decode_str(b, p) {
            Option::Some((name, q1)) => match decode_str(b, q1) {
                Option::Some((args, q2)) => match decode_str(b, q2) {
                    Option::Some((result, q3)) => Some(
                        (SessionEvent::ToolCalled { name, args, result }, q3),
                    ),
                    Option::None => None,
                },
                Option::None => None,
            },
            Option::None => None,
        }
    } else if tag == 4 {
        match decode_str(b, p) {
            Option::Some((file, q1)) => match decode_str(b, q1) {
                Option::Some((patch, q2)) => Some((SessionEvent::EditApplied { file, patch }, q2)),
                Option::None => None,
            },
            Option::None => None,
        }
    } else if tag == 5 {
        match decode_str(b, p) {
            Option::Some((text, q)) => Some((SessionEvent::Error(text), q)),
            Option::None => None,
        }
    } else {
        None
    }
}

/// Prefixes the already-decoded events onto the result of decoding the rest.
spec fn prepend_events(acc: Seq<EventModel>, r: Option<(Seq<EventModel>, int)>) -> Option<
    (Seq<EventModel>, int),
> {
    match r {
        Option::None => None,
        Option::Some((es, q)) => Some((acc + es, q)),
    }
}

fn decode_events(b: &Vec<u8>, pos: usize, count: u64) -> (r: Option<(Vec<SessionEvent>, usize)>)
    requires
        pos <= b@.len(),
    ensures
        r is Some <==> dec_events(b@, pos as int, count as int) is Some,
        r is Some ==> r.unwrap().0@.map_values(|e: SessionEvent| e.model()) == dec_events(
            b@,
            pos as int,
            count as int,
        ).unwrap().0,
        r is Some ==> r.unwrap().1 as int == dec_events(b@, pos as int, count as int).unwrap().1,
        r is Some ==> pos <= r.unwrap().1 <= b@.len(),
{
    let mut acc: Vec<SessionEvent> = Vec::new();
    let mut p = pos;
    let mut i: u64 = 0;
    proof {
        assert(acc@.map_values(|e: SessionEvent| e.model()) =~= Seq::<EventModel>::empty());
        assert(prepend_events(
            acc@.map_values(|e: SessionEvent| e.model()),
            dec_events(b@, p as int, (count - i) as int),
        ) == dec_events(b@, pos as int, count as int)) by {
            match dec_events(b@, pos as int, count as int) {
                Option::None => {},
                Option::Some((es, q)) => {
                    assert(Seq::<EventModel>::empty() + es =~= es);
                },
            }
        }
    }
    while i < count
        invariant
            i <= count,
            pos <= p <= b@.len(),
            prepend_events(
                acc@.map_values(|e: SessionEvent| e.model()),
                dec_events(b@, p as int, (count - i) as int),
            ) == dec_events(b@, pos as int, count as int),
        decreases count - i,
    {
        let ghost acc_old = acc@.map_values(|e: SessionEvent| e.model());
        match decode_event(b, p) {
            Option::Some((e, q)) => {
                acc.push(e);
                proof {
                    assert(acc@.map_values(|e: SessionEvent| e.model()) =~= acc_old.push(
                        e.model(),
                    ));
                    let rest = dec_events(b@, q as int, (count - i - 1) as int);
                    assert(dec_events(b@, p as int, (count - i) as int) == (match rest {
                        Option::None => None::<(Seq<EventModel>, int)>,
                        Option::Some((es, r2)) => Some((seq![e.model()] + es, r2)),
                    }));
                    match rest {
                        Option::None => {},
                        Option::Some((es, r2)) => {
                            assert(acc_old + (seq![e.model()] + es) =~= acc_old.push(e.model())
                                + es);
                        },
                    }
                }
                p = q;
                i = i + 1;
            },
            Option::None => {
                return None;
            },
        }
    }
    proof {
        assert(dec_events(b@, p as int, 0) == Some((Seq::<EventModel>::empty(), p as int)));
        assert(acc@.map_values(|e: SessionEvent| e.model()) + Seq::<EventModel>::empty()
            =~= acc@.map_values(|e: SessionEvent| e.model()));
    }
    Some((acc, p))
}

/// Deserializes a session; `None` on any malformed or truncated input.
pub fn decode_session(b: &Vec<u8>) -> (r: Option<Session>)
    ensures
        r is Some <==> dec_session(b@) is Some,
        r is Some ==> Some(r.unwrap().model()) == dec_session(b@),
{
    let (id, p1) = match decode_str(b, 0) {
        Option::Some(x) => x,
        Option::None => {
            return None;
        },
    };
    let (created_at, p2) = match decode_u64(b, p1) {
        Option::Some(x) => x,
        Option::None => {
            return None;
        },
    };
    let (workspace, p3) = match decode_str(b, p2) {
        Option::Some(x) => x,
        Option::None => {
            return None;
        },
    };
    let (count, p4) = match decode_u64(b, p3) {
        Option::Some(x) => x,
        Option::None => {
            return None;
        },
    };
    let (events, p5) = match decode_events(b, p4, count) {
        Option::Some(x) => x,
        Option::None => {
            return None;
        },
    };
    if p5 != b.len() {
        return None;
    }
    Some(Session { id, created_at, workspace, events })
}

// ---------------------------------------------------------------------------
// The store
// ---------------------------------------------------------------------------

/// Keeps the encoded sessions of one workspace, keyed by session id. The
/// store itself is in-memory; a caller that wants durability writes each
/// entry's bytes out and reads them back into a fresh store.
pub struct SessionStore {
    pub workspace: String,
    pub blobs: Vec<(String, Vec<u8>)>,
}

/// The bytes stored under `id`: the first entry with that id wins.
pub open spec fn lookup(blobs: Seq<(String, Vec<u8>)>, id: Seq<char>) -> Option<Seq<u8>>
    decreases blobs.len(),
{
    if blobs.len() == 0 {
        None
    } else if blobs[0].0@ == id {
        Some(blobs[0].1@)
    } else {
        lookup(blobs.drop_first(), id)
    }
}

/// When the first `i` entries miss, the lookup is decided by the rest.
proof fn lemma_lookup_skip(blobs: Seq<(String, Vec<u8>)>, id: Seq<char>, i: int)
    requires
        0 <= i <= blobs.len(),
        forall|j: int| 0 <= j < i ==> (#[trigger] blobs[j]).0@ != id,
    ensures
        lookup(blobs, id) == lookup(blobs.skip(i), id),
    decreases i,
{
    if i == 0 {
        assert(blobs.skip(0) =~= blobs);
    } else {
        lemma_lookup_skip(blobs, id, i - 1);
        let t = blobs.skip(i - 1);
        assert(t[0] == blobs[i - 1]);
        assert(t.drop_first() =~= blobs.skip(i));
    }
}

/// Replacing the first entry that carries `id` changes the lookup of `id`
/// alone.
proof fn lemma_lookup_update(
    blobs: Seq<(String, Vec<u8>)>,
    i: int,
    entry: (String, Vec<u8>),
    id: Seq<char>,
)
    requires
        0 <= i < blobs.len(),
        forall|j: int| 0 <= j < i ==> (#[trigger] blobs[j]).0@ != id,
        blobs[i].0@ == id,
        entry.0@ == id,
    ensures
        lookup(blobs.update(i, entry), id) == Some(entry.1@),
        forall|other: Seq<char>|
            other != id ==> lookup(blobs.update(i, entry), other) == lookup(blobs, other),
    decreases i,
{
    let updated = blobs.update(i, entry);
    if i == 0 {
        assert(updated[0] == entry);
        assert forall|other: Seq<char>| other != id implies lookup(updated, other) == lookup(
            blobs,
            other,
        ) by {
            assert(updated.drop_first() =~= blobs.drop_first());
        }
    } else {
        assert(updated[0] == blobs[0]);
        assert(updated.drop_first() =~= blobs.drop_first().update(i - 1, entry));
        lemma_lookup_update(blobs.drop_first(), i - 1, entry, id);
        assert forall|j: int| 0 <= j < i - 1 implies (#[trigger] blobs.drop_first()[j]).0@
            != id by {
            assert(blobs.drop_first()[j] == blobs[j + 1]);
        }
        assert(lookup(updated, id) == Some(entry.1@));
        assert forall|other: Seq<char>| other != id implies lookup(updated, other) == lookup(
            blobs,
            other,
        ) by {
            assert(lookup(updated.drop_first(), other) == lookup(blobs.drop_first(), other));
        }
    }
}

/// Appending an entry with a fresh id changes the lookup of that id alone.
proof fn lemma_lookup_push(blobs: Seq<(String, Vec<u8>)>, entry: (String, Vec<u8>), id: Seq<char>)
    requires
        forall|j: int| 0 <= j < blobs.len() ==> (#[trigger] blobs[j]).0@ != id,
        entry.0@ == id,
    ensures
        lookup(blobs.push(entry), id) == Some(entry.1@),
        forall|other: Seq<char>|
            other != id ==> lookup(blobs.push(entry), other) == lookup(blobs, other),
    decreases blobs.len(),
{
    let pushed = blobs.push(entry);
    if blobs.len() == 0 {
        assert(pushed[0] == entry);
        assert forall|other: Seq<char>| other != id implies lookup(pushed, other) == lookup(
            blobs,
            other,
        ) by {
            assert(pushed.len() == 1);
            assert(pushed[0].0@ == id);
            assert(pushed.drop_first() =~= Seq::<(String, Vec<u8>)>::empty());
            assert(lookup(pushed.drop_first(), other) == None::<Seq<u8>>);
            assert(lookup(blobs, other) == None::<Seq<u8>>);
            assert(lookup(pushed, other) == None::<Seq<u8>>);
        }
    } else {
        assert(pushed[0] == blobs[0]);
        assert(pushed.drop_first() =~= blobs.drop_first().push(entry));
        assert forall|j: int| 0 <= j < blobs.drop_first().len() implies (
        #[trigger] blobs.drop_first()[j]).0@ != id by {
            assert(blobs.drop_first()[j] == blobs[j + 1]);
        }
        lemma_lookup_push(blobs.drop_first(), entry, id);
        assert forall|other: Seq<char>| other != id implies lookup(pushed, other) == lookup(
            blobs,
            other,
        ) by {
            assert(lookup(pushed.drop_first(), other) == lookup(blobs.drop_first(), other));
        }
    }
}

/// The metadata of one decoded session.
pub open spec fn meta_of(m: SessionModel) -> SessionMetaModel {
    SessionMetaModel {
        id: m.id,
        created_at: m.created_at,
        event_count: m.events.len() as int,
        workspace: m.workspace,
    }
}

/// The metadata of every decodable blob, in storage order.
pub open spec fn metas_of(blobs: Seq<(String, Vec<u8>)>) -> Seq<SessionMetaModel>
    decreases blobs.len(),
{
    if blobs.len() == 0 {
        seq![]
    } else {
        (match dec_session(blobs[0].1@) {
            Option::None => seq![],
            Option::Some(m) => seq![meta_of(m)],
        }) + metas_of(blobs.drop_first())
    }
}

proof fn lemma_metas_of_push(blobs: Seq<(String, Vec<u8>)>, entry: (String, Vec<u8>))
    ensures
        metas_of(blobs.push(entry)) == metas_of(blobs) + (match dec_session(entry.1@) {
            Option::None => seq![],
            Option::Some(m) => seq![meta_of(m)],
        }),
    decreases blobs.len(),
{
    let tail = match dec_session(entry.1@) {
        Option::None => seq![],
        Option::Some(m) => seq![meta_of(m)],
    };
    if blobs.len() == 0 {
        assert(blobs.push(entry)[0] == entry);
        assert(blobs.push(entry).drop_first() =~= Seq::<(String, Vec<u8>)>::empty());
        assert(metas_of(Seq::<(String, Vec<u8>)>::empty()) == Seq::<SessionMetaModel>::empty());
        assert(metas_of(blobs) == Seq::<SessionMetaModel>::empty());
        assert(metas_of(blobs.push(entry)) =~= metas_of(blobs) + tail);
    } else {
        assert(blobs.push(entry)[0] == blobs[0]);
        assert(blobs.push(entry).drop_first() =~= blobs.drop_first().push(entry));
        lemma_metas_of_push(blobs.drop_first(), entry);
        assert(metas_of(blobs.push(entry)) =~= metas_of(blobs) + tail);
    }
}

/// Newest first: the creation times never increase along the list.
pub open spec fn sorted_desc(ms: Seq<SessionMeta>) -> bool {
    forall|i: int, j: int| 0 <= i < j < ms.len() ==> ms[i].created_at >= ms[j].created_at
}

/// Sorts metadata by creation time, newest first, keeping exactly the same
/// entries.
pub fn sort_metas(metas: Vec<SessionMeta>) -> (r: Vec<SessionMeta>)
    ensures
        sorted_desc(r@),
        r@.map_values(|m: SessionMeta| m.model()).to_multiset() == metas@.map_values(
            |m: SessionMeta| m.model(),
        ).to_multiset(),
{
    broadcast use vstd::seq_lib::group_to_multiset_ensures;
    broadcast use vstd::multiset::group_multiset_axioms;

    let ghost all = metas@.map_values(|m: SessionMeta| m.model());
    let mut rest = metas;
    let mut out: Vec<SessionMeta> = Vec::new();
    proof {
        assert(out@.map_values(|m: SessionMeta| m.model()) =~= Seq::<SessionMetaModel>::empty());
        assert(out@.map_values(|m: SessionMeta| m.model()).to_multiset().add(
            rest@.map_values(|m: SessionMeta| m.model()).to_multiset(),
        ) =~= all.to_multiset());
    }
    while rest.len() > 0
        invariant
            sorted_desc(out@),
            forall|k: int, x: int|
                0 <= k < out@.len() && 0 <= x < rest@.len() ==> (#[trigger] out@[k]).created_at
                    >= (#[trigger] rest@[x]).created_at,
            out@.map_values(|m: SessionMeta| m.model()).to_multiset().add(
                rest@.map_values(|m: SessionMeta| m.model()).to_multiset(),
            ) == all.to_multiset(),
        decreases rest@.len(),
    {
        let n = rest.len();
        let mut best: usize = 0;
        let mut bi: usize = 1;
        while bi < n
            invariant
                n == rest@.len(),
                best < bi <= n,
                forall|j: int| 0 <= j < bi ==> rest@[best as int].created_at >= (
                #[trigger] rest@[j]).created_at,
            decreases n - bi,
        {
            if rest[bi].created_at > rest[best].created_at {
                best = bi;
            }
            bi += 1;
        }
        let ghost out_old = out@;
        let ghost rest_old = rest@;
        let ghost out_ms = out@.map_values(|m: SessionMeta| m.model());
        let ghost rest_ms = rest@.map_values(|m: SessionMeta| m.model());
        let picked = rest.remove(best);
        out.push(picked);
        proof {
            assert(rest@ == rest_old.remove(best as int));
            assert forall|ii: int| 0 <= ii < rest@.len() implies rest@.map_values(
                |m: SessionMeta| m.model(),
            )[ii] == rest_ms.remove(best as int)[ii] by {
                if ii < best {
                    assert(rest@[ii] == rest_old[ii]);
                    assert(rest_ms.remove(best as int)[ii] == rest_ms[ii]);
                } else {
                    assert(rest@[ii] == rest_old[ii + 1]);
                    assert(rest_ms.remove(best as int)[ii] == rest_ms[ii + 1]);
                }
            }
            assert(rest@.map_values(|m: SessionMeta| m.model()) =~= rest_ms.remove(best as int));
            assert(out@.map_values(|m: SessionMeta| m.model()) =~= out_ms.push(picked.model()));
            assert(rest_ms[best as int] == picked.model());
            assert(rest_ms.len() == rest_old.len());
            vstd::seq_lib::to_multiset_remove(rest_ms, best as int);
            vstd::seq_lib::to_multiset_build(out_ms, picked.model());
            assert(rest_ms.contains(picked.model()));
            vstd::seq_lib::to_multiset_contains(rest_ms, picked.model());
            assert(rest_ms.to_multiset().count(picked.model()) > 0);
            assert(out@.map_values(|m: SessionMeta| m.model()).to_multiset().add(
                rest@.map_values(|m: SessionMeta| m.model()).to_multiset(),
            ) =~= all.to_multiset());
            assert forall|k: int, x: int|
                0 <= k < out@.len() && 0 <= x < rest@.len() implies (
            #[trigger] out@[k]).created_at >= (#[trigger] rest@[x]).created_at by {
                if x < best {
                    assert(rest@[x] == rest_old[x]);
                } else {
                    assert(rest@[x] == rest_old[x + 1]);
                }
                if k < out@.len() - 1 {
                    assert(out@[k] == out_old[k]);
                } else {
                    assert(out@[k] == picked);
                    assert(picked == rest_old[best as int]);
                }
            }
            assert(sorted_desc(out@)) by {
                assert forall|i: int, j: int|
                    0 <= i < j < out@.len() implies out@[i].created_at >= out@[j].created_at by {
                    if j < out@.len() - 1 {
                        assert(out@[i] == out_old[i] && out@[j] == out_old[j]);
                    } else {
                        assert(out@[j] == picked);
                        assert(out@[i] == out_old[i]);
                        assert(out_old[i].created_at >= rest_old[best as int].created_at);
                    }
                }
            }
        }
    }
    proof {
        assert(rest@.map_values(|m: SessionMeta| m.model()).to_multiset() =~= Multiset::<
            SessionMetaModel,
        >::empty());
        assert(out@.map_values(|m: SessionMeta| m.model()).to_multiset() =~= all.to_multiset());
    }
    out
}

impl SessionStore {
    /// A fresh, empty store for one workspace.
    pub fn new(workspace: &str) -> (s: SessionStore)
        ensures
            s.workspace@ == workspace@,
            s.blobs@.len() == 0,
    {
        SessionStore { workspace: String::from_str(workspace), blobs: Vec::new() }
    }

    /// Persists the session under its id: afterwards the id maps to exactly
    /// the session's encoding, and every other id maps to what it did before.
    pub fn save(&mut self, session: &Session)
        ensures
            lookup(final(self).blobs@, session.id@) == Some(enc_session(session.model())),
            session.model().wf(),
            forall|other: Seq<char>|
                other != session.id@ ==> lookup(final(self).blobs@, other) == lookup(
                    old(self).blobs@,
                    other,
                ),
            final(self).workspace == old(self).workspace,
    {
        let enc = encode_session(session);
        let n = self.blobs.len();
        let mut i: usize = 0;
        while i < n
            invariant
                n == self.blobs@.len(),
                self.blobs@ == old(self).blobs@,
                self.workspace == old(self).workspace,
                i <= n,
                forall|j: int| 0 <= j < i ==> (#[trigger] self.blobs@[j]).0@ != session.id@,
                enc@ == enc_session(session.model()),
                session.model().wf(),
            decreases n - i,
        {
            if str_eq(self.blobs[i].0.as_str(), session.id.as_str()) {
                let entry = (session.id.clone(), enc);
                proof {
                    lemma_lookup_update(self.blobs@, i as int, entry, session.id@);
                }
                self.blobs[i] = entry;
                return ;
            }
            i += 1;
        }
        let entry = (session.id.clone(), enc);
        proof {
            lemma_lookup_push(self.blobs@, entry, session.id@);
        }
        self.blobs.push(entry);
    }

    /// Loads and decodes the session stored under `id`.
    pub fn load(&self, id: &str) -> (r: Option<Session>)
        ensures
            lookup(self.blobs@, id@) is None ==> r is None,
            lookup(self.blobs@, id@) is Some ==> {
                let blob = lookup(self.blobs@, id@).unwrap();
                &&& (r is Some <==> dec_session(blob) is Some)
                &&& (r is Some ==> Some(r.unwrap().model()) == dec_session(blob))
            },
    {
        let n = self.blobs.len();
        let mut i: usize = 0;
        while i < n
            invariant
                n == self.blobs@.len(),
                i <= n,
                forall|j: int| 0 <= j < i ==> (#[trigger] self.blobs@[j]).0@ != id@,
            decreases n - i,
        {
            if str_eq(self.blobs[i].0.as_str(), id) {
                proof {
                    lemma_lookup_skip(self.blobs@, id@, i as int);
                    assert(self.blobs@.skip(i as int)[0] == self.blobs@[i as int]);
                }
                return decode_session(&self.blobs[i].1);
            }
            i += 1;
        }
        proof {
            lemma_lookup_skip(self.blobs@, id@, n as int);
            assert(self.blobs@.skip(n as int) =~= Seq::<(String, Vec<u8>)>::empty());
        }
        None
    }

    /// Lists metadata of every decodable stored session, newest first.
    pub fn list(&self) -> (r: Vec<SessionMeta>)
        ensures
            sorted_desc(r@),
            r@.map_values(|m: SessionMeta| m.model()).to_multiset() == metas_of(
                self.blobs@,
            ).to_multiset(),
    {
        let n = self.blobs.len();
        let mut metas: Vec<SessionMeta> = Vec::new();
        let mut i: usize = 0;
        proof {
            assert(self.blobs@.take(0) =~= Seq::<(String, Vec<u8>)>::empty());
            assert(metas@.map_values(|m: SessionMeta| m.model()) =~= metas_of(
                self.blobs@.take(0),
            ));
        }
        while i < n
            invariant
                n == self.blobs@.len(),
                i <= n,
                metas@.map_values(|m: SessionMeta| m.model()) == metas_of(
                    self.blobs@.take(i as int),
                ),
            decreases n - i,
        {
            let ghost metas_old = metas@.map_values(|m: SessionMeta| m.model());
            match decode_session(&self.blobs[i].1) {
                Option::Some(session) => {
                    let meta = SessionMeta {
                        id: session.id,
                        created_at: session.created_at,
                        event_count: session.events.len(),
                        workspace: session.workspace,
                    };
                    proof {
                        assert(meta.model() == meta_of(
                            dec_session(self.blobs@[i as int].1@).unwrap(),
                        ));
                    }
                    metas.push(meta);
                    proof {
                        assert(metas@.map_values(|m: SessionMeta| m.model()) =~= metas_old.push(
                            meta.model(),
                        ));
                    }
                },
                Option::None => {},
            }
            proof {
                lemma_metas_of_push(self.blobs@.take(i as int), self.blobs@[i as int]);
                assert(self.blobs@.take(i + 1) =~= self.blobs@.take(i as int).push(
                    self.blobs@[i as int],
                ));
                if dec_session(self.blobs@[i as int].1@) is Some {
                    assert(metas@.map_values(|m: SessionMeta| m.model()) =~= metas_of(
                        self.blobs@.take(i + 1),
                    ));
                } else {
                    assert(metas@.map_values(|m: SessionMeta| m.model()) =~= metas_of(
                        self.blobs@.take(i + 1),
                    ));
                }
            }
            i += 1;
        }
        proof {
            assert(self.blobs@.take(n as int) =~= self.blobs@);
        }
        sort_metas(metas)
    }

    /// Replays the events stored under `id`, in their original order; a
    /// missing or undecodable session degrades to the empty event sequence.
    pub fn replay(&self, id: &str) -> (r: Vec<SessionEvent>)
        ensures
            ({
                let found = lookup(self.blobs@, id@);
                if found is Some && dec_session(found.unwrap()) is Some {
                    r@.map_values(|e: SessionEvent| e.model()) == dec_session(
                        found.unwrap(),
                    ).unwrap().events
                } else {
                    r@.len() == 0
                }
            }),
    {
        match self.load(id) {
            Option::Some(session) => session.events,
            Option::None => Vec::new(),
        }
    }
}

} // verus!
