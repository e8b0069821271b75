//! The message envelope and its wire codec.
//!
//! An envelope is `{src, dest, body}`. The body is an untagged union of four
//! categories; decoding tries them in a fixed priority order — Workload,
//! then Init, then Error, then Application — and accepts the first
//! structurally compatible match. A payload that structurally aliases a
//! built-in category is therefore routed to the built-in one; that risk is
//! inherited from the wire protocol and deliberately not resolved here.

use vstd::prelude::*;

use crate::json::Json;
use crate::json::JsonV;
use crate::json::jser;
use crate::json::jparse;
use crate::json::json_view;
use crate::{ErrorCode, Id};

verus! {

/// Message identifier, unique per originating node.
pub type MsgId = u64;

/// Key of a key-value workload: an arbitrary JSON value.
pub type Key = Json;

/// Value of a key-value workload: an arbitrary JSON value.
pub type Val = Json;

/// A message envelope: source, destination and body.
#[derive(Debug, PartialEq, Eq)]
pub struct Msg {
    pub src: Id,
    pub dest: Id,
    pub body: Body,
}

/// The body of an envelope: one of four categories, untagged on the wire.
#[derive(Debug, PartialEq, Eq)]
pub enum Body {
    /// An application-defined node-to-node payload, opaque to the library.
    Application(Json),
    Error(Error),
    Init(Init),
    Workload(Workload),
}

/// The workload families this library knows how to decode.
#[derive(Debug, PartialEq, Eq)]
pub enum Workload {
    Echo(Echo),
    LinKv(LinKv),
    PnCounter(PnCounter),
}

/// Selects which workload family the decoder should try.
#[derive(Clone, Copy, Debug, PartialEq, Eq)]
pub enum WorkloadKind {
    Echo,
    LinKv,
    PnCounter,
}

/// Echo workload messages.
#[derive(Debug, PartialEq, Eq)]
pub enum Echo {
    Echo { msg_id: MsgId, echo: Val },
    EchoOk { in_reply_to: MsgId, msg_id: Option<MsgId>, echo: Val },
}

/// The protocol error body.
#[derive(Debug, PartialEq, Eq)]
pub struct Error {
    pub in_reply_to: MsgId,
    pub code: ErrorCode,
    pub text: String,
}

/// Node initialization messages: the handshake request and its reply.
#[derive(Debug, PartialEq, Eq)]
pub enum Init {
    Init { msg_id: MsgId, node_id: Id, node_ids: Vec<Id> },
    InitOk { in_reply_to: MsgId, msg_id: MsgId },
}

/// Linearizable key-value workload messages.
#[derive(Debug, PartialEq, Eq)]
pub enum LinKv {
    Cas { msg_id: MsgId, key: Key, from: Val, to: Val },
    CasOk { in_reply_to: MsgId, msg_id: Option<MsgId> },
    Read { msg_id: MsgId, key: Key },
    ReadOk { in_reply_to: MsgId, msg_id: Option<MsgId>, value: Val },
    Write { msg_id: MsgId, key: Key, value: Val },
    WriteOk { in_reply_to: MsgId },
}

/// Counter workload messages.
#[derive(Debug, PartialEq, Eq)]
pub enum PnCounter {
    Add { msg_id: MsgId, delta: i64 },
    Read { msg_id: MsgId },
    ReadOk { in_reply_to: MsgId, msg_id: Option<MsgId>, value: i64 },
}

// ---------------------------------------------------------------------------
// Mathematical models
// ---------------------------------------------------------------------------

/// Model of an envelope.
pub struct MsgV {
    pub src: Seq<char>,
    pub dest: Seq<char>,
    pub body: BodyV,
}

/// Model of a body.
pub enum BodyV {
    Application(JsonV),
    Error(ErrorV),
    Init(InitV),
    Workload(WorkloadV),
}

/// Model of a workload body.
pub enum WorkloadV {
    Echo(EchoV),
    LinKv(LinKvV),
    PnCounter(PnCounterV),
}

/// Model of an echo body.
pub enum EchoV {
    Echo { msg_id: MsgId, echo: JsonV },
    EchoOk { in_reply_to: MsgId, msg_id: Option<MsgId>, echo: JsonV },
}

/// Model of an error body.
pub struct ErrorV {
    pub in_reply_to: MsgId,
    pub code: ErrorCode,
    pub text: Seq<char>,
}

/// Model of an initialization body.
pub enum InitV {
    Init { msg_id: MsgId, node_id: Seq<char>, node_ids: Seq<Seq<char>> },
    InitOk { in_reply_to: MsgId, msg_id: MsgId },
}

/// Model of a key-value body.
pub enum LinKvV {
    Cas { msg_id: MsgId, key: JsonV, from: JsonV, to: JsonV },
    CasOk { in_reply_to: MsgId, msg_id: Option<MsgId> },
    Read { msg_id: MsgId, key: JsonV },
    ReadOk { in_reply_to: MsgId, msg_id: Option<MsgId>, value: JsonV },
    Write { msg_id: MsgId, key: JsonV, value: JsonV },
    WriteOk { in_reply_to: MsgId },
}

/// Model of a counter body.
pub enum PnCounterV {
    Add { msg_id: MsgId, delta: i64 },
    Read { msg_id: MsgId },
    ReadOk { in_reply_to: MsgId, msg_id: Option<MsgId>, value: i64 },
}

impl View for Msg {
    type V = MsgV;

    open spec fn view(&self) -> MsgV {
        MsgV { src: self.src@, dest: self.dest@, body: self.body@ }
    }
}

impl View for Body {
    type V = BodyV;

    open spec fn view(&self) -> BodyV {
        match self {
            Body::Application(j) => BodyV::Application(json_view(*j)),
            Body::Error(e) => BodyV::Error(e@),
            Body::Init(i) => BodyV::Init(i@),
            Body::Workload(w) => BodyV::Workload(w@),
        }
    }
}

impl View for Workload {
    type V = WorkloadV;

    open spec fn view(&self) -> WorkloadV {
        match self {
            Workload::Echo(e) => WorkloadV::Echo(e@),
            Workload::LinKv(l) => WorkloadV::LinKv(l@),
            Workload::PnCounter(p) => WorkloadV::PnCounter(p@),
        }
    }
}

impl View for Echo {
    type V = EchoV;

    open spec fn view(&self) -> EchoV {
        match self {
            Echo::Echo { msg_id, echo } => EchoV::Echo {
                msg_id: *msg_id,
                echo: json_view(*echo),
            },
            Echo::EchoOk { in_reply_to, msg_id, echo } => EchoV::EchoOk {
                in_reply_to: *in_reply_to,
                msg_id: *msg_id,
                echo: json_view(*echo),
            },
        }
    }
}

impl View for Error {
    type V = ErrorV;

    open spec fn view(&self) -> ErrorV {
        ErrorV { in_reply_to: self.in_reply_to, code: self.code, text: self.text@ }
    }
}

impl View for Init {
    type V = InitV;

    open spec fn view(&self) -> InitV {
        match self {
            Init::Init { msg_id, node_id, node_ids } => InitV::Init {
                msg_id: *msg_id,
                node_id: node_id@,
                node_ids: Seq::new(node_ids@.len(), |i: int| node_ids@[i]@),
            },
            Init::InitOk { in_reply_to, msg_id } => InitV::InitOk {
                in_reply_to: *in_reply_to,
                msg_id: *msg_id,
            },
        }
    }
}

impl View for LinKv {
    type V = LinKvV;

    open spec fn view(&self) -> LinKvV {
        match self {
            LinKv::Cas { msg_id, key, from, to } => LinKvV::Cas {
                msg_id: *msg_id,
                key: json_view(*key),
                from: json_view(*from),
                to: json_view(*to),
            },
            LinKv::CasOk { in_reply_to, msg_id } => LinKvV::CasOk {
                in_reply_to: *in_reply_to,
                msg_id: *msg_id,
            },
            LinKv::Read { msg_id, key } => LinKvV::Read {
                msg_id: *msg_id,
                key: json_view(*key),
            },
            LinKv::ReadOk { in_reply_to, msg_id, value } => LinKvV::ReadOk {
                in_reply_to: *in_reply_to,
                msg_id: *msg_id,
                value: json_view(*value),
            },
            LinKv::Write { msg_id, key, value } => LinKvV::Write {
                msg_id: *msg_id,
                key: json_view(*key),
                value: json_view(*value),
            },
            LinKv::WriteOk { in_reply_to } => LinKvV::WriteOk { in_reply_to: *in_reply_to },
        }
    }
}

impl View for PnCounter {
    type V = PnCounterV;

    open spec fn view(&self) -> PnCounterV {
        match self {
            PnCounter::Add { msg_id, delta } => PnCounterV::Add {
                msg_id: *msg_id,
                delta: *delta,
            },
            PnCounter::Read { msg_id } => PnCounterV::Read { msg_id: *msg_id },
            PnCounter::ReadOk { in_reply_to, msg_id, value } => PnCounterV::ReadOk {
                in_reply_to: *in_reply_to,
                msg_id: *msg_id,
                value: *value,
            },
        }
    }
}

/// The family a workload body belongs to.
pub open spec fn workload_kind(w: WorkloadV) -> WorkloadKind {
    match w {
        WorkloadV::Echo(_) => WorkloadKind::Echo,
        WorkloadV::LinKv(_) => WorkloadKind::LinKv,
        WorkloadV::PnCounter(_) => WorkloadKind::PnCounter,
    }
}


// ---------------------------------------------------------------------------
// Serialization: body models to JSON models
// ---------------------------------------------------------------------------

/// The JSON model of a message identifier.
pub open spec fn u64_json(n: u64) -> JsonV {
    JsonV::Int(n as int)
}

/// The JSON model of a signed counter value.
pub open spec fn i64_json(n: i64) -> JsonV {
    JsonV::Int(n as int)
}

/// The JSON object for an echo body.
pub open spec fn echo_json(e: EchoV) -> JsonV {
    match e {
        EchoV::Echo { msg_id, echo } => JsonV::Obj(
            seq![
                ("type"@, JsonV::Str("echo"@)),
                ("msg_id"@, u64_json(msg_id)),
                ("echo"@, echo),
            ],
        ),
        EchoV::EchoOk { in_reply_to, msg_id, echo } => match msg_id {
            Option::None => JsonV::Obj(
                seq![
                    ("type"@, JsonV::Str("echo_ok"@)),
                    ("in_reply_to"@, u64_json(in_reply_to)),
                    ("echo"@, echo),
                ],
            ),
            Option::Some(id) => JsonV::Obj(
                seq![
                    ("type"@, JsonV::Str("echo_ok"@)),
                    ("in_reply_to"@, u64_json(in_reply_to)),
                    ("msg_id"@, u64_json(id)),
                    ("echo"@, echo),
                ],
            ),
        },
    }
}

/// The JSON object for an error body.
pub open spec fn error_json(e: ErrorV) -> JsonV {
    JsonV::Obj(
        seq![
            ("type"@, JsonV::Str("error"@)),
            ("in_reply_to"@, u64_json(e.in_reply_to)),
            ("code"@, u64_json(e.code)),
            ("text"@, JsonV::Str(e.text)),
        ],
    )
}

/// The JSON array of the membership list.
pub open spec fn ids_json(ids: Seq<Seq<char>>) -> JsonV {
    JsonV::Arr(Seq::new(ids.len(), |i: int| JsonV::Str(ids[i])))
}

/// The JSON object for an initialization body.
pub open spec fn init_json(i: InitV) -> JsonV {
    match i {
        InitV::Init { msg_id, node_id, node_ids } => JsonV::Obj(
            seq![
                ("type"@, JsonV::Str("init"@)),
                ("msg_id"@, u64_json(msg_id)),
                ("node_id"@, JsonV::Str(node_id)),
                ("node_ids"@, ids_json(node_ids)),
            ],
        ),
        InitV::InitOk { in_reply_to, msg_id } => JsonV::Obj(
            seq![
                ("type"@, JsonV::Str("init_ok"@)),
                ("in_reply_to"@, u64_json(in_reply_to)),
                ("msg_id"@, u64_json(msg_id)),
            ],
        ),
    }
}

/// The JSON object for a key-value body.
pub open spec fn linkv_json(l: LinKvV) -> JsonV {
    match l {
        LinKvV::Cas { msg_id, key, from, to } => JsonV::Obj(
            seq![
                ("type"@, JsonV::Str("cas"@)),
                ("msg_id"@, u64_json(msg_id)),
                ("key"@, key),
                ("from"@, from),
                ("to"@, to),
            ],
        ),
        LinKvV::CasOk { in_reply_to, msg_id } => match msg_id {
            Option::None => JsonV::Obj(
                seq![("type"@, JsonV::Str("cas_ok"@)), ("in_reply_to"@, u64_json(in_reply_to))],
            ),
            Option::Some(id) => JsonV::Obj(
                seq![
                    ("type"@, JsonV::Str("cas_ok"@)),
                    ("in_reply_to"@, u64_json(in_reply_to)),
                    ("msg_id"@, u64_json(id)),
                ],
            ),
        },
        LinKvV::Read { msg_id, key } => JsonV::Obj(
            seq![
                ("type"@, JsonV::Str("read"@)),
                ("msg_id"@, u64_json(msg_id)),
                ("key"@, key),
            ],
        ),
        LinKvV::ReadOk { in_reply_to, msg_id, value } => match msg_id {
            Option::None => JsonV::Obj(
                seq![
                    ("type"@, JsonV::Str("read_ok"@)),
                    ("in_reply_to"@, u64_json(in_reply_to)),
                    ("value"@, value),
                ],
            ),
            Option::Some(id) => JsonV::Obj(
                seq![
                    ("type"@, JsonV::Str("read_ok"@)),
                    ("in_reply_to"@, u64_json(in_reply_to)),
                    ("msg_id"@, u64_json(id)),
                    ("value"@, value),
                ],
            ),
        },
        LinKvV::Write { msg_id, key, value } => JsonV::Obj(
            seq![
                ("type"@, JsonV::Str("write"@)),
                ("msg_id"@, u64_json(msg_id)),
                ("key"@, key),
                ("value"@, value),
            ],
        ),
        LinKvV::WriteOk { in_reply_to } => JsonV::Obj(
            seq![("type"@, JsonV::Str("write_ok"@)), ("in_reply_to"@, u64_json(in_reply_to))],
        ),
    }
}

/// The JSON object for a counter body.
pub open spec fn pn_json(p: PnCounterV) -> JsonV {
    match p {
        PnCounterV::Add { msg_id, delta } => JsonV::Obj(
            seq![
                ("type"@, JsonV::Str("add"@)),
                ("msg_id"@, u64_json(msg_id)),
                ("delta"@, i64_json(delta)),
            ],
        ),
        PnCounterV::Read { msg_id } => JsonV::Obj(
            seq![("type"@, JsonV::Str("read"@)), ("msg_id"@, u64_json(msg_id))],
        ),
        PnCounterV::ReadOk { in_reply_to, msg_id, value } => match msg_id {
            Option::None => JsonV::Obj(
                seq![
                    ("type"@, JsonV::Str("read_ok"@)),
                    ("in_reply_to"@, u64_json(in_reply_to)),
                    ("value"@, i64_json(value)),
                ],
            ),
            Option::Some(id) => JsonV::Obj(
                seq![
                    ("type"@, JsonV::Str("read_ok"@)),
                    ("in_reply_to"@, u64_json(in_reply_to)),
                    ("msg_id"@, u64_json(id)),
                    ("value"@, i64_json(value)),
                ],
            ),
        },
    }
}

/// The JSON value for a workload body.
pub open spec fn workload_json(w: WorkloadV) -> JsonV {
    match w {
        WorkloadV::Echo(e) => echo_json(e),
        WorkloadV::LinKv(l) => linkv_json(l),
        WorkloadV::PnCounter(p) => pn_json(p),
    }
}

/// The JSON value for a body: the application payload is taken as it is.
pub open spec fn body_json(b: BodyV) -> JsonV {
    match b {
        BodyV::Application(j) => j,
        BodyV::Error(e) => error_json(e),
        BodyV::Init(i) => init_json(i),
        BodyV::Workload(w) => workload_json(w),
    }
}

/// The JSON object for a whole envelope.
pub open spec fn msg_json(m: MsgV) -> JsonV {
    JsonV::Obj(
        seq![
            ("src"@, JsonV::Str(m.src)),
            ("dest"@, JsonV::Str(m.dest)),
            ("body"@, body_json(m.body)),
        ],
    )
}

/// What [`encode`](crate::msg::encode) writes: the canonical serialization of
/// the envelope's JSON object.
pub open spec fn encode_spec(m: MsgV) -> Seq<char> {
    jser(msg_json(m))
}

// ---------------------------------------------------------------------------
// Extraction: JSON models back to body models
// ---------------------------------------------------------------------------

/// First-match lookup of a key among object members.
pub open spec fn lookup(ms: Seq<(Seq<char>, JsonV)>, k: Seq<char>) -> Option<JsonV>
    decreases ms.len(),
{
    if ms.len() == 0 {
        None
    } else if ms[0].0 == k {
        Some(ms[0].1)
    } else {
        lookup(ms.drop_first(), k)
    }
}

/// A JSON value read as a message identifier.
pub open spec fn as_u64(v: JsonV) -> Option<u64> {
    match v {
        JsonV::Int(i) => if 0 <= i <= 0xffff_ffff_ffff_ffff {
            Some(i as u64)
        } else {
            None
        },
        _ => None,
    }
}

/// A JSON value read as a signed counter value.
pub open spec fn as_i64(v: JsonV) -> Option<i64> {
    match v {
        JsonV::Int(i) => if -0x8000_0000_0000_0000 <= i <= 0x7fff_ffff_ffff_ffff {
            Some(i as i64)
        } else {
            None
        },
        _ => None,
    }
}

/// A JSON value read as a string.
pub open spec fn as_str(v: JsonV) -> Option<Seq<char>> {
    match v {
        JsonV::Str(s) => Some(s),
        _ => None,
    }
}

/// A JSON array read as a list of strings.
pub open spec fn as_str_seq(es: Seq<JsonV>) -> Option<Seq<Seq<char>>>
    decreases es.len(),
{
    if es.len() == 0 {
        Some(Seq::empty())
    } else {
        match (as_str(es[0]), as_str_seq(es.drop_first())) {
            (Some(s), Some(rest)) => Some(seq![s] + rest),
            _ => None,
        }
    }
}

/// A JSON value read as a list of strings.
pub open spec fn as_str_list(v: JsonV) -> Option<Seq<Seq<char>>> {
    match v {
        JsonV::Arr(es) => as_str_seq(es),
        _ => None,
    }
}

/// A required identifier field.
pub open spec fn u64_field(ms: Seq<(Seq<char>, JsonV)>, k: Seq<char>) -> Option<u64> {
    match lookup(ms, k) {
        Some(v) => as_u64(v),
        None => None,
    }
}

/// A required signed field.
pub open spec fn i64_field(ms: Seq<(Seq<char>, JsonV)>, k: Seq<char>) -> Option<i64> {
    match lookup(ms, k) {
        Some(v) => as_i64(v),
        None => None,
    }
}

/// A required string field.
pub open spec fn str_field(ms: Seq<(Seq<char>, JsonV)>, k: Seq<char>) -> Option<Seq<char>> {
    match lookup(ms, k) {
        Some(v) => as_str(v),
        None => None,
    }
}

/// An optional identifier field: absence is accepted, a present field must
/// be an identifier.
pub open spec fn opt_u64_field(ms: Seq<(Seq<char>, JsonV)>, k: Seq<char>) -> Option<
    Option<u64>,
> {
    match lookup(ms, k) {
        None => Some(Option::None),
        Some(v) => match as_u64(v) {
            Some(n) => Some(Option::Some(n)),
            None => None,
        },
    }
}

/// An echo body read from object members under its tag.
pub open spec fn echo_of(ms: Seq<(Seq<char>, JsonV)>, tag: Seq<char>) -> Option<WorkloadV> {
    if tag == "echo"@ {
        match (u64_field(ms, "msg_id"@), lookup(ms, "echo"@)) {
            (Some(id), Some(e)) => Some(WorkloadV::Echo(EchoV::Echo { msg_id: id, echo: e })),
            _ => None,
        }
    } else if tag == "echo_ok"@ {
        match (u64_field(ms, "in_reply_to"@), opt_u64_field(ms, "msg_id"@), lookup(ms, "echo"@)) {
            (Some(irt), Some(oid), Some(e)) => Some(
                WorkloadV::Echo(EchoV::EchoOk { in_reply_to: irt, msg_id: oid, echo: e }),
            ),
            _ => None,
        }
    } else {
        None
    }
}

/// A key-value body read from object members under its tag.
pub open spec fn linkv_of(ms: Seq<(Seq<char>, JsonV)>, tag: Seq<char>) -> Option<WorkloadV> {
    if tag == "cas"@ {
        match (u64_field(ms, "msg_id"@), lookup(ms, "key"@), lookup(ms, "from"@), lookup(
            ms,
            "to"@,
        )) {
            (Some(id), Some(k), Some(f), Some(t)) => Some(
                WorkloadV::LinKv(LinKvV::Cas { msg_id: id, key: k, from: f, to: t }),
            ),
            _ => None,
        }
    } else if tag == "cas_ok"@ {
        match (u64_field(ms, "in_reply_to"@), opt_u64_field(ms, "msg_id"@)) {
            (Some(irt), Some(oid)) => Some(
                WorkloadV::LinKv(LinKvV::CasOk { in_reply_to: irt, msg_id: oid }),
            ),
            _ => None,
        }
    } else if tag == "read"@ {
        match (u64_field(ms, "msg_id"@), lookup(ms, "key"@)) {
            (Some(id), Some(k)) => Some(WorkloadV::LinKv(LinKvV::Read { msg_id: id, key: k })),
            _ => None,
        }
    } else if tag == "read_ok"@ {
        match (u64_field(ms, "in_reply_to"@), opt_u64_field(ms, "msg_id"@), lookup(
            ms,
            "value"@,
        )) {
            (Some(irt), Some(oid), Some(v)) => Some(
                WorkloadV::LinKv(LinKvV::ReadOk { in_reply_to: irt, msg_id: oid, value: v }),
            ),
            _ => None,
        }
    } else if tag == "write"@ {
        match (u64_field(ms, "msg_id"@), lookup(ms, "key"@), lookup(ms, "value"@)) {
            (Some(id), Some(k), Some(v)) => Some(
                WorkloadV::LinKv(LinKvV::Write { msg_id: id, key: k, value: v }),
            ),
            _ => None,
        }
    } else if tag == "write_ok"@ {
        match u64_field(ms, "in_reply_to"@) {
            Some(irt) => Some(WorkloadV::LinKv(LinKvV::WriteOk { in_reply_to: irt })),
            None => None,
        }
    } else {
        None
    }
}

/// A counter body read from object members under its tag.
pub open spec fn pn_of(ms: Seq<(Seq<char>, JsonV)>, tag: Seq<char>) -> Option<WorkloadV> {
    if tag == "add"@ {
        match (u64_field(ms, "msg_id"@), i64_field(ms, "delta"@)) {
            (Some(id), Some(d)) => Some(
                WorkloadV::PnCounter(PnCounterV::Add { msg_id: id, delta: d }),
            ),
            _ => None,
        }
    } else if tag == "read"@ {
        match u64_field(ms, "msg_id"@) {
            Some(id) => Some(WorkloadV::PnCounter(PnCounterV::Read { msg_id: id })),
            None => None,
        }
    } else if tag == "read_ok"@ {
        match (u64_field(ms, "in_reply_to"@), opt_u64_field(ms, "msg_id"@), i64_field(
            ms,
            "value"@,
        )) {
            (Some(irt), Some(oid), Some(v)) => Some(
                WorkloadV::PnCounter(PnCounterV::ReadOk { in_reply_to: irt, msg_id: oid, value: v }),
            ),
            _ => None,
        }
    } else {
        None
    }
}

/// Tries to read a body as a workload message of the selected family.
pub open spec fn workload_of_json(v: JsonV, kind: WorkloadKind) -> Option<WorkloadV> {
    match v {
        JsonV::Obj(ms) => match lookup(ms, "type"@) {
            Some(JsonV::Str(tag)) => match kind {
                WorkloadKind::Echo => echo_of(ms, tag),
                WorkloadKind::LinKv => linkv_of(ms, tag),
                WorkloadKind::PnCounter => pn_of(ms, tag),
            },
            _ => None,
        },
        _ => None,
    }
}

/// Tries to read a body as an initialization message.
pub open spec fn init_of_json(v: JsonV) -> Option<InitV> {
    match v {
        JsonV::Obj(ms) => match lookup(ms, "type"@) {
            Some(JsonV::Str(tag)) => if tag == "init"@ {
                match (u64_field(ms, "msg_id"@), str_field(ms, "node_id"@), lookup(
                    ms,
                    "node_ids"@,
                )) {
                    (Some(id), Some(nid), Some(idsv)) => match as_str_list(idsv) {
                        Some(ids) => Some(
                            InitV::Init { msg_id: id, node_id: nid, node_ids: ids },
                        ),
                        None => None,
                    },
                    _ => None,
                }
            } else if tag == "init_ok"@ {
                match (u64_field(ms, "in_reply_to"@), u64_field(ms, "msg_id"@)) {
                    (Some(irt), Some(id)) => Some(InitV::InitOk { in_reply_to: irt, msg_id: id }),
                    _ => None,
                }
            } else {
                None
            },
            _ => None,
        },
        _ => None,
    }
}

/// Tries to read a body as a protocol error message.
pub open spec fn error_of_json(v: JsonV) -> Option<ErrorV> {
    match v {
        JsonV::Obj(ms) => match lookup(ms, "type"@) {
            Some(JsonV::Str(tag)) => if tag == "error"@ {
                match (u64_field(ms, "in_reply_to"@), u64_field(ms, "code"@), str_field(
                    ms,
                    "text"@,
                )) {
                    (Some(irt), Some(code), Some(text)) => Some(
                        ErrorV { in_reply_to: irt, code, text },
                    ),
                    _ => None,
                }
            } else {
                None
            },
            _ => None,
        },
        _ => None,
    }
}

/// Reads a body, trying the categories in priority order: Workload, then
/// Init, then Error; anything else is an Application payload.
pub open spec fn body_of_json(v: JsonV, kind: WorkloadKind) -> BodyV {
    match workload_of_json(v, kind) {
        Some(w) => BodyV::Workload(w),
        None => match init_of_json(v) {
            Some(i) => BodyV::Init(i),
            None => match error_of_json(v) {
                Some(e) => BodyV::Error(e),
                None => BodyV::Application(v),
            },
        },
    }
}

/// Reads a whole envelope from a JSON value: an object with string `src`
/// and `dest` fields and a `body` field of any shape.
pub open spec fn msg_of_json(v: JsonV, kind: WorkloadKind) -> Option<MsgV> {
    match v {
        JsonV::Obj(ms) => match (str_field(ms, "src"@), str_field(ms, "dest"@), lookup(
            ms,
            "body"@,
        )) {
            (Some(src), Some(dest), Some(bv)) => Some(
                MsgV { src, dest, body: body_of_json(bv, kind) },
            ),
            _ => None,
        },
        _ => None,
    }
}

/// What [`decode`](crate::msg::decode) accepts: the line parses as JSON and
/// its value has the envelope shape. Everything else is a decode error.
pub open spec fn decode_spec(s: Seq<char>, kind: WorkloadKind) -> Option<MsgV> {
    match jparse(s) {
        Some(v) => msg_of_json(v, kind),
        None => None,
    }
}


// ---------------------------------------------------------------------------
// Executable encoder
// ---------------------------------------------------------------------------

/// The JSON number for an identifier.
fn num_u64(n: u64) -> (j: Json)
    ensures
        j@ == u64_json(n),
{
    Json::Num(crate::json::JsonNum { neg: false, mag: n })
}

/// The JSON number for a signed value.
fn num_i64(n: i64) -> (j: Json)
    ensures
        j@ == i64_json(n),
{
    if n >= 0 {
        Json::Num(crate::json::JsonNum { neg: false, mag: n as u64 })
    } else if n == i64::MIN {
        Json::Num(crate::json::JsonNum { neg: true, mag: 9223372036854775808 })
    } else {
        Json::Num(crate::json::JsonNum { neg: true, mag: (-n) as u64 })
    }
}

/// The JSON object for an echo body.
fn echo_to_json(e: Echo) -> (j: Json)
    ensures
        j@ == echo_json(e@),
{
    let ghost ev = e@;
    match e {
        Echo::Echo { msg_id, echo } => {
            let mut fields: Vec<(String, Json)> = Vec::new();
            fields.push(("type".to_owned(), Json::Str("echo".to_owned())));
            fields.push(("msg_id".to_owned(), num_u64(msg_id)));
            fields.push(("echo".to_owned(), echo));
            let j = Json::Obj(fields);
            proof {
                let fs = j->Obj_0@;
                crate::json::lemma_json_obj_view_index(fs);
                assert(crate::json::json_obj_view(fs) =~= echo_json(ev)->Obj_0);
            }
            j
        },
        Echo::EchoOk { in_reply_to, msg_id, echo } => {
            let mut fields: Vec<(String, Json)> = Vec::new();
            fields.push(("type".to_owned(), Json::Str("echo_ok".to_owned())));
            fields.push(("in_reply_to".to_owned(), num_u64(in_reply_to)));
            match msg_id {
                Option::Some(id) => fields.push(("msg_id".to_owned(), num_u64(id))),
                Option::None => {},
            }
            fields.push(("echo".to_owned(), echo));
            let j = Json::Obj(fields);
            proof {
                let fs = j->Obj_0@;
                crate::json::lemma_json_obj_view_index(fs);
                assert(crate::json::json_obj_view(fs) =~= echo_json(ev)->Obj_0);
            }
            j
        },
    }
}

/// The JSON object for an error body.
fn error_to_json(e: Error) -> (j: Json)
    ensures
        j@ == error_json(e@),
{
    let ghost ev = e@;
    let mut fields: Vec<(String, Json)> = Vec::new();
    fields.push(("type".to_owned(), Json::Str("error".to_owned())));
    fields.push(("in_reply_to".to_owned(), num_u64(e.in_reply_to)));
    fields.push(("code".to_owned(), num_u64(e.code)));
    fields.push(("text".to_owned(), Json::Str(e.text)));
    let j = Json::Obj(fields);
    proof {
        let fs = j->Obj_0@;
        crate::json::lemma_json_obj_view_index(fs);
        assert(crate::json::json_obj_view(fs) =~= error_json(ev)->Obj_0);
    }
    j
}

/// The view of a list of identifiers.
pub open spec fn ids_view(v: Seq<String>) -> Seq<Seq<char>> {
    Seq::new(v.len(), |i: int| v[i]@)
}

/// The JSON array for a membership list.
fn ids_to_json(ids: Vec<Id>) -> (j: Json)
    ensures
        j@ == ids_json(ids_view(ids@)),
{
    let ghost idsv = ids@;
    let mut arr: Vec<Json> = Vec::new();
    let n = ids.len();
    for i in 0..n
        invariant
            n == ids@.len(),
            ids@ == idsv,
            arr@.len() == i,
            forall|k: int| 0 <= k < i ==> arr@[k] == Json::Str(ids@[k]),
    {
        arr.push(Json::Str(ids[i].clone()));
    }
    let j = Json::Arr(arr);
    proof {
        let es = j->Arr_0@;
        crate::json::lemma_json_seq_view_index(es);
        assert(crate::json::json_seq_view(es) =~= ids_json(ids_view(idsv))->Arr_0);
    }
    j
}

/// The JSON object for an initialization body.
fn init_to_json(i: Init) -> (j: Json)
    ensures
        j@ == init_json(i@),
{
    let ghost iv = i@;
    match i {
        Init::Init { msg_id, node_id, node_ids } => {
            let mut fields: Vec<(String, Json)> = Vec::new();
            fields.push(("type".to_owned(), Json::Str("init".to_owned())));
            fields.push(("msg_id".to_owned(), num_u64(msg_id)));
            fields.push(("node_id".to_owned(), Json::Str(node_id)));
            fields.push(("node_ids".to_owned(), ids_to_json(node_ids)));
            let j = Json::Obj(fields);
            proof {
                let fs = j->Obj_0@;
                crate::json::lemma_json_obj_view_index(fs);
                assert(crate::json::json_obj_view(fs) =~= init_json(iv)->Obj_0);
            }
            j
        },
        Init::InitOk { in_reply_to, msg_id } => {
            let mut fields: Vec<(String, Json)> = Vec::new();
            fields.push(("type".to_owned(), Json::Str("init_ok".to_owned())));
            fields.push(("in_reply_to".to_owned(), num_u64(in_reply_to)));
            fields.push(("msg_id".to_owned(), num_u64(msg_id)));
            let j = Json::Obj(fields);
            proof {
                let fs = j->Obj_0@;
                crate::json::lemma_json_obj_view_index(fs);
                assert(crate::json::json_obj_view(fs) =~= init_json(iv)->Obj_0);
            }
            j
        },
    }
}

/// The JSON object for a key-value body.
fn linkv_to_json(l: LinKv) -> (j: Json)
    ensures
        j@ == linkv_json(l@),
{
    let ghost lv = l@;
    let mut fields: Vec<(String, Json)> = Vec::new();
    match l {
        LinKv::Cas { msg_id, key, from, to } => {
            fields.push(("type".to_owned(), Json::Str("cas".to_owned())));
            fields.push(("msg_id".to_owned(), num_u64(msg_id)));
            fields.push(("key".to_owned(), key));
            fields.push(("from".to_owned(), from));
            fields.push(("to".to_owned(), to));
        },
        LinKv::CasOk { in_reply_to, msg_id } => {
            fields.push(("type".to_owned(), Json::Str("cas_ok".to_owned())));
            fields.push(("in_reply_to".to_owned(), num_u64(in_reply_to)));
            match msg_id {
                Option::Some(id) => fields.push(("msg_id".to_owned(), num_u64(id))),
                Option::None => {},
            }
        },
        LinKv::Read { msg_id, key } => {
            fields.push(("type".to_owned(), Json::Str("read".to_owned())));
            fields.push(("msg_id".to_owned(), num_u64(msg_id)));
            fields.push(("key".to_owned(), key));
        },
        LinKv::ReadOk { in_reply_to, msg_id, value } => {
            fields.push(("type".to_owned(), Json::Str("read_ok".to_owned())));
            fields.push(("in_reply_to".to_owned(), num_u64(in_reply_to)));
            match msg_id {
                Option::Some(id) => fields.push(("msg_id".to_owned(), num_u64(id))),
                Option::None => {},
            }
            fields.push(("value".to_owned(), value));
        },
        LinKv::Write { msg_id, key, value } => {
            fields.push(("type".to_owned(), Json::Str("write".to_owned())));
            fields.push(("msg_id".to_owned(), num_u64(msg_id)));
            fields.push(("key".to_owned(), key));
            fields.push(("value".to_owned(), value));
        },
        LinKv::WriteOk { in_reply_to } => {
            fields.push(("type".to_owned(), Json::Str("write_ok".to_owned())));
            fields.push(("in_reply_to".to_owned(), num_u64(in_reply_to)));
        },
    }
    let j = Json::Obj(fields);
    proof {
        let fs = j->Obj_0@;
        crate::json::lemma_json_obj_view_index(fs);
        assert(crate::json::json_obj_view(fs) =~= linkv_json(lv)->Obj_0);
    }
    j
}

/// The JSON object for a counter body.
fn pn_to_json(p: PnCounter) -> (j: Json)
    ensures
        j@ == pn_json(p@),
{
    let ghost pv = p@;
    let mut fields: Vec<(String, Json)> = Vec::new();
    match p {
        PnCounter::Add { msg_id, delta } => {
            fields.push(("type".to_owned(), Json::Str("add".to_owned())));
            fields.push(("msg_id".to_owned(), num_u64(msg_id)));
            fields.push(("delta".to_owned(), num_i64(delta)));
        },
        PnCounter::Read { msg_id } => {
            fields.push(("type".to_owned(), Json::Str("read".to_owned())));
            fields.push(("msg_id".to_owned(), num_u64(msg_id)));
        },
        PnCounter::ReadOk { in_reply_to, msg_id, value } => {
            fields.push(("type".to_owned(), Json::Str("read_ok".to_owned())));
            fields.push(("in_reply_to".to_owned(), num_u64(in_reply_to)));
            match msg_id {
                Option::Some(id) => fields.push(("msg_id".to_owned(), num_u64(id))),
                Option::None => {},
            }
            fields.push(("value".to_owned(), num_i64(value)));
        },
    }
    let j = Json::Obj(fields);
    proof {
        let fs = j->Obj_0@;
        crate::json::lemma_json_obj_view_index(fs);
        assert(crate::json::json_obj_view(fs) =~= pn_json(pv)->Obj_0);
    }
    j
}

/// The JSON value for a body.
fn body_to_json(b: Body) -> (j: Json)
    ensures
        j@ == body_json(b@),
{
    match b {
        Body::Application(j) => j,
        Body::Error(e) => error_to_json(e),
        Body::Init(i) => init_to_json(i),
        Body::Workload(w) => match w {
            Workload::Echo(e) => echo_to_json(e),
            Workload::LinKv(l) => linkv_to_json(l),
            Workload::PnCounter(p) => pn_to_json(p),
        },
    }
}

/// The JSON object for a whole envelope.
pub fn msg_to_json(m: Msg) -> (j: Json)
    ensures
        j@ == msg_json(m@),
{
    let ghost mv = m@;
    let Msg { src, dest, body } = m;
    let mut fields: Vec<(String, Json)> = Vec::new();
    fields.push(("src".to_owned(), Json::Str(src)));
    fields.push(("dest".to_owned(), Json::Str(dest)));
    fields.push(("body".to_owned(), body_to_json(body)));
    let j = Json::Obj(fields);
    proof {
        let fs = j->Obj_0@;
        crate::json::lemma_json_obj_view_index(fs);
        assert(crate::json::json_obj_view(fs) =~= msg_json(mv)->Obj_0);
    }
    j
}

/// Serializes an envelope as one line of wire text. Deterministic; an
/// absent optional identifier writes no key at all.
pub fn encode(m: Msg) -> (r: String)
    ensures
        r@ == encode_spec(m@),
{
    let j = msg_to_json(m);
    crate::json::json_to_string(&j)
}


// ---------------------------------------------------------------------------
// Executable decoder
// ---------------------------------------------------------------------------

/// First-match search for a key among an object's members.
fn obj_find<'a>(ms: &'a Vec<(String, Json)>, k: &String) -> (r: Option<&'a Json>)
    ensures
        match r {
            Some(j) => lookup(crate::json::json_obj_view(ms@), k@) == Some(j@),
            None => lookup(crate::json::json_obj_view(ms@), k@) == None::<JsonV>,
        },
{
    proof {
        crate::json::lemma_json_obj_view_index(ms@);
    }
    let ghost msv = crate::json::json_obj_view(ms@);
    proof {
        assert(msv.skip(0) =~= msv);
    }
    let n = ms.len();
    let mut i: usize = 0;
    while i < n
        invariant
            i <= n,
            n == ms@.len(),
            msv == crate::json::json_obj_view(ms@),
            msv.len() == n,
            forall|p: int| 0 <= p < ms@.len() ==> msv[p] == (ms@[p].0@, json_view(ms@[p].1)),
            lookup(msv, k@) == lookup(msv.skip(i as int), k@),
        decreases n - i,
    {
        if ms[i].0 == *k {
            proof {
                assert(msv.skip(i as int)[0] == msv[i as int]);
            }
            return Some(&ms[i].1);
        }
        proof {
            assert(msv.skip(i as int)[0] == msv[i as int]);
            assert(msv.skip(i as int).drop_first() =~= msv.skip(i as int + 1));
        }
        i = i + 1;
    }
    proof {
        assert(msv.skip(i as int).len() == 0);
    }
    None
}

/// Reads a JSON value as an identifier.
fn as_u64_exec(j: &Json) -> (r: Option<u64>)
    ensures
        r == as_u64(j@),
{
    match j {
        Json::Num(n) => {
            if n.neg && n.mag > 0 {
                None
            } else {
                Some(n.mag)
            }
        },
        _ => None,
    }
}

/// Reads a JSON value as a signed counter value.
fn as_i64_exec(j: &Json) -> (r: Option<i64>)
    ensures
        r == as_i64(j@),
{
    match j {
        Json::Num(n) => {
            if !n.neg {
                if n.mag <= 0x7fff_ffff_ffff_ffff {
                    Some(n.mag as i64)
                } else {
                    None
                }
            } else {
                if n.mag < 0x8000_0000_0000_0000 {
                    Some(-(n.mag as i64))
                } else if n.mag == 0x8000_0000_0000_0000 {
                    Some(i64::MIN)
                } else {
                    None
                }
            }
        },
        _ => None,
    }
}

/// Reads a JSON value as a string.
fn as_str_exec<'a>(j: &'a Json) -> (r: Option<&'a String>)
    ensures
        match r {
            Some(s) => as_str(j@) == Some(s@),
            None => as_str(j@) == None::<Seq<char>>,
        },
{
    match j {
        Json::Str(s) => Some(s),
        _ => None,
    }
}

/// A required identifier field.
fn u64_field_exec(ms: &Vec<(String, Json)>, k: &String) -> (r: Option<u64>)
    ensures
        r == u64_field(crate::json::json_obj_view(ms@), k@),
{
    match obj_find(ms, k) {
        Some(j) => as_u64_exec(j),
        None => None,
    }
}

/// A required signed field.
fn i64_field_exec(ms: &Vec<(String, Json)>, k: &String) -> (r: Option<i64>)
    ensures
        r == i64_field(crate::json::json_obj_view(ms@), k@),
{
    match obj_find(ms, k) {
        Some(j) => as_i64_exec(j),
        None => None,
    }
}

/// An optional identifier field.
fn opt_u64_field_exec(ms: &Vec<(String, Json)>, k: &String) -> (r: Option<Option<u64>>)
    ensures
        r == opt_u64_field(crate::json::json_obj_view(ms@), k@),
{
    match obj_find(ms, k) {
        None => Some(None),
        Some(j) => match as_u64_exec(j) {
            Some(n) => Some(Some(n)),
            None => None,
        },
    }
}

/// A required string field, borrowed.
fn str_field_exec<'a>(ms: &'a Vec<(String, Json)>, k: &String) -> (r: Option<&'a String>)
    ensures
        match r {
            Some(s) => str_field(crate::json::json_obj_view(ms@), k@) == Some(s@),
            None => str_field(crate::json::json_obj_view(ms@), k@) == None::<Seq<char>>,
        },
{
    match obj_find(ms, k) {
        Some(j) => as_str_exec(j),
        None => None,
    }
}

/// Reads the elements from position `i` on as strings.
fn str_seq_from(es: &Vec<Json>, i: usize) -> (r: Option<Vec<String>>)
    requires
        i <= es@.len(),
    ensures
        match r {
            Some(v) => as_str_seq(crate::json::json_seq_view(es@).skip(i as int)) == Some(
                ids_view(v@),
            ),
            None => as_str_seq(crate::json::json_seq_view(es@).skip(i as int)) == None::<
                Seq<Seq<char>>,
            >,
        },
    decreases es@.len() - i,
{
    proof {
        crate::json::lemma_json_seq_view_index(es@);
    }
    let ghost esv = crate::json::json_seq_view(es@);
    if i < es.len() {
        proof {
            assert(esv.skip(i as int)[0] == esv[i as int]);
            assert(esv.skip(i as int).drop_first() =~= esv.skip(i as int + 1));
        }
        match &es[i] {
            Json::Str(s) => match str_seq_from(es, i + 1) {
                Some(mut v) => {
                    let ghost oldv = v@;
                    v.insert(0, s.clone());
                    proof {
                        assert(v@[0]@ == s@);
                        assert(v@.drop_first() =~= oldv);
                        assert(ids_view(v@) =~= seq![s@] + ids_view(oldv));
                    }
                    Some(v)
                },
                None => None,
            },
            _ => None,
        }
    } else {
        proof {
            assert(esv.skip(i as int).len() == 0);
            assert(ids_view(Seq::<String>::empty()) =~= Seq::<Seq<char>>::empty());
        }
        Some(Vec::new())
    }
}

/// Reads a JSON value as a membership list.
fn str_list_from(j: &Json) -> (r: Option<Vec<String>>)
    ensures
        match r {
            Some(v) => as_str_list(j@) == Some(ids_view(v@)),
            None => as_str_list(j@) == None::<Seq<Seq<char>>>,
        },
{
    match j {
        Json::Arr(es) => {
            proof {
                assert(crate::json::json_seq_view(es@).skip(0) =~= crate::json::json_seq_view(
                    es@,
                ));
            }
            str_seq_from(es, 0)
        },
        _ => None,
    }
}

/// Tries to read object members as an echo body under its tag.
fn echo_from(ms: &Vec<(String, Json)>, tag: &String) -> (r: Option<Workload>)
    ensures
        match r {
            Some(w) => echo_of(crate::json::json_obj_view(ms@), tag@) == Some(w@),
            None => echo_of(crate::json::json_obj_view(ms@), tag@) == None::<WorkloadV>,
        },
{
    if *tag == "echo".to_owned() {
        match (u64_field_exec(ms, &"msg_id".to_owned()), obj_find(ms, &"echo".to_owned())) {
            (Some(id), Some(e)) => Some(
                Workload::Echo(Echo::Echo { msg_id: id, echo: crate::json::json_clone(e) }),
            ),
            _ => None,
        }
    } else if *tag == "echo_ok".to_owned() {
        match (
            u64_field_exec(ms, &"in_reply_to".to_owned()),
            opt_u64_field_exec(ms, &"msg_id".to_owned()),
            obj_find(ms, &"echo".to_owned()),
        ) {
            (Some(irt), Some(oid), Some(e)) => Some(
                Workload::Echo(
                    Echo::EchoOk {
                        in_reply_to: irt,
                        msg_id: oid,
                        echo: crate::json::json_clone(e),
                    },
                ),
            ),
            _ => None,
        }
    } else {
        None
    }
}

/// Tries to read object members as a key-value body under its tag.
fn linkv_from(ms: &Vec<(String, Json)>, tag: &String) -> (r: Option<Workload>)
    ensures
        match r {
            Some(w) => linkv_of(crate::json::json_obj_view(ms@), tag@) == Some(w@),
            None => linkv_of(crate::json::json_obj_view(ms@), tag@) == None::<WorkloadV>,
        },
{
    if *tag == "cas".to_owned() {
        match (
            u64_field_exec(ms, &"msg_id".to_owned()),
            obj_find(ms, &"key".to_owned()),
            obj_find(ms, &"from".to_owned()),
            obj_find(ms, &"to".to_owned()),
        ) {
            (Some(id), Some(k), Some(f), Some(t)) => Some(
                Workload::LinKv(
                    LinKv::Cas {
                        msg_id: id,
                        key: crate::json::json_clone(k),
                        from: crate::json::json_clone(f),
                        to: crate::json::json_clone(t),
                    },
                ),
            ),
            _ => None,
        }
    } else if *tag == "cas_ok".to_owned() {
        match (
            u64_field_exec(ms, &"in_reply_to".to_owned()),
            opt_u64_field_exec(ms, &"msg_id".to_owned()),
        ) {
            (Some(irt), Some(oid)) => Some(
                Workload::LinKv(LinKv::CasOk { in_reply_to: irt, msg_id: oid }),
            ),
            _ => None,
        }
    } else if *tag == "read".to_owned() {
        match (u64_field_exec(ms, &"msg_id".to_owned()), obj_find(ms, &"key".to_owned())) {
            (Some(id), Some(k)) => Some(
                Workload::LinKv(LinKv::Read { msg_id: id, key: crate::json::json_clone(k) }),
            ),
            _ => None,
        }
    } else if *tag == "read_ok".to_owned() {
        match (
            u64_field_exec(ms, &"in_reply_to".to_owned()),
            opt_u64_field_exec(ms, &"msg_id".to_owned()),
            obj_find(ms, &"value".to_owned()),
        ) {
            (Some(irt), Some(oid), Some(v)) => Some(
                Workload::LinKv(
                    LinKv::ReadOk {
                        in_reply_to: irt,
                        msg_id: oid,
                        value: crate::json::json_clone(v),
                    },
                ),
            ),
            _ => None,
        }
    } else if *tag == "write".to_owned() {
        match (
            u64_field_exec(ms, &"msg_id".to_owned()),
            obj_find(ms, &"key".to_owned()),
            obj_find(ms, &"value".to_owned()),
        ) {
            (Some(id), Some(k), Some(v)) => Some(
                Workload::LinKv(
                    LinKv::Write {
                        msg_id: id,
                        key: crate::json::json_clone(k),
                        value: crate::json::json_clone(v),
                    },
                ),
            ),
            _ => None,
        }
    } else if *tag == "write_ok".to_owned() {
        match u64_field_exec(ms, &"in_reply_to".to_owned()) {
            Some(irt) => Some(Workload::LinKv(LinKv::WriteOk { in_reply_to: irt })),
            None => None,
        }
    } else {
        None
    }
}

/// Tries to read object members as a counter body under its tag.
fn pn_from(ms: &Vec<(String, Json)>, tag: &String) -> (r: Option<Workload>)
    ensures
        match r {
            Some(w) => pn_of(crate::json::json_obj_view(ms@), tag@) == Some(w@),
            None => pn_of(crate::json::json_obj_view(ms@), tag@) == None::<WorkloadV>,
        },
{
    if *tag == "add".to_owned() {
        match (
            u64_field_exec(ms, &"msg_id".to_owned()),
            i64_field_exec(ms, &"delta".to_owned()),
        ) {
            (Some(id), Some(d)) => Some(
                Workload::PnCounter(PnCounter::Add { msg_id: id, delta: d }),
            ),
            _ => None,
        }
    } else if *tag == "read".to_owned() {
        match u64_field_exec(ms, &"msg_id".to_owned()) {
            Some(id) => Some(Workload::PnCounter(PnCounter::Read { msg_id: id })),
            None => None,
        }
    } else if *tag == "read_ok".to_owned() {
        match (
            u64_field_exec(ms, &"in_reply_to".to_owned()),
            opt_u64_field_exec(ms, &"msg_id".to_owned()),
            i64_field_exec(ms, &"value".to_owned()),
        ) {
            (Some(irt), Some(oid), Some(v)) => Some(
                Workload::PnCounter(
                    PnCounter::ReadOk { in_reply_to: irt, msg_id: oid, value: v },
                ),
            ),
            _ => None,
        }
    } else {
        None
    }
}

/// Tries to read a body as a workload message of the selected family.
fn workload_from_json(j: &Json, kind: WorkloadKind) -> (r: Option<Workload>)
    ensures
        match r {
            Some(w) => workload_of_json(j@, kind) == Some(w@),
            None => workload_of_json(j@, kind) == None::<WorkloadV>,
        },
{
    match j {
        Json::Obj(ms) => match obj_find(ms, &"type".to_owned()) {
            Some(t) => match t {
                Json::Str(tag) => match kind {
                    WorkloadKind::Echo => echo_from(ms, tag),
                    WorkloadKind::LinKv => linkv_from(ms, tag),
                    WorkloadKind::PnCounter => pn_from(ms, tag),
                },
                _ => None,
            },
            None => None,
        },
        _ => None,
    }
}

/// Tries to read a body as an initialization message.
fn init_from_json(j: &Json) -> (r: Option<Init>)
    ensures
        match r {
            Some(i) => init_of_json(j@) == Some(i@),
            None => init_of_json(j@) == None::<InitV>,
        },
{
    match j {
        Json::Obj(ms) => match obj_find(ms, &"type".to_owned()) {
            Some(t) => match t {
                Json::Str(tag) => {
                    if *tag == "init".to_owned() {
                        match (
                            u64_field_exec(ms, &"msg_id".to_owned()),
                            str_field_exec(ms, &"node_id".to_owned()),
                            obj_find(ms, &"node_ids".to_owned()),
                        ) {
                            (Some(id), Some(nid), Some(idsj)) => match str_list_from(idsj) {
                                Some(ids) => Some(
                                    Init::Init {
                                        msg_id: id,
                                        node_id: nid.clone(),
                                        node_ids: ids,
                                    },
                                ),
                                None => None,
                            },
                            _ => None,
                        }
                    } else if *tag == "init_ok".to_owned() {
                        match (
                            u64_field_exec(ms, &"in_reply_to".to_owned()),
                            u64_field_exec(ms, &"msg_id".to_owned()),
                        ) {
                            (Some(irt), Some(id)) => Some(
                                Init::InitOk { in_reply_to: irt, msg_id: id },
                            ),
                            _ => None,
                        }
                    } else {
                        None
                    }
                },
                _ => None,
            },
            None => None,
        },
        _ => None,
    }
}

/// Tries to read a body as a protocol error message.
fn error_from_json(j: &Json) -> (r: Option<Error>)
    ensures
        match r {
            Some(e) => error_of_json(j@) == Some(e@),
            None => error_of_json(j@) == None::<ErrorV>,
        },
{
    match j {
        Json::Obj(ms) => match obj_find(ms, &"type".to_owned()) {
            Some(t) => match t {
                Json::Str(tag) => {
                    if *tag == "error".to_owned() {
                        match (
                            u64_field_exec(ms, &"in_reply_to".to_owned()),
                            u64_field_exec(ms, &"code".to_owned()),
                            str_field_exec(ms, &"text".to_owned()),
                        ) {
                            (Some(irt), Some(code), Some(text)) => Some(
                                Error { in_reply_to: irt, code, text: text.clone() },
                            ),
                            _ => None,
                        }
                    } else {
                        None
                    }
                },
                _ => None,
            },
            None => None,
        },
        _ => None,
    }
}

/// Reads a body, trying Workload, then Init, then Error, then taking the
/// value as an Application payload.
fn body_from_json(j: &Json, kind: WorkloadKind) -> (b: Body)
    ensures
        b@ == body_of_json(j@, kind),
{
    match workload_from_json(j, kind) {
        Some(w) => Body::Workload(w),
        None => match init_from_json(j) {
            Some(i) => Body::Init(i),
            None => match error_from_json(j) {
                Some(e) => Body::Error(e),
                None => Body::Application(crate::json::json_clone(j)),
            },
        },
    }
}

/// Reads a whole envelope from a JSON value.
pub fn msg_from_json(j: &Json, kind: WorkloadKind) -> (r: Option<Msg>)
    ensures
        match r {
            Some(m) => msg_of_json(j@, kind) == Some(m@),
            None => msg_of_json(j@, kind) == None::<MsgV>,
        },
{
    match j {
        Json::Obj(ms) => {
            match (
                str_field_exec(ms, &"src".to_owned()),
                str_field_exec(ms, &"dest".to_owned()),
                obj_find(ms, &"body".to_owned()),
            ) {
                (Some(src), Some(dest), Some(bj)) => Some(
                    Msg {
                        src: src.clone(),
                        dest: dest.clone(),
                        body: body_from_json(bj, kind),
                    },
                ),
                _ => None,
            }
        },
        _ => None,
    }
}

/// Decodes one line of wire text as an envelope.
///
/// Succeeds exactly on the lines [`decode_spec`] accepts: the line parses
/// as one JSON value of the envelope shape; the body is discriminated in
/// the priority order Workload, Init, Error, Application. Every other line
/// yields the deserialize error.
pub fn decode(line: &str, kind: WorkloadKind) -> (r: Result<Msg, crate::Error>)
    ensures
        match r {
            Ok(m) => decode_spec(line@, kind) == Some(m@),
            Err(e) => decode_spec(line@, kind) == None::<MsgV> && e == crate::Error::Deserialize,
        },
{
    match crate::json::json_from_str(line) {
        None => Err(crate::Error::Deserialize),
        Some(j) => match msg_from_json(&j, kind) {
            Some(m) => Ok(m),
            None => Err(crate::Error::Deserialize),
        },
    }
}


// ---------------------------------------------------------------------------
// Laws: the codec round-trips every constructible envelope
// ---------------------------------------------------------------------------

/// Lookup in a one-member object, written out.
proof fn lemma_lookup1(a: (Seq<char>, JsonV), k: Seq<char>)
    ensures
        lookup(seq![a], k) == if a.0 == k {
            Some(a.1)
        } else {
            None::<JsonV>
        },
{
    assert(seq![a].drop_first() =~= Seq::<(Seq<char>, JsonV)>::empty());
    assert(lookup(Seq::<(Seq<char>, JsonV)>::empty(), k) == None::<JsonV>);
}

/// Lookup in a two-member object, written out.
proof fn lemma_lookup2(a: (Seq<char>, JsonV), b: (Seq<char>, JsonV), k: Seq<char>)
    ensures
        lookup(seq![a, b], k) == if a.0 == k {
            Some(a.1)
        } else if b.0 == k {
            Some(b.1)
        } else {
            None::<JsonV>
        },
{
    assert(seq![a, b].drop_first() =~= seq![b]);
    lemma_lookup1(b, k);
}

/// Lookup in a three-member object, written out.
proof fn lemma_lookup3(a: (Seq<char>, JsonV), b: (Seq<char>, JsonV), c: (Seq<char>, JsonV), k: Seq<char>)
    ensures
        lookup(seq![a, b, c], k) == if a.0 == k {
            Some(a.1)
        } else if b.0 == k {
            Some(b.1)
        } else if c.0 == k {
            Some(c.1)
        } else {
            None::<JsonV>
        },
{
    assert(seq![a, b, c].drop_first() =~= seq![b, c]);
    lemma_lookup2(b, c, k);
}

/// Lookup in a four-member object, written out.
proof fn lemma_lookup4(
    a: (Seq<char>, JsonV),
    b: (Seq<char>, JsonV),
    c: (Seq<char>, JsonV),
    d: (Seq<char>, JsonV),
    k: Seq<char>,
)
    ensures
        lookup(seq![a, b, c, d], k) == if a.0 == k {
            Some(a.1)
        } else if b.0 == k {
            Some(b.1)
        } else if c.0 == k {
            Some(c.1)
        } else if d.0 == k {
            Some(d.1)
        } else {
            None::<JsonV>
        },
{
    assert(seq![a, b, c, d].drop_first() =~= seq![b, c, d]);
    lemma_lookup3(b, c, d, k);
}

/// Lookup in a five-member object, written out.
proof fn lemma_lookup5(
    a: (Seq<char>, JsonV),
    b: (Seq<char>, JsonV),
    c: (Seq<char>, JsonV),
    d: (Seq<char>, JsonV),
    e: (Seq<char>, JsonV),
    k: Seq<char>,
)
    ensures
        lookup(seq![a, b, c, d, e], k) == if a.0 == k {
            Some(a.1)
        } else if b.0 == k {
            Some(b.1)
        } else if c.0 == k {
            Some(c.1)
        } else if d.0 == k {
            Some(d.1)
        } else if e.0 == k {
            Some(e.1)
        } else {
            None::<JsonV>
        },
{
    assert(seq![a, b, c, d, e].drop_first() =~= seq![b, c, d, e]);
    lemma_lookup4(b, c, d, e, k);
}

/// Brings the views of every wire keyword into scope.
proof fn reveal_keywords()
    ensures
        "type"@ == seq!['t', 'y', 'p', 'e'],
        "type"@.len() == 4,
        "src"@ == seq!['s', 'r', 'c'],
        "src"@.len() == 3,
        "dest"@ == seq!['d', 'e', 's', 't'],
        "dest"@.len() == 4,
        "body"@ == seq!['b', 'o', 'd', 'y'],
        "body"@.len() == 4,
        "echo"@ == seq!['e', 'c', 'h', 'o'],
        "echo"@.len() == 4,
        "echo_ok"@ == seq!['e', 'c', 'h', 'o', '_', 'o', 'k'],
        "echo_ok"@.len() == 7,
        "msg_id"@ == seq!['m', 's', 'g', '_', 'i', 'd'],
        "msg_id"@.len() == 6,
        "in_reply_to"@ == seq!['i', 'n', '_', 'r', 'e', 'p', 'l', 'y', '_', 't', 'o'],
        "in_reply_to"@.len() == 11,
        "cas"@ == seq!['c', 'a', 's'],
        "cas"@.len() == 3,
        "cas_ok"@ == seq!['c', 'a', 's', '_', 'o', 'k'],
        "cas_ok"@.len() == 6,
        "read"@ == seq!['r', 'e', 'a', 'd'],
        "read"@.len() == 4,
        "read_ok"@ == seq!['r', 'e', 'a', 'd', '_', 'o', 'k'],
        "read_ok"@.len() == 7,
        "write"@ == seq!['w', 'r', 'i', 't', 'e'],
        "write"@.len() == 5,
        "write_ok"@ == seq!['w', 'r', 'i', 't', 'e', '_', 'o', 'k'],
        "write_ok"@.len() == 8,
        "add"@ == seq!['a', 'd', 'd'],
        "add"@.len() == 3,
        "delta"@ == seq!['d', 'e', 'l', 't', 'a'],
        "delta"@.len() == 5,
        "value"@ == seq!['v', 'a', 'l', 'u', 'e'],
        "value"@.len() == 5,
        "key"@ == seq!['k', 'e', 'y'],
        "key"@.len() == 3,
        "from"@ == seq!['f', 'r', 'o', 'm'],
        "from"@.len() == 4,
        "to"@ == seq!['t', 'o'],
        "to"@.len() == 2,
        "init"@ == seq!['i', 'n', 'i', 't'],
        "init"@.len() == 4,
        "init_ok"@ == seq!['i', 'n', 'i', 't', '_', 'o', 'k'],
        "init_ok"@.len() == 7,
        "node_id"@ == seq!['n', 'o', 'd', 'e', '_', 'i', 'd'],
        "node_id"@.len() == 7,
        "node_ids"@ == seq!['n', 'o', 'd', 'e', '_', 'i', 'd', 's'],
        "node_ids"@.len() == 8,
        "error"@ == seq!['e', 'r', 'r', 'o', 'r'],
        "error"@.len() == 5,
        "code"@ == seq!['c', 'o', 'd', 'e'],
        "code"@.len() == 4,
        "text"@ == seq!['t', 'e', 'x', 't'],
        "text"@.len() == 4,
{
    reveal_strlit("type");
    reveal_strlit("src");
    reveal_strlit("dest");
    reveal_strlit("body");
    reveal_strlit("echo");
    reveal_strlit("echo_ok");
    reveal_strlit("msg_id");
    reveal_strlit("in_reply_to");
    reveal_strlit("cas");
    reveal_strlit("cas_ok");
    reveal_strlit("read");
    reveal_strlit("read_ok");
    reveal_strlit("write");
    reveal_strlit("write_ok");
    reveal_strlit("add");
    reveal_strlit("delta");
    reveal_strlit("value");
    reveal_strlit("key");
    reveal_strlit("from");
    reveal_strlit("to");
    reveal_strlit("init");
    reveal_strlit("init_ok");
    reveal_strlit("node_id");
    reveal_strlit("node_ids");
    reveal_strlit("error");
    reveal_strlit("code");
    reveal_strlit("text");
}

/// Reading back a serialized membership list gives the same list.
proof fn lemma_ids_extract(ids: Seq<Seq<char>>)
    ensures
        as_str_list(ids_json(ids)) == Some(ids),
    decreases ids.len(),
{
    let es = ids_json(ids)->Arr_0;
    if ids.len() == 0 {
        assert(es.len() == 0);
    } else {
        lemma_ids_extract(ids.drop_first());
        assert(es[0] == JsonV::Str(ids[0]));
        assert(es.drop_first() =~= ids_json(ids.drop_first())->Arr_0);
        assert(seq![ids[0]] + ids.drop_first() =~= ids);
    }
}

/// Reading back a serialized workload body under its own family gives the
/// same body; the other categories reject it.
#[verifier::rlimit(100)]
proof fn lemma_workload_extract(w: WorkloadV)
    ensures
        workload_of_json(workload_json(w), workload_kind(w)) == Some(w),
        init_of_json(workload_json(w)) == None::<InitV>,
        error_of_json(workload_json(w)) == None::<ErrorV>,
{
    reveal_keywords();
    match w {
        WorkloadV::Echo(e) => match e {
            EchoV::Echo { msg_id, echo } => {
                let t = ("type"@, JsonV::Str("echo"@));
                let f1 = ("msg_id"@, u64_json(msg_id));
                let f2 = ("echo"@, echo);
                let ms = seq![t, f1, f2];
                assert(workload_json(w) == JsonV::Obj(ms));
                lemma_lookup3(t, f1, f2, "type"@);
                lemma_lookup3(t, f1, f2, "msg_id"@);
                lemma_lookup3(t, f1, f2, "echo"@);
                assert(echo_of(ms, "echo"@) == Some(w));
                assert(workload_of_json(workload_json(w), workload_kind(w)) == Some(w));
            },
            EchoV::EchoOk { in_reply_to, msg_id, echo } => match msg_id {
                Option::None => {
                    let t = ("type"@, JsonV::Str("echo_ok"@));
                    let f1 = ("in_reply_to"@, u64_json(in_reply_to));
                    let f2 = ("echo"@, echo);
                    let ms = seq![t, f1, f2];
                    assert(workload_json(w) == JsonV::Obj(ms));
                    lemma_lookup3(t, f1, f2, "type"@);
                    lemma_lookup3(t, f1, f2, "in_reply_to"@);
                    lemma_lookup3(t, f1, f2, "msg_id"@);
                    lemma_lookup3(t, f1, f2, "echo"@);
                    assert(echo_of(ms, "echo_ok"@) == Some(w));
                    assert(workload_of_json(workload_json(w), workload_kind(w)) == Some(w));
                },
                Option::Some(id) => {
                    let t = ("type"@, JsonV::Str("echo_ok"@));
                    let f1 = ("in_reply_to"@, u64_json(in_reply_to));
                    let f2 = ("msg_id"@, u64_json(id));
                    let f3 = ("echo"@, echo);
                    let ms = seq![t, f1, f2, f3];
                    assert(workload_json(w) == JsonV::Obj(ms));
                    lemma_lookup4(t, f1, f2, f3, "type"@);
                    lemma_lookup4(t, f1, f2, f3, "in_reply_to"@);
                    lemma_lookup4(t, f1, f2, f3, "msg_id"@);
                    lemma_lookup4(t, f1, f2, f3, "echo"@);
                    assert(echo_of(ms, "echo_ok"@) == Some(w));
                    assert(workload_of_json(workload_json(w), workload_kind(w)) == Some(w));
                },
            },
        },
        WorkloadV::LinKv(l) => match l {
            LinKvV::Cas { msg_id, key, from, to } => {
                let t = ("type"@, JsonV::Str("cas"@));
                let f1 = ("msg_id"@, u64_json(msg_id));
                let f2 = ("key"@, key);
                let f3 = ("from"@, from);
                let f4 = ("to"@, to);
                let ms = seq![t, f1, f2, f3, f4];
                assert(workload_json(w) == JsonV::Obj(ms));
                lemma_lookup5(t, f1, f2, f3, f4, "type"@);
                lemma_lookup5(t, f1, f2, f3, f4, "msg_id"@);
                lemma_lookup5(t, f1, f2, f3, f4, "key"@);
                lemma_lookup5(t, f1, f2, f3, f4, "from"@);
                lemma_lookup5(t, f1, f2, f3, f4, "to"@);
                assert(linkv_of(ms, "cas"@) == Some(w));
                assert(workload_of_json(workload_json(w), workload_kind(w)) == Some(w));
            },
            LinKvV::CasOk { in_reply_to, msg_id } => match msg_id {
                Option::None => {
                    let t = ("type"@, JsonV::Str("cas_ok"@));
                    let f1 = ("in_reply_to"@, u64_json(in_reply_to));
                    let ms = seq![t, f1];
                    assert(workload_json(w) == JsonV::Obj(ms));
                    lemma_lookup2(t, f1, "type"@);
                    lemma_lookup2(t, f1, "in_reply_to"@);
                    lemma_lookup2(t, f1, "msg_id"@);
                    assert(linkv_of(ms, "cas_ok"@) == Some(w));
                    assert(workload_of_json(workload_json(w), workload_kind(w)) == Some(w));
                },
                Option::Some(id) => {
                    let t = ("type"@, JsonV::Str("cas_ok"@));
                    let f1 = ("in_reply_to"@, u64_json(in_reply_to));
                    let f2 = ("msg_id"@, u64_json(id));
                    let ms = seq![t, f1, f2];
                    assert(workload_json(w) == JsonV::Obj(ms));
                    lemma_lookup3(t, f1, f2, "type"@);
                    lemma_lookup3(t, f1, f2, "in_reply_to"@);
                    lemma_lookup3(t, f1, f2, "msg_id"@);
                    assert(linkv_of(ms, "cas_ok"@) == Some(w));
                    assert(workload_of_json(workload_json(w), workload_kind(w)) == Some(w));
                },
            },
            LinKvV::Read { msg_id, key } => {
                let t = ("type"@, JsonV::Str("read"@));
                let f1 = ("msg_id"@, u64_json(msg_id));
                let f2 = ("key"@, key);
                let ms = seq![t, f1, f2];
                assert(workload_json(w) == JsonV::Obj(ms));
                lemma_lookup3(t, f1, f2, "type"@);
                lemma_lookup3(t, f1, f2, "msg_id"@);
                lemma_lookup3(t, f1, f2, "key"@);
                assert(linkv_of(ms, "read"@) == Some(w));
                assert(workload_of_json(workload_json(w), workload_kind(w)) == Some(w));
            },
            LinKvV::ReadOk { in_reply_to, msg_id, value } => match msg_id {
                Option::None => {
                    let t = ("type"@, JsonV::Str("read_ok"@));
                    let f1 = ("in_reply_to"@, u64_json(in_reply_to));
                    let f2 = ("value"@, value);
                    let ms = seq![t, f1, f2];
                    assert(workload_json(w) == JsonV::Obj(ms));
                    lemma_lookup3(t, f1, f2, "type"@);
                    lemma_lookup3(t, f1, f2, "in_reply_to"@);
                    lemma_lookup3(t, f1, f2, "msg_id"@);
                    lemma_lookup3(t, f1, f2, "value"@);
                    assert(linkv_of(ms, "read_ok"@) == Some(w));
                    assert(workload_of_json(workload_json(w), workload_kind(w)) == Some(w));
                },
                Option::Some(id) => {
                    let t = ("type"@, JsonV::Str("read_ok"@));
                    let f1 = ("in_reply_to"@, u64_json(in_reply_to));
                    let f2 = ("msg_id"@, u64_json(id));
                    let f3 = ("value"@, value);
                    let ms = seq![t, f1, f2, f3];
                    assert(workload_json(w) == JsonV::Obj(ms));
                    lemma_lookup4(t, f1, f2, f3, "type"@);
                    lemma_lookup4(t, f1, f2, f3, "in_reply_to"@);
                    lemma_lookup4(t, f1, f2, f3, "msg_id"@);
                    lemma_lookup4(t, f1, f2, f3, "value"@);
                    assert(linkv_of(ms, "read_ok"@) == Some(w));
                    assert(workload_of_json(workload_json(w), workload_kind(w)) == Some(w));
                },
            },
            LinKvV::Write { msg_id, key, value } => {
                let t = ("type"@, JsonV::Str("write"@));
                let f1 = ("msg_id"@, u64_json(msg_id));
                let f2 = ("key"@, key);
                let f3 = ("value"@, value);
                let ms = seq![t, f1, f2, f3];
                assert(workload_json(w) == JsonV::Obj(ms));
                lemma_lookup4(t, f1, f2, f3, "type"@);
                lemma_lookup4(t, f1, f2, f3, "msg_id"@);
                lemma_lookup4(t, f1, f2, f3, "key"@);
                lemma_lookup4(t, f1, f2, f3, "value"@);
                assert(linkv_of(ms, "write"@) == Some(w));
                assert(workload_of_json(workload_json(w), workload_kind(w)) == Some(w));
            },
            LinKvV::WriteOk { in_reply_to } => {
                let t = ("type"@, JsonV::Str("write_ok"@));
                let f1 = ("in_reply_to"@, u64_json(in_reply_to));
                let ms = seq![t, f1];
                assert(workload_json(w) == JsonV::Obj(ms));
                lemma_lookup2(t, f1, "type"@);
                lemma_lookup2(t, f1, "in_reply_to"@);
                assert(linkv_of(ms, "write_ok"@) == Some(w));
                assert(workload_of_json(workload_json(w), workload_kind(w)) == Some(w));
            },
        },
        WorkloadV::PnCounter(p) => match p {
            PnCounterV::Add { msg_id, delta } => {
                let t = ("type"@, JsonV::Str("add"@));
                let f1 = ("msg_id"@, u64_json(msg_id));
                let f2 = ("delta"@, i64_json(delta));
                let ms = seq![t, f1, f2];
                assert(workload_json(w) == JsonV::Obj(ms));
                lemma_lookup3(t, f1, f2, "type"@);
                lemma_lookup3(t, f1, f2, "msg_id"@);
                lemma_lookup3(t, f1, f2, "delta"@);
                assert(pn_of(ms, "add"@) == Some(w));
                assert(workload_of_json(workload_json(w), workload_kind(w)) == Some(w));
            },
            PnCounterV::Read { msg_id } => {
                let t = ("type"@, JsonV::Str("read"@));
                let f1 = ("msg_id"@, u64_json(msg_id));
                let ms = seq![t, f1];
                assert(workload_json(w) == JsonV::Obj(ms));
                lemma_lookup2(t, f1, "type"@);
                lemma_lookup2(t, f1, "msg_id"@);
                assert(pn_of(ms, "read"@) == Some(w));
                assert(workload_of_json(workload_json(w), workload_kind(w)) == Some(w));
            },
            PnCounterV::ReadOk { in_reply_to, msg_id, value } => match msg_id {
                Option::None => {
                    let t = ("type"@, JsonV::Str("read_ok"@));
                    let f1 = ("in_reply_to"@, u64_json(in_reply_to));
                    let f2 = ("value"@, i64_json(value));
                    let ms = seq![t, f1, f2];
                    assert(workload_json(w) == JsonV::Obj(ms));
                    lemma_lookup3(t, f1, f2, "type"@);
                    lemma_lookup3(t, f1, f2, "in_reply_to"@);
                    lemma_lookup3(t, f1, f2, "msg_id"@);
                    lemma_lookup3(t, f1, f2, "value"@);
                    assert(pn_of(ms, "read_ok"@) == Some(w));
                    assert(workload_of_json(workload_json(w), workload_kind(w)) == Some(w));
                },
                Option::Some(id) => {
                    let t = ("type"@, JsonV::Str("read_ok"@));
                    let f1 = ("in_reply_to"@, u64_json(in_reply_to));
                    let f2 = ("msg_id"@, u64_json(id));
                    let f3 = ("value"@, i64_json(value));
                    let ms = seq![t, f1, f2, f3];
                    assert(workload_json(w) == JsonV::Obj(ms));
                    lemma_lookup4(t, f1, f2, f3, "type"@);
                    lemma_lookup4(t, f1, f2, f3, "in_reply_to"@);
                    lemma_lookup4(t, f1, f2, f3, "msg_id"@);
                    lemma_lookup4(t, f1, f2, f3, "value"@);
                    assert(pn_of(ms, "read_ok"@) == Some(w));
                    assert(workload_of_json(workload_json(w), workload_kind(w)) == Some(w));
                },
            },
        },
    }
}

/// Reading back a serialized initialization body gives the same body; the
/// workload families and the error category reject it.
#[verifier::rlimit(100)]
proof fn lemma_init_extract(i: InitV)
    ensures
        init_of_json(init_json(i)) == Some(i),
        workload_of_json(init_json(i), WorkloadKind::Echo) == None::<WorkloadV>,
        workload_of_json(init_json(i), WorkloadKind::LinKv) == None::<WorkloadV>,
        workload_of_json(init_json(i), WorkloadKind::PnCounter) == None::<WorkloadV>,
        error_of_json(init_json(i)) == None::<ErrorV>,
{
    reveal_keywords();
    match i {
        InitV::Init { msg_id, node_id, node_ids } => {
            let t = ("type"@, JsonV::Str("init"@));
            let f1 = ("msg_id"@, u64_json(msg_id));
            let f2 = ("node_id"@, JsonV::Str(node_id));
            let f3 = ("node_ids"@, ids_json(node_ids));
            let ms = seq![t, f1, f2, f3];
            lemma_lookup4(t, f1, f2, f3, "type"@);
            lemma_lookup4(t, f1, f2, f3, "msg_id"@);
            lemma_lookup4(t, f1, f2, f3, "node_id"@);
            lemma_lookup4(t, f1, f2, f3, "node_ids"@);
            lemma_ids_extract(node_ids);
            assert(init_of_json(init_json(i)) == Some(i));
            assert(init_json(i) == JsonV::Obj(ms));
        },
        InitV::InitOk { in_reply_to, msg_id } => {
            let t = ("type"@, JsonV::Str("init_ok"@));
            let f1 = ("in_reply_to"@, u64_json(in_reply_to));
            let f2 = ("msg_id"@, u64_json(msg_id));
            let ms = seq![t, f1, f2];
            lemma_lookup3(t, f1, f2, "type"@);
            lemma_lookup3(t, f1, f2, "in_reply_to"@);
            lemma_lookup3(t, f1, f2, "msg_id"@);
            assert(init_of_json(init_json(i)) == Some(i));
            assert(init_json(i) == JsonV::Obj(ms));
        },
    }
}

/// Reading back a serialized error body gives the same body; the workload
/// families and the initialization category reject it.
proof fn lemma_error_extract(e: ErrorV)
    ensures
        error_of_json(error_json(e)) == Some(e),
        workload_of_json(error_json(e), WorkloadKind::Echo) == None::<WorkloadV>,
        workload_of_json(error_json(e), WorkloadKind::LinKv) == None::<WorkloadV>,
        workload_of_json(error_json(e), WorkloadKind::PnCounter) == None::<WorkloadV>,
        init_of_json(error_json(e)) == None::<InitV>,
{
    reveal_keywords();
    let t = ("type"@, JsonV::Str("error"@));
    let f1 = ("in_reply_to"@, u64_json(e.in_reply_to));
    let f2 = ("code"@, u64_json(e.code));
    let f3 = ("text"@, JsonV::Str(e.text));
    lemma_lookup4(t, f1, f2, f3, "type"@);
    lemma_lookup4(t, f1, f2, f3, "in_reply_to"@);
    lemma_lookup4(t, f1, f2, f3, "code"@);
    lemma_lookup4(t, f1, f2, f3, "text"@);
}

/// A body whose serialization can be mistaken for no other category reads
/// back as itself. A workload body must be read under its own family, and
/// an application payload must not alias any built-in category.
pub open spec fn body_unambiguous(b: BodyV, kind: WorkloadKind) -> bool {
    match b {
        BodyV::Application(j) => workload_of_json(j, kind) == None::<WorkloadV>
            && init_of_json(j) == None::<InitV> && error_of_json(j) == None::<ErrorV>,
        BodyV::Workload(w) => workload_kind(w) == kind,
        BodyV::Error(_) => true,
        BodyV::Init(_) => true,
    }
}

/// The payloads the codec can carry: every embedded JSON value must be
/// representable on the wire.
pub open spec fn wf_body(b: BodyV) -> bool {
    match b {
        BodyV::Application(j) => crate::json::wf_json(j),
        BodyV::Error(_) => true,
        BodyV::Init(_) => true,
        BodyV::Workload(w) => match w {
            WorkloadV::Echo(e) => match e {
                EchoV::Echo { echo, .. } => crate::json::wf_json(echo),
                EchoV::EchoOk { echo, .. } => crate::json::wf_json(echo),
            },
            WorkloadV::LinKv(l) => match l {
                LinKvV::Cas { key, from, to, .. } => crate::json::wf_json(key)
                    && crate::json::wf_json(from) && crate::json::wf_json(to),
                LinKvV::CasOk { .. } => true,
                LinKvV::Read { key, .. } => crate::json::wf_json(key),
                LinKvV::ReadOk { value, .. } => crate::json::wf_json(value),
                LinKvV::Write { key, value, .. } => crate::json::wf_json(key)
                    && crate::json::wf_json(value),
                LinKvV::WriteOk { .. } => true,
            },
            WorkloadV::PnCounter(_) => true,
        },
    }
}

/// The envelopes the codec round-trips.
pub open spec fn wf_msg(m: MsgV) -> bool {
    wf_body(m.body)
}

/// Every element of a sequence of well-formed values makes a well-formed
/// array body.
proof fn lemma_wf_items_all(es: Seq<JsonV>)
    requires
        forall|i: int| 0 <= i < es.len() ==> crate::json::wf_json(#[trigger] es[i]),
    ensures
        crate::json::wf_items(es),
    decreases es.len(),
{
    if es.len() > 0 {
        assert(forall|i: int|
            0 <= i < es.drop_first().len() ==> #[trigger] es.drop_first()[i] == es[i + 1]);
        lemma_wf_items_all(es.drop_first());
    }
}

/// Every member holding a well-formed value makes a well-formed object.
proof fn lemma_wf_members_all(ms: Seq<(Seq<char>, JsonV)>)
    requires
        forall|i: int| 0 <= i < ms.len() ==> crate::json::wf_json(#[trigger] ms[i].1),
    ensures
        crate::json::wf_members(ms),
    decreases ms.len(),
{
    if ms.len() > 0 {
        assert(forall|i: int|
            0 <= i < ms.drop_first().len() ==> #[trigger] ms.drop_first()[i] == ms[i + 1]);
        lemma_wf_members_all(ms.drop_first());
    }
}

/// The JSON object of a well-formed envelope is well formed, so the line
/// codec round-trips it.
proof fn lemma_msg_json_wf(m: MsgV)
    requires
        wf_msg(m),
    ensures
        crate::json::wf_json(msg_json(m)),
{
    let bj = body_json(m.body);
    assert(crate::json::wf_json(bj)) by {
        match m.body {
            BodyV::Application(_) => {},
            BodyV::Error(e) => {
                lemma_wf_members_all(error_json(e)->Obj_0);
            },
            BodyV::Init(i) => {
                match i {
                    InitV::Init { node_ids, .. } => {
                        let es = ids_json(node_ids)->Arr_0;
                        assert(forall|k: int|
                            0 <= k < es.len() ==> crate::json::wf_json(#[trigger] es[k]));
                        lemma_wf_items_all(es);
                        lemma_wf_members_all(init_json(i)->Obj_0);
                    },
                    InitV::InitOk { .. } => {
                        lemma_wf_members_all(init_json(i)->Obj_0);
                    },
                }
            },
            BodyV::Workload(w) => {
                lemma_wf_members_all(workload_json(w)->Obj_0);
            },
        }
    }
    lemma_wf_members_all(msg_json(m)->Obj_0);
}

/// Reading back the JSON object of an envelope gives the envelope.
proof fn lemma_msg_extract(m: MsgV, kind: WorkloadKind)
    requires
        body_unambiguous(m.body, kind),
    ensures
        msg_of_json(msg_json(m), kind) == Some(m),
{
    reveal_keywords();
    let t0 = ("src"@, JsonV::Str(m.src));
    let t1 = ("dest"@, JsonV::Str(m.dest));
    let t2 = ("body"@, body_json(m.body));
    lemma_lookup3(t0, t1, t2, "src"@);
    lemma_lookup3(t0, t1, t2, "dest"@);
    lemma_lookup3(t0, t1, t2, "body"@);
    match m.body {
        BodyV::Application(_) => {},
        BodyV::Error(e) => {
            lemma_error_extract(e);
            match kind {
                WorkloadKind::Echo => {},
                WorkloadKind::LinKv => {},
                WorkloadKind::PnCounter => {},
            }
        },
        BodyV::Init(i) => {
            lemma_init_extract(i);
            match kind {
                WorkloadKind::Echo => {},
                WorkloadKind::LinKv => {},
                WorkloadKind::PnCounter => {},
            }
        },
        BodyV::Workload(w) => {
            lemma_workload_extract(w);
        },
    }
}

/// Round trip: decoding the encoding of any well-formed, unambiguous
/// envelope under its own workload family yields exactly that envelope.
///
/// A workload body must be decoded under its own family, and an application
/// payload must not structurally alias a built-in category; both caveats
/// are inherent in the untagged wire format.
pub proof fn lemma_round_trip(m: MsgV, kind: WorkloadKind)
    requires
        wf_msg(m),
        body_unambiguous(m.body, kind),
    ensures
        decode_spec(encode_spec(m), kind) == Some(m),
{
    lemma_msg_json_wf(m);
    crate::json::lemma_jparse_jser(msg_json(m));
    lemma_msg_extract(m, kind);
}

/// Optional field omission: a response without a self-assigned id writes no
/// `msg_id` member at all, and one with an id writes it exactly.
pub proof fn lemma_optional_id_omission(in_reply_to: MsgId, id: MsgId, echo: JsonV)
    ensures
        forall|k: int|
            0 <= k < echo_json(
                EchoV::EchoOk { in_reply_to, msg_id: Option::None, echo },
            )->Obj_0.len() ==> #[trigger] echo_json(
                EchoV::EchoOk { in_reply_to, msg_id: Option::None, echo },
            )->Obj_0[k].0 != "msg_id"@,
        lookup(
            echo_json(EchoV::EchoOk { in_reply_to, msg_id: Option::Some(id), echo })->Obj_0,
            "msg_id"@,
        ) == Some(u64_json(id)),
{
    reveal_keywords();
    let ms = echo_json(EchoV::EchoOk { in_reply_to, msg_id: Option::None, echo })->Obj_0;
    assert(ms[0].0 == "type"@ && ms[1].0 == "in_reply_to"@ && ms[2].0 == "echo"@);
    let t = ("type"@, JsonV::Str("echo_ok"@));
    let f1 = ("in_reply_to"@, u64_json(in_reply_to));
    let f2 = ("msg_id"@, u64_json(id));
    let f3 = ("echo"@, echo);
    lemma_lookup4(t, f1, f2, f3, "msg_id"@);
}

/// Discrimination order: a body that reads as a tagged workload message is
/// routed to the workload category, never to the application one.
pub proof fn lemma_discrimination_workload(v: JsonV, kind: WorkloadKind, w: WorkloadV)
    requires
        workload_of_json(v, kind) == Some(w),
    ensures
        body_of_json(v, kind) == BodyV::Workload(w),
{
}

/// Discrimination order: a body that no built-in category accepts is routed
/// to the application category, unchanged.
pub proof fn lemma_discrimination_application(v: JsonV, kind: WorkloadKind)
    requires
        workload_of_json(v, kind) == None::<WorkloadV>,
        init_of_json(v) == None::<InitV>,
        error_of_json(v) == None::<ErrorV>,
    ensures
        body_of_json(v, kind) == BodyV::Application(v),
{
}






/// Every envelope the executable types can hold is well formed: the codec
/// round-trips it outright, with only the ambiguity caveats left.
pub proof fn lemma_exec_msg_wf(m: Msg)
    ensures
        wf_msg(m@),
{
    match m.body {
        Body::Application(j) => {
            crate::json::lemma_json_view_wf(j);
        },
        Body::Error(_) => {},
        Body::Init(_) => {},
        Body::Workload(w) => match w {
            Workload::Echo(e) => match e {
                Echo::Echo { echo, .. } => crate::json::lemma_json_view_wf(echo),
                Echo::EchoOk { echo, .. } => crate::json::lemma_json_view_wf(echo),
            },
            Workload::LinKv(l) => match l {
                LinKv::Cas { key, from, to, .. } => {
                    crate::json::lemma_json_view_wf(key);
                    crate::json::lemma_json_view_wf(from);
                    crate::json::lemma_json_view_wf(to);
                },
                LinKv::CasOk { .. } => {},
                LinKv::Read { key, .. } => crate::json::lemma_json_view_wf(key),
                LinKv::ReadOk { value, .. } => crate::json::lemma_json_view_wf(value),
                LinKv::Write { key, value, .. } => {
                    crate::json::lemma_json_view_wf(key);
                    crate::json::lemma_json_view_wf(value);
                },
                LinKv::WriteOk { .. } => {},
            },
            Workload::PnCounter(_) => {},
        },
    }
}

} // verus!
