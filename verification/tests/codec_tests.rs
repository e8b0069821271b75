//! Wire codec tests: decoding orchestrator lines, encoding replies, and
//! the round-trip and discrimination behaviour of the envelope format.

use maelstrom_node::json::{json_from_str, Json, JsonNum};
use maelstrom_node::msg::{decode, encode, Body, Echo, Init, LinKv, Msg, PnCounter, Workload, WorkloadKind};

fn num(n: u64) -> Json {
    Json::Num(JsonNum { neg: false, mag: n })
}

fn s(t: &str) -> String {
    t.to_string()
}

/// Decodes `buf` twice, encodes one copy, decodes the result and checks it
/// equals the other copy: the codec preserves the message.
fn assert_line_round_trips(buf: &str, kind: WorkloadKind) {
    let once = decode(buf, kind).expect("message");
    let again = decode(buf, kind).expect("message");
    let line = encode(once);
    let back = decode(&line, kind).expect("re-decoded message");
    assert_eq!(again, back, "round trip changed the message on line {}", line);
}

#[test]
fn serde_cas_msg() {
    let buf = r#"{"dest":"n1","body":{"key":0,"from":4,"to":2,"type":"cas","msg_id":1},"src":"c11","id":11}"#;
    let msg = decode(buf, WorkloadKind::LinKv).expect("message");
    if let Msg {
        src,
        dest,
        body: Body::Workload(Workload::LinKv(LinKv::Cas { msg_id, key, from, to })),
    } = &msg
    {
        assert_eq!(dest, "n1");
        assert_eq!(src, "c11");
        assert_eq!(key, &num(0));
        assert_eq!(from, &num(4));
        assert_eq!(to, &num(2));
        assert_eq!(*msg_id, 1);
    } else {
        panic!("expected cas message")
    }
    assert_line_round_trips(buf, WorkloadKind::LinKv);
}

#[test]
fn serde_cas_ok_msg() {
    let buf = r#"{"dest":"n1","body":{ "type": "cas_ok", "in_reply_to": 1 },"src":"c11","id":11}"#;
    let msg = decode(buf, WorkloadKind::LinKv).expect("message");
    if let Msg {
        src,
        dest,
        body: Body::Workload(Workload::LinKv(LinKv::CasOk { in_reply_to, msg_id })),
    } = &msg
    {
        assert_eq!(dest, "n1");
        assert_eq!(src, "c11");
        assert_eq!(*in_reply_to, 1);
        assert_eq!(msg_id, &None);
    } else {
        panic!("expected cas_ok message")
    }
    assert_line_round_trips(buf, WorkloadKind::LinKv);
}

#[test]
fn serde_echo_msg() {
    let buf = r#"{"dest":"n1","body":{"echo":"Please echo 36","type":"echo","msg_id":1},"src":"c10","id":10}"#;
    let msg = decode(buf, WorkloadKind::Echo).expect("echo message");
    if let Msg {
        src,
        dest,
        body: Body::Workload(Workload::Echo(Echo::Echo { msg_id, echo })),
    } = &msg
    {
        assert_eq!(dest, "n1");
        assert_eq!(src, "c10");
        assert_eq!(echo, &Json::Str(s("Please echo 36")));
        assert_eq!(*msg_id, 1);
    } else {
        panic!("expected echo message")
    }
    assert_line_round_trips(buf, WorkloadKind::Echo);
}

#[test]
fn serde_init_msg() {
    let buf = r#"{"dest":"n1","body":{"type":"init","node_id":"n1","node_ids":["n1","n2","n3","n4","n5"],"msg_id":1},"src":"c4","id":4}"#;
    let msg = decode(buf, WorkloadKind::Echo).expect("message");
    if let Msg {
        src,
        dest,
        body: Body::Init(Init::Init { msg_id, node_id, node_ids }),
    } = &msg
    {
        assert_eq!(dest, "n1");
        assert_eq!(src, "c4");
        assert_eq!(node_id, "n1");
        assert_eq!(
            node_ids,
            &vec!["n1", "n2", "n3", "n4", "n5"]
                .iter()
                .map(|t| t.to_string())
                .collect::<Vec<_>>()
        );
        assert_eq!(*msg_id, 1);
    } else {
        panic!("expected init message")
    }
    assert_line_round_trips(buf, WorkloadKind::Echo);
}

#[test]
fn serde_init_ok_msg() {
    let buf = r#"{"src":"n1","dest":"c4","body":{"type":"init_ok","in_reply_to":1,"msg_id":0}}"#;
    let msg = decode(buf, WorkloadKind::Echo).expect("message");
    if let Msg {
        src,
        dest,
        body: Body::Init(Init::InitOk { in_reply_to, msg_id }),
    } = &msg
    {
        assert_eq!(dest, "c4");
        assert_eq!(src, "n1");
        assert_eq!(*in_reply_to, 1);
        assert_eq!(*msg_id, 0);
    } else {
        panic!("expected init_ok message, got {:?}", msg);
    }
    assert_line_round_trips(buf, WorkloadKind::Echo);
}

#[test]
fn serde_linkv_read_msg() {
    let buf = r#"{"dest":"n4","body":{"key":0,"type":"read","msg_id":1},"src":"c10","id":10}"#;
    let msg = decode(buf, WorkloadKind::LinKv).expect("message");
    if let Msg {
        src,
        dest,
        body: Body::Workload(Workload::LinKv(LinKv::Read { msg_id, key })),
    } = &msg
    {
        assert_eq!(dest, "n4");
        assert_eq!(src, "c10");
        assert_eq!(key, &num(0));
        assert_eq!(*msg_id, 1);
    } else {
        panic!("expected read message");
    }
    assert_line_round_trips(buf, WorkloadKind::LinKv);
}

#[test]
fn serde_linkv_read_ok_msg() {
    let buf = r#"{"dest":"n4","body":{"type": "read_ok", "value": 1, "msg_id": 0 , "in_reply_to": 2},"src":"c10","id":10}"#;
    let msg = decode(buf, WorkloadKind::LinKv).expect("message");
    if let Msg {
        src,
        dest,
        body: Body::Workload(Workload::LinKv(LinKv::ReadOk { in_reply_to, msg_id, value })),
    } = &msg
    {
        assert_eq!(dest, "n4");
        assert_eq!(src, "c10");
        assert_eq!(value, &num(1));
        assert_eq!(msg_id, &Some(0));
        assert_eq!(*in_reply_to, 2);
    } else {
        panic!("expected read message");
    }
    assert_line_round_trips(buf, WorkloadKind::LinKv);
}

#[test]
fn serde_pn_read_msg() {
    let buf = r#"{"dest":"n1","body":{"type":"read","msg_id":1},"src":"c10","id":10}"#;
    let msg = decode(buf, WorkloadKind::PnCounter).expect("message");
    if let Msg {
        src,
        dest,
        body: Body::Workload(Workload::PnCounter(PnCounter::Read { msg_id })),
    } = &msg
    {
        assert_eq!(dest, "n1");
        assert_eq!(src, "c10");
        assert_eq!(*msg_id, 1);
    } else {
        panic!("expected read message");
    }
    assert_line_round_trips(buf, WorkloadKind::PnCounter);
}

#[test]
fn serde_pncounter_read_ok_msg() {
    let buf = r#"{"dest":"n1","body":{"type":"read_ok","value":1,"msg_id": 2,"in_reply_to":0},"src":"c10","id":10}"#;
    let msg = decode(buf, WorkloadKind::PnCounter).expect("message");
    if let Msg {
        src,
        dest,
        body: Body::Workload(Workload::PnCounter(PnCounter::ReadOk { in_reply_to, msg_id, value })),
    } = &msg
    {
        assert_eq!(dest, "n1");
        assert_eq!(src, "c10");
        assert_eq!(value, &1);
        assert_eq!(msg_id, &Some(2));
        assert_eq!(*in_reply_to, 0);
    } else {
        panic!("expected read message");
    }
    assert_line_round_trips(buf, WorkloadKind::PnCounter);
}

fn typed_payload(tag: &str) -> Json {
    Json::Obj(vec![
        (s("type"), Json::Str(s(tag))),
        (s("id"), num(0x2a)),
        (s("value"), Json::Str(s("boo"))),
    ])
}

fn untyped_payload_bar() -> Json {
    Json::Obj(vec![(s("id"), num(0x2a)), (s("value"), Json::Str(s("boo")))])
}

fn untyped_payload_baz() -> Json {
    Json::Obj(vec![(s("key"), num(0x2a)), (s("value"), Json::Str(s("boo")))])
}

fn assert_application_round_trips(payload: Json) {
    let payload_copy = maelstrom_node::json::json_clone(&payload);
    let m = Msg { src: s("A"), dest: s("B"), body: Body::Application(payload) };
    let data = encode(m);
    println!("{}", data);
    let de_m = decode(&data, WorkloadKind::Echo).expect("envelope");
    let de_body = match de_m.body {
        Body::Application(body) => body,
        other => panic!("expected node body, got {:?}", other),
    };
    assert_eq!(
        &payload_copy, &de_body,
        "expected payload={:?} from data={}, but got {:?}",
        payload_copy, data, de_body
    );
}

#[test]
fn serde_typed_bar() {
    assert_application_round_trips(typed_payload("bar"));
}

#[test]
fn serde_typed_baz() {
    assert_application_round_trips(typed_payload("baz"));
}

#[test]
fn serde_untyped_bar() {
    assert_application_round_trips(untyped_payload_bar());
}

#[test]
fn serde_untyped_baz() {
    assert_application_round_trips(untyped_payload_baz());
}

/// The envelope text is not itself the payload: parsing the whole line
/// yields the envelope object, never the bare application value.
#[test]
fn serde_untyped_into_typed() {
    let bar = untyped_payload_bar();
    let bar_copy = maelstrom_node::json::json_clone(&bar);
    let m = Msg { src: s("A"), dest: s("B"), body: Body::Application(bar) };
    let data = encode(m);
    println!("{}", data);
    let parsed = json_from_str(&data).expect("JSON data");
    if parsed == bar_copy {
        assert!(false, "invalid deserialization");
    }
}

/// A line that carries a tagged workload body decodes into that workload
/// variant, although the same object would also be a fine application
/// payload; the same line under another family falls through to the
/// application category.
#[test]
fn discrimination_prefers_workload_over_application() {
    let buf = r#"{"src":"c1","dest":"n1","body":{"type":"echo","msg_id":7,"echo":"hi"}}"#;
    let under_echo = decode(buf, WorkloadKind::Echo).expect("message");
    assert!(matches!(
        under_echo.body,
        Body::Workload(Workload::Echo(Echo::Echo { msg_id: 7, .. }))
    ));
    let under_linkv = decode(buf, WorkloadKind::LinKv).expect("message");
    match under_linkv.body {
        Body::Application(Json::Obj(_)) => {}
        other => panic!("expected application body, got {:?}", other),
    }
}

/// An application payload without any built-in tag lands in the
/// application category.
#[test]
fn discrimination_application_only_payload() {
    let buf = r#"{"src":"n2","dest":"n1","body":{"gossip":[1,2,3]}}"#;
    let m = decode(buf, WorkloadKind::Echo).expect("message");
    match m.body {
        Body::Application(Json::Obj(members)) => {
            assert_eq!(members.len(), 1);
            assert_eq!(members[0].0, "gossip");
        }
        other => panic!("expected application body, got {:?}", other),
    }
}

/// An absent optional identifier is omitted from the wire text entirely;
/// a present one is written exactly.
#[test]
fn optional_msg_id_omitted_not_null() {
    let without = Msg {
        src: s("n1"),
        dest: s("c1"),
        body: Body::Workload(Workload::Echo(Echo::EchoOk {
            in_reply_to: 1,
            msg_id: None,
            echo: Json::Str(s("hi")),
        })),
    };
    let line = encode(without);
    assert_eq!(
        line,
        r#"{"src":"n1","dest":"c1","body":{"type":"echo_ok","in_reply_to":1,"echo":"hi"}}"#
    );
    assert!(!line.contains("msg_id"));
    assert!(!line.contains("null"));

    let with = Msg {
        src: s("n1"),
        dest: s("c1"),
        body: Body::Workload(Workload::Echo(Echo::EchoOk {
            in_reply_to: 1,
            msg_id: Some(5),
            echo: Json::Str(s("hi")),
        })),
    };
    let line = encode(with);
    assert_eq!(
        line,
        r#"{"src":"n1","dest":"c1","body":{"type":"echo_ok","in_reply_to":1,"msg_id":5,"echo":"hi"}}"#
    );
}

/// The error body round-trips with its code and text.
#[test]
fn error_body_round_trips() {
    let m = Msg {
        src: s("n1"),
        dest: s("c1"),
        body: Body::Error(maelstrom_node::msg::Error {
            in_reply_to: 9,
            code: 11,
            text: s("temporarily unavailable"),
        }),
    };
    let line = encode(m);
    assert_eq!(
        line,
        r#"{"src":"n1","dest":"c1","body":{"type":"error","in_reply_to":9,"code":11,"text":"temporarily unavailable"}}"#
    );
    let back = decode(&line, WorkloadKind::Echo).expect("message");
    match back.body {
        Body::Error(e) => {
            assert_eq!(e.in_reply_to, 9);
            assert_eq!(e.code, 11);
            assert_eq!(e.text, "temporarily unavailable");
        }
        other => panic!("expected error body, got {:?}", other),
    }
}

/// Numbers at the edges of the range, and negatives, keep their exact
/// decimal text.
#[test]
fn number_encoding_exact() {
    let m = Msg {
        src: s("a"),
        dest: s("b"),
        body: Body::Application(Json::Arr(vec![
            num(0),
            num(18446744073709551615),
            Json::Num(JsonNum { neg: true, mag: 1 }),
            Json::Num(JsonNum { neg: true, mag: 9223372036854775808 }),
        ])),
    };
    let line = encode(m);
    assert_eq!(
        line,
        r#"{"src":"a","dest":"b","body":[0,18446744073709551615,-1,-9223372036854775808]}"#
    );
    let back = decode(&line, WorkloadKind::Echo).expect("message");
    match back.body {
        Body::Application(Json::Arr(es)) => {
            assert_eq!(es.len(), 4);
            assert_eq!(es[0], num(0));
            assert_eq!(es[1], num(18446744073709551615));
            assert_eq!(es[2], Json::Num(JsonNum { neg: true, mag: 1 }));
            assert_eq!(es[3], Json::Num(JsonNum { neg: true, mag: 9223372036854775808 }));
        }
        other => panic!("expected array body, got {:?}", other),
    }
}

/// Strings with quotes, backslashes and control characters are escaped on
/// the way out and unescaped on the way back.
#[test]
fn string_escapes_round_trip() {
    let tricky = "say \"hi\"\\\n\tdone\u{8}\u{c}\r";
    let m = Msg {
        src: s("a"),
        dest: s("b"),
        body: Body::Application(Json::Str(s(tricky))),
    };
    let line = encode(m);
    assert_eq!(
        line,
        "{\"src\":\"a\",\"dest\":\"b\",\"body\":\"say \\\"hi\\\"\\\\\\n\\tdone\\b\\f\\r\"}"
    );
    assert!(!line.contains('\n'));
    let back = decode(&line, WorkloadKind::Echo).expect("message");
    match back.body {
        Body::Application(Json::Str(t)) => assert_eq!(t, tricky),
        other => panic!("expected string body, got {:?}", other),
    }
}

/// Malformed or non-envelope lines fail with the deserialize error.
#[test]
fn malformed_lines_are_deserialize_errors() {
    let cases = [
        "",
        "not json",
        "{\"src\":\"a\"",
        "[1,2,3]",
        r#"{"src":"a","dest":"b"}"#,
        r#"{"src":1,"dest":"b","body":{}}"#,
        r#"{"src":"a","dest":"b","body":{}} trailing"#,
        r#"{"src":"a","dest":"b","body":1.5}"#,
        r#"{"src":"a","dest":"b","body":18446744073709551616}"#,
    ];
    for buf in cases {
        match decode(buf, WorkloadKind::Echo) {
            Err(maelstrom_node::Error::Deserialize) => {}
            other => panic!("expected deserialize error for {:?}, got {:?}", buf, other),
        }
    }
}

/// Whitespace between tokens is accepted and does not change the message.
#[test]
fn whitespace_tolerated() {
    let buf = "  { \"src\" : \"c1\" , \"dest\" : \"n1\" , \"body\" : { \"type\" : \"echo\" , \"msg_id\" : 1 , \"echo\" : [ true , false , null ] } }  ";
    let m = decode(buf, WorkloadKind::Echo).expect("message");
    match m.body {
        Body::Workload(Workload::Echo(Echo::Echo { msg_id, echo })) => {
            assert_eq!(msg_id, 1);
            assert_eq!(echo, Json::Arr(vec![Json::Bool(true), Json::Bool(false), Json::Null]));
        }
        other => panic!("expected echo, got {:?}", other),
    }
}

/// The handshake reply and request bodies keep the membership array in
/// order, with exact wire text.
#[test]
fn init_encoding_exact() {
    let m = Msg {
        src: s("c4"),
        dest: s("n1"),
        body: Body::Init(Init::Init {
            msg_id: 1,
            node_id: s("n1"),
            node_ids: vec![s("n1"), s("n2"), s("n3")],
        }),
    };
    let line = encode(m);
    assert_eq!(
        line,
        r#"{"src":"c4","dest":"n1","body":{"type":"init","msg_id":1,"node_id":"n1","node_ids":["n1","n2","n3"]}}"#
    );
}

/// A counter body with a negative delta keeps its sign through the codec.
#[test]
fn pn_add_negative_delta_round_trips() {
    let m = Msg {
        src: s("c1"),
        dest: s("n1"),
        body: Body::Workload(Workload::PnCounter(PnCounter::Add { msg_id: 4, delta: -17 })),
    };
    let line = encode(m);
    assert_eq!(
        line,
        r#"{"src":"c1","dest":"n1","body":{"type":"add","msg_id":4,"delta":-17}}"#
    );
    let back = decode(&line, WorkloadKind::PnCounter).expect("message");
    match back.body {
        Body::Workload(Workload::PnCounter(PnCounter::Add { msg_id, delta })) => {
            assert_eq!(msg_id, 4);
            assert_eq!(delta, -17);
        }
        other => panic!("expected add, got {:?}", other),
    }
}
