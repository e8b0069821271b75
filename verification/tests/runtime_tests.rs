//! Runtime tests: the handshake, the echo exchange over the pipeline,
//! backpressure and shutdown.

use maelstrom_node::json::Json;
use maelstrom_node::msg::{decode, Body, Echo, Init, Msg, Workload, WorkloadKind};
use maelstrom_node::runtime::{EgressOutcome, IngressOutcome, ProcRecv, Runtime};
use maelstrom_node::Error;

fn s(t: &str) -> String {
    t.to_string()
}

/// The handshake of the design's own example: the reply line, the
/// identity, the membership and the next free identifier are exact.
#[test]
fn handshake_contract() {
    let line = r#"{"src":"c1","dest":"n1","body":{"type":"init","msg_id":1,"node_id":"n1","node_ids":["n1","n2"]}}"#;
    let (rt, reply) = Runtime::new(line, WorkloadKind::Echo).expect("runtime");
    assert_eq!(
        reply,
        r#"{"src":"n1","dest":"c1","body":{"type":"init_ok","in_reply_to":1,"msg_id":0}}"#
    );
    assert_eq!(rt.id, "n1");
    assert_eq!(rt.ids, vec![s("n1"), s("n2")]);
    assert_eq!(rt.next_msg_id, 1);
}

/// A first line whose body is not the init request fails construction.
#[test]
fn non_init_first_line_fails() {
    let echo_line = r#"{"src":"c1","dest":"n1","body":{"type":"echo","msg_id":1,"echo":"hi"}}"#;
    match Runtime::new(echo_line, WorkloadKind::Echo) {
        Err(Error::UnexpectedMsg { expected }) => assert_eq!(expected, "Init"),
        other => panic!("expected unexpected-message error, got {:?}", other),
    }
    let init_ok_line = r#"{"src":"c1","dest":"n1","body":{"type":"init_ok","in_reply_to":1,"msg_id":0}}"#;
    match Runtime::new(init_ok_line, WorkloadKind::Echo) {
        Err(Error::UnexpectedMsg { expected }) => assert_eq!(expected, "Init"),
        other => panic!("expected unexpected-message error, got {:?}", other),
    }
    match Runtime::new("not json at all", WorkloadKind::Echo) {
        Err(Error::Deserialize) => {}
        other => panic!("expected deserialize error, got {:?}", other),
    }
}

fn handshaken() -> Runtime {
    let line = r#"{"src":"test","dest":"a","body":{"type":"init","msg_id":0,"node_id":"a","node_ids":["a"]}}"#;
    let (rt, _reply) = Runtime::new(line, WorkloadKind::Echo).expect("new runtime");
    rt
}

/// One step of the echo process: receive a request, queue the reply.
fn echo_process_step(rt: &mut Runtime) -> Result<bool, Error> {
    match rt.proc_recv()? {
        ProcRecv::Waiting => Ok(false),
        ProcRecv::Received(Msg {
            src,
            body: Body::Workload(Workload::Echo(Echo::Echo { msg_id, echo })),
            ..
        }) => {
            let id = rt.id.clone();
            let reply = Msg {
                src: id,
                dest: src,
                body: Body::Workload(Workload::Echo(Echo::EchoOk {
                    in_reply_to: msg_id,
                    msg_id: None,
                    echo,
                })),
            };
            match rt.proc_send(reply)? {
                maelstrom_node::runtime::ProcSend::Sent => Ok(true),
                maelstrom_node::runtime::ProcSend::Blocked(_) => panic!("outbound full"),
            }
        }
        ProcRecv::Received(other) => panic!("unexpected message type: {:?}", other),
    }
}

/// The whole pipeline, driven deterministically: handshake, then five
/// echo requests answered in order, then shutdown.
#[test]
fn test_runtime() {
    let a = s("a");
    let test = s("test");
    let init_line = format!(
        r#"{{"src":"{}","dest":"{}","body":{{"type":"init","msg_id":0,"node_id":"{}","node_ids":["{}"]}}}}"#,
        test, a, a, a
    );
    let (mut rt, init_ok_data) = Runtime::new(&init_line, WorkloadKind::Echo).expect("new runtime");

    // The runtime replies with init_ok before any loop runs.
    if let Msg {
        src,
        dest,
        body: Body::Init(Init::InitOk { in_reply_to, .. }),
    } = decode(&init_ok_data, WorkloadKind::Echo).expect("deserialized init_ok")
    {
        assert_eq!(in_reply_to, 0);
        assert_eq!(dest, test);
        assert_eq!(src, a);
    } else {
        panic!("expected init_ok")
    }

    // Send echo requests and receive responses, in order.
    for msg_id in 0..5u64 {
        let echo_data = format!("boo! {}", msg_id);
        let request = format!(
            r#"{{"src":"{}","dest":"{}","body":{{"type":"echo","msg_id":{},"echo":"{}"}}}}"#,
            test, a, msg_id, echo_data
        );
        println!("echo request:  {}", request);
        match rt.run_one_io_ingress(&request).expect("ingress") {
            IngressOutcome::Accepted => {}
            IngressOutcome::Blocked(_) => panic!("inbound full"),
        }
        assert!(echo_process_step(&mut rt).expect("process step"));
        let line = match rt.run_one_io_egress().expect("egress") {
            EgressOutcome::Line(line) => line,
            EgressOutcome::Idle => panic!("expected a response line"),
        };
        let echoed = decode(&line, WorkloadKind::Echo).expect("deserialized");
        if let Msg {
            body: Body::Workload(Workload::Echo(Echo::EchoOk { in_reply_to, echo, .. })),
            ..
        } = &echoed
        {
            assert_eq!(&msg_id, in_reply_to);
            assert_eq!(&Json::Str(echo_data), echo);
        } else {
            panic!("expected echo_ok, got {:?}", echoed);
        }
        println!("echo response:      {}", line);
    }

    // Shutdown: every loop observes the wind-down, none reports a fault.
    rt.shutdown();
    assert!(matches!(rt.run_one_io_egress(), Err(Error::Shutdown)));
    assert!(matches!(echo_process_step(&mut rt), Err(Error::Shutdown)));
    assert!(matches!(
        rt.run_one_io_ingress(r#"{"src":"test","dest":"a","body":{"type":"echo","msg_id":9,"echo":"x"}}"#),
        Err(Error::Shutdown)
    ));
}

/// A full inbound queue blocks further ingress rather than dropping or
/// failing, and accepts the blocked message once the process catches up.
#[test]
fn backpressure_blocks_then_resumes() {
    let mut rt = handshaken();
    let line = |id: u64| {
        format!(
            r#"{{"src":"test","dest":"a","body":{{"type":"echo","msg_id":{},"echo":"x"}}}}"#,
            id
        )
    };
    for id in 0..16u64 {
        match rt.run_one_io_ingress(&line(id)).expect("ingress") {
            IngressOutcome::Accepted => {}
            IngressOutcome::Blocked(_) => panic!("queue full too early at {}", id),
        }
    }
    // Capacity exhausted: the next push blocks and hands the message back.
    let blocked = match rt.run_one_io_ingress(&line(16)).expect("ingress") {
        IngressOutcome::Blocked(m) => m,
        IngressOutcome::Accepted => panic!("expected backpressure"),
    };
    // The process consumes one message; the retry then succeeds.
    match rt.proc_recv().expect("recv") {
        ProcRecv::Received(m) => match m.body {
            Body::Workload(Workload::Echo(Echo::Echo { msg_id, .. })) => assert_eq!(msg_id, 0),
            other => panic!("unexpected body {:?}", other),
        },
        ProcRecv::Waiting => panic!("expected a message"),
    }
    match rt.ingress_push(blocked).expect("retry") {
        IngressOutcome::Accepted => {}
        IngressOutcome::Blocked(_) => panic!("retry should succeed after a receive"),
    }
}

/// Shutdown is idempotent, lets the egress loop drain what was already
/// queued, and unblocks every waiting operation with the shutdown
/// condition rather than a fault.
#[test]
fn shutdown_drains_and_terminates() {
    let mut rt = handshaken();
    let request = r#"{"src":"test","dest":"a","body":{"type":"echo","msg_id":3,"echo":"bye"}}"#;
    assert!(matches!(
        rt.run_one_io_ingress(request),
        Ok(IngressOutcome::Accepted)
    ));
    assert!(echo_process_step(&mut rt).expect("process"));
    rt.shutdown();
    rt.shutdown(); // exactly one close effect applies
    // The queued response still drains...
    let line = match rt.run_one_io_egress().expect("egress") {
        EgressOutcome::Line(line) => line,
        EgressOutcome::Idle => panic!("expected the queued response"),
    };
    assert!(line.contains("echo_ok"));
    // ...and afterwards every step reports the wind-down.
    assert!(matches!(rt.run_one_io_egress(), Err(Error::Shutdown)));
    assert!(matches!(rt.proc_recv(), Err(Error::Shutdown)));
    assert!(matches!(echo_process_step(&mut rt), Err(Error::Shutdown)));
}

/// The outbound queue also exerts backpressure against a slow transport:
/// a full queue hands the reply back, and one egress step frees a slot.
#[test]
fn outbound_backpressure() {
    let mut rt = handshaken();
    let reply = |id: u64| Msg {
        src: s("a"),
        dest: s("test"),
        body: Body::Workload(Workload::Echo(Echo::EchoOk {
            in_reply_to: id,
            msg_id: None,
            echo: Json::Str(s("x")),
        })),
    };
    for id in 0..16u64 {
        match rt.proc_send(reply(id)).expect("send") {
            maelstrom_node::runtime::ProcSend::Sent => {}
            maelstrom_node::runtime::ProcSend::Blocked(_) => panic!("full too early at {}", id),
        }
    }
    let blocked = match rt.proc_send(reply(16)).expect("send") {
        maelstrom_node::runtime::ProcSend::Blocked(m) => m,
        maelstrom_node::runtime::ProcSend::Sent => panic!("expected backpressure"),
    };
    match rt.run_one_io_egress().expect("egress") {
        EgressOutcome::Line(line) => assert!(line.contains("\"in_reply_to\":0")),
        EgressOutcome::Idle => panic!("expected a line"),
    }
    match rt.proc_send(blocked).expect("retry") {
        maelstrom_node::runtime::ProcSend::Sent => {}
        maelstrom_node::runtime::ProcSend::Blocked(_) => panic!("retry should succeed"),
    }
}
