use resolver_pool::dns::{
    Action, QueryKind, QueryOutcome, RecordData, Response, Session, SrvTarget, Transport,
};
use resolver_pool::{Address, Error, ErrorKind};

const SERVICE: &str = "_proto._service.example.com.";

fn srv(host: &str, port: u16) -> RecordData {
    RecordData::Srv(SrvTarget { host: host.to_string(), port })
}

fn answered(truncated: bool, answers: Vec<RecordData>) -> QueryOutcome {
    QueryOutcome::Answered(Response { truncated, answers })
}

#[test]
fn start_hands_out_the_srv_query_over_udp() {
    let (session, q) = Session::start(SERVICE).unwrap();
    assert!(!session.is_done());
    assert_eq!(q.kind, QueryKind::Srv);
    assert_eq!(q.transport, Transport::Udp);
    assert_eq!(q.name, SERVICE);
}

#[test]
fn start_rejects_a_malformed_name() {
    // One label of a DNS name holds at most 63 bytes; this one holds 70.
    let bad = format!("{}.example.com.", "a".repeat(70));
    match Session::start(&bad) {
        Err(e) => assert_eq!(e, Error(ErrorKind::QueryFailed)),
        Ok(_) => panic!("a malformed name must be rejected"),
    }
}

#[test]
fn srv_failure_fails_the_resolution() {
    let (session, _q) = Session::start(SERVICE).unwrap();
    let (session, action) = session.step(QueryOutcome::Failed);
    assert!(session.is_done());
    match action {
        Action::Finish(res) => assert_eq!(res, Err(Error(ErrorKind::QueryFailed))),
        Action::Send(_) => panic!("expected the resolution to finish"),
    }
}

#[test]
fn empty_srv_answer_finishes_with_an_empty_list() {
    let (session, _q) = Session::start(SERVICE).unwrap();
    let (session, action) = session.step(answered(false, vec![]));
    assert!(session.is_done());
    match action {
        Action::Finish(res) => assert_eq!(res, Ok(vec![])),
        Action::Send(_) => panic!("expected the resolution to finish"),
    }
}

#[test]
fn partial_a_failure_narrows_but_does_not_fail() {
    // Two valid SRV answers; the A lookup fails for exactly one target:
    // the resolution still succeeds, with exactly one address.
    let (session, q) = Session::start(SERVICE).unwrap();
    assert_eq!(q.transport, Transport::Udp);
    let (session, action) = session.step(answered(
        false,
        vec![srv("h1.example.com.", 8081), srv("h2.example.com.", 8082)],
    ));
    let (session, action) = match action {
        Action::Send(q) => {
            assert_eq!(q.kind, QueryKind::A);
            assert_eq!(q.transport, Transport::Udp);
            assert_eq!(q.name, "h1.example.com.");
            session.step(answered(false, vec![RecordData::A(0x0a00_0001)]))
        },
        Action::Finish(_) => panic!("expected an A query"),
    };
    let (session, action) = match action {
        Action::Send(q) => {
            assert_eq!(q.kind, QueryKind::A);
            assert_eq!(q.transport, Transport::Udp);
            assert_eq!(q.name, "h2.example.com.");
            session.step(QueryOutcome::Failed)
        },
        Action::Finish(_) => panic!("expected a second A query"),
    };
    assert!(session.is_done());
    match action {
        Action::Finish(res) => {
            assert_eq!(res, Ok(vec![Address { ip: 0x0a00_0001, port: 8081 }]));
        },
        Action::Send(_) => panic!("expected the resolution to finish"),
    }
}

#[test]
fn truncated_srv_answer_triggers_one_identical_tcp_retry() {
    let (session, q) = Session::start(SERVICE).unwrap();
    assert_eq!(q.transport, Transport::Udp);
    let (session, action) = session.step(answered(true, vec![srv("ignored.example.com.", 1)]));
    // The retry is the identical query, over TCP.
    let (session, action) = match action {
        Action::Send(retry) => {
            assert_eq!(retry.kind, QueryKind::Srv);
            assert_eq!(retry.transport, Transport::Tcp);
            assert_eq!(retry.name, SERVICE);
            session.step(answered(false, vec![srv("h1.example.com.", 9000)]))
        },
        Action::Finish(_) => panic!("expected the TCP retry"),
    };
    // The TCP answer is used; no further SRV query is issued.
    let (session, action) = match action {
        Action::Send(q) => {
            assert_eq!(q.kind, QueryKind::A);
            session.step(answered(false, vec![RecordData::A(0x7f00_0001)]))
        },
        Action::Finish(_) => panic!("expected an A query"),
    };
    assert!(session.is_done());
    match action {
        Action::Finish(res) => {
            assert_eq!(res, Ok(vec![Address { ip: 0x7f00_0001, port: 9000 }]));
        },
        Action::Send(_) => panic!("expected the resolution to finish"),
    }
}

#[test]
fn untruncated_answers_never_bring_in_tcp() {
    let (session, q) = Session::start(SERVICE).unwrap();
    assert_eq!(q.transport, Transport::Udp);
    let mut session = session;
    let mut outcome = answered(
        false,
        vec![srv("h1.example.com.", 1), srv("h2.example.com.", 2), srv("h3.example.com.", 3)],
    );
    loop {
        let (next, action) = session.step(outcome);
        session = next;
        match action {
            Action::Send(q) => {
                assert_eq!(q.transport, Transport::Udp);
                outcome = answered(false, vec![RecordData::A(1)]);
            },
            Action::Finish(res) => {
                assert!(res.is_ok());
                break;
            },
        }
    }
    assert!(session.is_done());
}

#[test]
fn truncated_a_answer_is_retried_over_tcp() {
    let (session, _q) = Session::start(SERVICE).unwrap();
    let (session, action) = session.step(answered(false, vec![srv("h1.example.com.", 4242)]));
    let (session, action) = match action {
        Action::Send(q) => {
            assert_eq!(q.kind, QueryKind::A);
            assert_eq!(q.transport, Transport::Udp);
            session.step(answered(true, vec![]))
        },
        Action::Finish(_) => panic!("expected an A query"),
    };
    let (session, action) = match action {
        Action::Send(retry) => {
            assert_eq!(retry.kind, QueryKind::A);
            assert_eq!(retry.transport, Transport::Tcp);
            assert_eq!(retry.name, "h1.example.com.");
            session.step(answered(false, vec![RecordData::A(0xc0a8_0001)]))
        },
        Action::Finish(_) => panic!("expected the TCP retry of the A query"),
    };
    assert!(session.is_done());
    match action {
        Action::Finish(res) => {
            assert_eq!(res, Ok(vec![Address { ip: 0xc0a8_0001, port: 4242 }]));
        },
        Action::Send(_) => panic!("expected the resolution to finish"),
    }
}

#[test]
fn non_srv_records_in_the_srv_section_are_skipped() {
    let (session, _q) = Session::start(SERVICE).unwrap();
    let (session, action) = session.step(answered(
        false,
        vec![RecordData::Other, srv("h1.example.com.", 7), RecordData::A(9)],
    ));
    let (session, action) = match action {
        Action::Send(q) => {
            // Only the one SRV-typed answer names a target.
            assert_eq!(q.name, "h1.example.com.");
            session.step(answered(false, vec![RecordData::A(5)]))
        },
        Action::Finish(_) => panic!("expected an A query"),
    };
    assert!(session.is_done());
    match action {
        Action::Finish(res) => assert_eq!(res, Ok(vec![Address { ip: 5, port: 7 }])),
        Action::Send(_) => panic!("expected the resolution to finish"),
    }
}

#[test]
fn a_answer_of_the_wrong_type_skips_the_target() {
    let (session, _q) = Session::start(SERVICE).unwrap();
    let (session, action) = session.step(answered(false, vec![srv("h1.example.com.", 7)]));
    let (session, action) = match action {
        Action::Send(_) => session.step(answered(false, vec![RecordData::Other])),
        Action::Finish(_) => panic!("expected an A query"),
    };
    assert!(session.is_done());
    match action {
        Action::Finish(res) => assert_eq!(res, Ok(vec![])),
        Action::Send(_) => panic!("expected the resolution to finish"),
    }
}

#[test]
fn srv_tcp_failure_after_truncation_fails_the_resolution() {
    let (session, _q) = Session::start(SERVICE).unwrap();
    let (session, action) = session.step(answered(true, vec![]));
    let (session, action) = match action {
        Action::Send(_) => session.step(QueryOutcome::Failed),
        Action::Finish(_) => panic!("expected the TCP retry"),
    };
    assert!(session.is_done());
    match action {
        Action::Finish(res) => assert_eq!(res, Err(Error(ErrorKind::QueryFailed))),
        Action::Send(_) => panic!("expected the resolution to finish"),
    }
}
