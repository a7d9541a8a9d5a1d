//! The DNS-based resolution strategy, as a verified decision core.
//!
//! Resolving a service name is a short session of queries: an SRV lookup for
//! the service, then one A lookup per SRV answer, each over UDP first with a
//! single TCP reissue when the answer came back truncated. The wire I/O is
//! the caller's: the caller performs each requested [`Query`], reports its
//! [`QueryOutcome`], and the [`Session`] here decides — exactly and verified
//! — what to send next or what the resolution returns.
//!
//! The session's rules, per the strategy's contract:
//! - the SRV query failing (not mere truncation) fails the whole resolution;
//! - a truncated answer is reissued identically over TCP, exactly once, and
//!   TCP is never used for an untruncated answer;
//! - every per-answer failure (A-query error, missing or non-A first answer,
//!   non-SRV record in the SRV answer section) skips that one answer only:
//!   once the SRV query has succeeded the resolution succeeds, possibly with
//!   a partial or empty list.

use vstd::prelude::*;
use crate::{Address, Error, ErrorKind};

verus! {

/// The transport a query is sent over.
#[derive(Clone, Copy, PartialEq, Eq, Structural, Debug)]
pub enum Transport {
    Udp,
    Tcp,
}

/// The record type a query asks for.
#[derive(Clone, Copy, PartialEq, Eq, Structural, Debug)]
pub enum QueryKind {
    Srv,
    A,
}

/// One DNS query the caller is asked to perform: a record type, a
/// transport, and the name to look up.
pub struct Query {
    pub kind: QueryKind,
    pub transport: Transport,
    pub name: String,
}

/// The model of a query.
#[verifier::ext_equal]
pub ghost struct QueryV {
    pub kind: QueryKind,
    pub transport: Transport,
    pub name: Seq<char>,
}

impl View for Query {
    type V = QueryV;

    open spec fn view(&self) -> QueryV {
        QueryV { kind: self.kind, transport: self.transport, name: self.name@ }
    }
}

/// The target a single SRV answer names: a host to look up and the port to
/// combine with that host's address.
pub struct SrvTarget {
    pub host: String,
    pub port: u16,
}

/// The model of an SRV target.
#[verifier::ext_equal]
pub ghost struct SrvTargetV {
    pub host: Seq<char>,
    pub port: u16,
}

impl DeepView for SrvTarget {
    type V = SrvTargetV;

    open spec fn deep_view(&self) -> SrvTargetV {
        SrvTargetV { host: self.host@, port: self.port }
    }
}

/// The data of one answer record, reduced to what the session reads: an SRV
/// answer's target, an A answer's IPv4 address, or anything else.
pub enum RecordData {
    Srv(SrvTarget),
    A(u32),
    Other,
}

/// The model of one answer record's data.
#[verifier::ext_equal]
pub ghost enum RecordDataV {
    Srv(SrvTargetV),
    A(u32),
    Other,
}

impl DeepView for RecordData {
    type V = RecordDataV;

    open spec fn deep_view(&self) -> RecordDataV {
        match self {
            RecordData::Srv(t) => RecordDataV::Srv(t.deep_view()),
            RecordData::A(ip) => RecordDataV::A(*ip),
            RecordData::Other => RecordDataV::Other,
        }
    }
}

/// A response to one query: whether it was marked truncated, and its answer
/// records in order.
pub struct Response {
    pub truncated: bool,
    pub answers: Vec<RecordData>,
}

/// The model of a response.
#[verifier::ext_equal]
pub ghost struct ResponseV {
    pub truncated: bool,
    pub answers: Seq<RecordDataV>,
}

impl View for Response {
    type V = ResponseV;

    open spec fn view(&self) -> ResponseV {
        ResponseV { truncated: self.truncated, answers: self.answers.deep_view() }
    }
}

/// What one query came to: a response, or a transport/protocol failure.
pub enum QueryOutcome {
    Answered(Response),
    Failed,
}

/// The model of a query's outcome.
#[verifier::ext_equal]
pub ghost enum QueryOutcomeV {
    Answered(ResponseV),
    Failed,
}

impl View for QueryOutcome {
    type V = QueryOutcomeV;

    open spec fn view(&self) -> QueryOutcomeV {
        match self {
            QueryOutcome::Answered(r) => QueryOutcomeV::Answered(r@),
            QueryOutcome::Failed => QueryOutcomeV::Failed,
        }
    }
}

/// What the session asks of the caller after a step: send one more query,
/// or finish with the resolution's result.
pub enum Action {
    Send(Query),
    Finish(Result<Vec<Address>, Error>),
}

/// The model of an action.
#[verifier::ext_equal]
pub ghost enum ActionV {
    Send(QueryV),
    Finish(Result<Seq<Address>, Error>),
}

impl View for Action {
    type V = ActionV;

    open spec fn view(&self) -> ActionV {
        match self {
            Action::Send(q) => ActionV::Send(q@),
            Action::Finish(res) => ActionV::Finish(
                match res {
                    Ok(v) => Ok(v@),
                    Err(e) => Err(*e),
                },
            ),
        }
    }
}

/// Where a session stands.
#[verifier::ext_equal]
pub ghost enum PhaseV {
    /// The SRV query is out over UDP.
    SrvUdp,
    /// The SRV answer was truncated; the same query is out over TCP.
    SrvTcp,
    /// The SRV answers are in; the A query for `targets[idx]` is out, and
    /// `acc` holds the addresses resolved so far.
    Lookup { transport: Transport, targets: Seq<SrvTargetV>, idx: int, acc: Seq<Address> },
    /// The session has finished.
    Done,
}

/// The model of a session: the service name being resolved and the phase.
#[verifier::ext_equal]
pub ghost struct SessionV {
    pub service: Seq<char>,
    pub phase: PhaseV,
}

impl SessionV {
    /// Well-formedness: in the lookup phase, the index denotes a target.
    pub open spec fn wf(self) -> bool {
        self.phase matches PhaseV::Lookup { targets, idx, .. } ==> 0 <= idx < targets.len()
    }
}

enum Phase {
    SrvUdp,
    SrvTcp,
    Lookup { transport: Transport, targets: Vec<SrvTarget>, idx: usize, acc: Vec<Address> },
    Done,
}

/// One resolution in progress against a single nameserver.
pub struct Session {
    service: String,
    phase: Phase,
}

impl View for Session {
    type V = SessionV;

    closed spec fn view(&self) -> SessionV {
        SessionV {
            service: self.service@,
            phase: match self.phase {
                Phase::SrvUdp => PhaseV::SrvUdp,
                Phase::SrvTcp => PhaseV::SrvTcp,
                Phase::Lookup { transport, targets, idx, acc } => PhaseV::Lookup {
                    transport,
                    targets: targets.deep_view(),
                    idx: idx as int,
                    acc: acc@,
                },
                Phase::Done => PhaseV::Done,
            },
        }
    }
}

/// The SRV query for a service over the given transport.
pub open spec fn srv_query(service: Seq<char>, transport: Transport) -> QueryV {
    QueryV { kind: QueryKind::Srv, transport, name: service }
}

/// The A query for a target host over the given transport.
pub open spec fn a_query(host: Seq<char>, transport: Transport) -> QueryV {
    QueryV { kind: QueryKind::A, transport, name: host }
}

/// The targets of the SRV answers, in answer order; a record in the SRV
/// answer section that is not SRV-typed is skipped.
pub open spec fn srv_targets(answers: Seq<RecordDataV>) -> Seq<SrvTargetV>
    decreases answers.len(),
{
    if answers.len() == 0 {
        Seq::empty()
    } else {
        srv_targets(answers.drop_last()) + (match answers.last() {
            RecordDataV::Srv(t) => seq![t],
            _ => Seq::empty(),
        })
    }
}

/// The IPv4 address in a response's first answer, if the response has an
/// answer and that answer is A-typed.
pub open spec fn first_a(answers: Seq<RecordDataV>) -> Option<u32> {
    if answers.len() == 0 {
        None
    } else {
        match answers[0] {
            RecordDataV::A(ip) => Some(ip),
            _ => None,
        }
    }
}

/// After the SRV answers are in: finish at once with an empty result if no
/// answer named a target, else ask for the first target's A record over UDP.
pub open spec fn begin_lookup(service: Seq<char>, answers: Seq<RecordDataV>) -> (SessionV,
    ActionV) {
    let targets = srv_targets(answers);
    if targets.len() == 0 {
        (
            SessionV { service, phase: PhaseV::Done },
            ActionV::Finish(Ok(Seq::empty())),
        )
    } else {
        (
            SessionV {
                service,
                phase: PhaseV::Lookup {
                    transport: Transport::Udp,
                    targets,
                    idx: 0,
                    acc: Seq::empty(),
                },
            },
            ActionV::Send(a_query(targets[0].host, Transport::Udp)),
        )
    }
}

/// After one target is dealt with: ask for the next target's A record over
/// UDP, or finish with the addresses accumulated.
pub open spec fn advance(
    service: Seq<char>,
    targets: Seq<SrvTargetV>,
    idx: int,
    acc: Seq<Address>,
) -> (SessionV, ActionV) {
    if idx + 1 < targets.len() {
        (
            SessionV {
                service,
                phase: PhaseV::Lookup {
                    transport: Transport::Udp,
                    targets,
                    idx: idx + 1,
                    acc,
                },
            },
            ActionV::Send(a_query(targets[idx + 1].host, Transport::Udp)),
        )
    } else {
        (SessionV { service, phase: PhaseV::Done }, ActionV::Finish(Ok(acc)))
    }
}

/// The transition relation of a session: from a session and the outcome of
/// the query last sent, the next session and the next action.
pub open spec fn step_spec(s: SessionV, outcome: QueryOutcomeV) -> (SessionV, ActionV) {
    match s.phase {
        PhaseV::SrvUdp => match outcome {
            QueryOutcomeV::Failed => (
                SessionV { phase: PhaseV::Done, ..s },
                ActionV::Finish(Err(Error(ErrorKind::QueryFailed))),
            ),
            QueryOutcomeV::Answered(r) => if r.truncated {
                (
                    SessionV { phase: PhaseV::SrvTcp, ..s },
                    ActionV::Send(srv_query(s.service, Transport::Tcp)),
                )
            } else {
                begin_lookup(s.service, r.answers)
            },
        },
        PhaseV::SrvTcp => match outcome {
            QueryOutcomeV::Failed => (
                SessionV { phase: PhaseV::Done, ..s },
                ActionV::Finish(Err(Error(ErrorKind::QueryFailed))),
            ),
            QueryOutcomeV::Answered(r) => begin_lookup(s.service, r.answers),
        },
        PhaseV::Lookup { transport, targets, idx, acc } => match outcome {
            QueryOutcomeV::Failed => advance(s.service, targets, idx, acc),
            QueryOutcomeV::Answered(r) => if transport is Udp && r.truncated {
                (
                    SessionV {
                        phase: PhaseV::Lookup {
                            transport: Transport::Tcp,
                            targets,
                            idx,
                            acc,
                        },
                        ..s
                    },
                    ActionV::Send(a_query(targets[idx].host, Transport::Tcp)),
                )
            } else {
                match first_a(r.answers) {
                    Some(ip) => advance(
                        s.service,
                        targets,
                        idx,
                        acc.push(Address { ip, port: targets[idx].port }),
                    ),
                    None => advance(s.service, targets, idx, acc),
                }
            },
        },
        PhaseV::Done => (s, ActionV::Finish(Ok(Seq::empty()))),
    }
}

/// Whether a string is a well-formed DNS name, as the wire library's name
/// parser accepts it.
pub uninterp spec fn dns_name_ok(s: Seq<char>) -> bool;

/// Relies on trust_dns_client::rr::Name's FromStr parser: whether a string
/// parses as a DNS name is a function of its characters alone.
#[verifier::external_body]
fn check_dns_name(s: &str) -> (r: bool)
    ensures
        r == dns_name_ok(s@),
{
    match <trust_dns_client::rr::Name as core::str::FromStr>::from_str(s) {
        Ok(_) => true,
        Err(_) => false,
    }
}

/// The targets of the SRV answers, in answer order, skipping any record
/// that is not SRV-typed.
fn extract_targets(answers: &Vec<RecordData>) -> (r: Vec<SrvTarget>)
    ensures
        r.deep_view() == srv_targets(answers.deep_view()),
{
    let ghost all = answers.deep_view();
    let mut out: Vec<SrvTarget> = Vec::new();
    let mut i: usize = 0;
    proof {
        assert(all.take(0) =~= Seq::<RecordDataV>::empty());
    }
    while i < answers.len()
        invariant
            i <= answers.len(),
            all == answers.deep_view(),
            out.deep_view() == srv_targets(all.take(i as int)),
        decreases answers.len() - i,
    {
        let ghost out_before = out.deep_view();
        match &answers[i] {
            RecordData::Srv(t) => {
                out.push(SrvTarget { host: t.host.clone(), port: t.port });
            },
            _ => {},
        }
        proof {
            assert(all.take(i + 1).drop_last() =~= all.take(i as int));
            assert(all.take(i + 1).last() == all[i as int]);
            match all[i as int] {
                RecordDataV::Srv(tv) => {
                    assert(out.deep_view() =~= out_before + seq![tv]);
                },
                _ => {
                    assert(out.deep_view() =~= out_before);
                },
            }
            assert(out.deep_view() =~= srv_targets(all.take(i + 1)));
        }
        i += 1;
    }
    proof {
        assert(all.take(answers.len() as int) =~= all);
    }
    out
}

/// The IPv4 address in the response's first answer, if any and A-typed.
fn first_a_of(resp: &Response) -> (r: Option<u32>)
    ensures
        r == first_a(resp@.answers),
{
    if resp.answers.len() == 0 {
        None
    } else {
        match &resp.answers[0] {
            RecordData::A(ip) => Some(*ip),
            _ => None,
        }
    }
}

fn advance_exec(service: String, targets: Vec<SrvTarget>, idx: usize, acc: Vec<Address>) -> (r: (
    Session,
    Action,
))
    requires
        idx < targets.deep_view().len(),
    ensures
        r.0@ == advance(service@, targets.deep_view(), idx as int, acc@).0,
        r.1@ == advance(service@, targets.deep_view(), idx as int, acc@).1,
        r.0@.wf(),
{
    let ghost expected = advance(service@, targets.deep_view(), idx as int, acc@);
    proof {
        assert(targets.deep_view().len() == targets@.len());
    }
    let n = targets.len();
    if idx + 1 < n {
        let q = Query {
            kind: QueryKind::A,
            transport: Transport::Udp,
            name: targets[idx + 1].host.clone(),
        };
        let session = Session {
            service,
            phase: Phase::Lookup { transport: Transport::Udp, targets, idx: idx + 1, acc },
        };
        proof {
            assert(session@ =~~= expected.0);
            assert(q@ =~~= expected.1->Send_0);
        }
        (session, Action::Send(q))
    } else {
        let session = Session { service, phase: Phase::Done };
        proof {
            assert(session@ =~~= expected.0);
        }
        (session, Action::Finish(Ok(acc)))
    }
}

fn begin_exec(service: String, resp: Response) -> (r: (Session, Action))
    ensures
        r.0@ == begin_lookup(service@, resp@.answers).0,
        r.1@ == begin_lookup(service@, resp@.answers).1,
        r.0@.wf(),
{
    let ghost expected = begin_lookup(service@, resp@.answers);
    let targets = extract_targets(&resp.answers);
    if targets.len() == 0 {
        let session = Session { service, phase: Phase::Done };
        let empty: Vec<Address> = Vec::new();
        proof {
            assert(session@ =~~= expected.0);
            assert(empty@ =~= Seq::<Address>::empty());
        }
        (session, Action::Finish(Ok(empty)))
    } else {
        let q = Query {
            kind: QueryKind::A,
            transport: Transport::Udp,
            name: targets[0].host.clone(),
        };
        let acc: Vec<Address> = Vec::new();
        let session = Session {
            service,
            phase: Phase::Lookup { transport: Transport::Udp, targets, idx: 0, acc },
        };
        proof {
            assert(session@ =~~= expected.0);
            assert(q@ =~~= expected.1->Send_0);
        }
        (session, Action::Send(q))
    }
}

impl Session {
    /// Opens a resolution session for a service name. The name must be a
    /// well-formed DNS name, else the resolution fails up front with
    /// [`Error(ErrorKind::QueryFailed)`], as a strategy whose authoritative query
    /// cannot even be formed fails. On success the session stands at the
    /// SRV-over-UDP phase and the caller is handed the SRV query to send.
    pub fn start(service: &str) -> (r: Result<(Session, Query), Error>)
        ensures
            r is Ok <==> dns_name_ok(service@),
            r matches Ok(sq) ==> sq.0@ == (SessionV {
                service: service@,
                phase: PhaseV::SrvUdp,
            }) && sq.0@.wf() && sq.1@ == srv_query(service@, Transport::Udp),
            r matches Err(e) ==> e == Error(ErrorKind::QueryFailed),
    {
        if check_dns_name(service) {
            let session = Session { service: service.to_owned(), phase: Phase::SrvUdp };
            let q = Query {
                kind: QueryKind::Srv,
                transport: Transport::Udp,
                name: service.to_owned(),
            };
            Ok((session, q))
        } else {
            Err(Error(ErrorKind::QueryFailed))
        }
    }

    /// Whether the session has finished: after a [`Action::Finish`] the
    /// session takes no further outcome.
    pub fn is_done(&self) -> (r: bool)
        ensures
            r == (self@.phase is Done),
    {
        match self.phase {
            Phase::Done => true,
            _ => false,
        }
    }

    /// One step of the session: hand in the outcome of the query last
    /// requested, and get the session's next state together with the next
    /// action — one more query to send, or the resolution's result. The
    /// step is exactly the transition relation [`step_spec`].
    pub fn step(self, outcome: QueryOutcome) -> (r: (Session, Action))
        requires
            self@.wf(),
            !(self@.phase is Done),
        ensures
            r.0@ == step_spec(self@, outcome@).0,
            r.1@ == step_spec(self@, outcome@).1,
            r.0@.wf(),
    {
        let ghost s0 = self@;
        let ghost expected = step_spec(s0, outcome@);
        let Session { service, phase } = self;
        match phase {
            Phase::SrvUdp => match outcome {
                QueryOutcome::Failed => {
                    let session = Session { service, phase: Phase::Done };
                    proof {
                        assert(session@ =~~= expected.0);
                    }
                    (session, Action::Finish(Err(Error(ErrorKind::QueryFailed))))
                },
                QueryOutcome::Answered(resp) => {
                    if resp.truncated {
                        let q = Query {
                            kind: QueryKind::Srv,
                            transport: Transport::Tcp,
                            name: service.clone(),
                        };
                        let session = Session { service, phase: Phase::SrvTcp };
                        proof {
                            assert(session@ =~~= expected.0);
                            assert(q@ =~~= expected.1->Send_0);
                        }
                        (session, Action::Send(q))
                    } else {
                        begin_exec(service, resp)
                    }
                },
            },
            Phase::SrvTcp => match outcome {
                QueryOutcome::Failed => {
                    let session = Session { service, phase: Phase::Done };
                    proof {
                        assert(session@ =~~= expected.0);
                    }
                    (session, Action::Finish(Err(Error(ErrorKind::QueryFailed))))
                },
                QueryOutcome::Answered(resp) => begin_exec(service, resp),
            },
            Phase::Lookup { transport, targets, idx, mut acc } => match outcome {
                QueryOutcome::Failed => advance_exec(service, targets, idx, acc),
                QueryOutcome::Answered(resp) => {
                    let udp = match transport {
                        Transport::Udp => true,
                        Transport::Tcp => false,
                    };
                    if udp && resp.truncated {
                        let q = Query {
                            kind: QueryKind::A,
                            transport: Transport::Tcp,
                            name: targets[idx].host.clone(),
                        };
                        let session = Session {
                            service,
                            phase: Phase::Lookup {
                                transport: Transport::Tcp,
                                targets,
                                idx,
                                acc,
                            },
                        };
                        proof {
                            assert(session@ =~~= expected.0);
                            assert(q@ =~~= expected.1->Send_0);
                        }
                        (session, Action::Send(q))
                    } else {
                        match first_a_of(&resp) {
                            Some(ip) => {
                                let port = targets[idx].port;
                                acc.push(Address { ip, port });
                                advance_exec(service, targets, idx, acc)
                            },
                            None => advance_exec(service, targets, idx, acc),
                        }
                    }
                },
            },
            Phase::Done => unreached(),
        }
    }
}

/// A resolution fails only when the SRV query itself fails: a step ends the
/// session in an error only from one of the SRV phases, on a failed query.
/// Once the SRV query has succeeded the session stands in the lookup phase
/// or is done, and every later finish carries `Ok` — a partial or empty
/// list at worst, never a whole-call failure.
pub proof fn lemma_failure_only_from_srv(s: SessionV, outcome: QueryOutcomeV)
    ensures
        (step_spec(s, outcome).1 matches ActionV::Finish(res) && res is Err) ==> ((s.phase
            is SrvUdp || s.phase is SrvTcp) && outcome is Failed),
{
}

/// The lookup phase is closed: from it, a step leads only to the lookup
/// phase or to a finished session, and any finish is `Ok`.
pub proof fn lemma_lookup_phase_closed(s: SessionV, outcome: QueryOutcomeV)
    requires
        s.phase is Lookup,
    ensures
        step_spec(s, outcome).0.phase is Lookup || step_spec(s, outcome).0.phase is Done,
        step_spec(s, outcome).1 matches ActionV::Finish(res) ==> res is Ok,
{
}

/// A truncated SRV answer over UDP triggers exactly one TCP retry of the
/// identical query: the very next action is the same SRV query for the same
/// service over TCP, and from there no step ever issues an SRV query again.
pub proof fn lemma_srv_truncation_retry(s: SessionV, r: ResponseV)
    requires
        s.phase is SrvUdp,
        r.truncated,
    ensures
        step_spec(s, QueryOutcomeV::Answered(r)).0.phase is SrvTcp,
        step_spec(s, QueryOutcomeV::Answered(r)).1 == ActionV::Send(
            srv_query(s.service, Transport::Tcp),
        ),
        forall|next: QueryOutcomeV|
            #[trigger] step_spec(step_spec(s, QueryOutcomeV::Answered(r)).0, next).1 matches
                ActionV::Send(q) ==> q.kind is A,
{
}

/// A truncated A answer over UDP likewise triggers exactly one TCP retry
/// of the identical query: the very next action is the same target's A
/// query over TCP — with targets, index and accumulated addresses carried
/// over unchanged — and the step after that never issues a TCP query.
pub proof fn lemma_a_truncation_retry(s: SessionV, r: ResponseV)
    requires
        s.wf(),
        s.phase matches PhaseV::Lookup { transport, .. } && transport is Udp,
        r.truncated,
    ensures
        step_spec(s, QueryOutcomeV::Answered(r)).0.phase == (PhaseV::Lookup {
            transport: Transport::Tcp,
            targets: s.phase->Lookup_targets,
            idx: s.phase->Lookup_idx,
            acc: s.phase->Lookup_acc,
        }),
        step_spec(s, QueryOutcomeV::Answered(r)).1 == ActionV::Send(
            a_query(s.phase->Lookup_targets[s.phase->Lookup_idx].host, Transport::Tcp),
        ),
        forall|next: QueryOutcomeV|
            #[trigger] step_spec(step_spec(s, QueryOutcomeV::Answered(r)).0, next).1 matches
                ActionV::Send(q) ==> q.transport is Udp,
{
}

/// Whether a session stands in a UDP phase: no TCP retry is pending. A
/// fresh session satisfies this.
pub open spec fn udp_phase(s: SessionV) -> bool {
    match s.phase {
        PhaseV::SrvTcp => false,
        PhaseV::Lookup { transport, .. } => transport is Udp,
        _ => true,
    }
}

/// Whether an outcome is no truncated answer: a failure, or an answer not
/// marked truncated.
pub open spec fn untruncated(outcome: QueryOutcomeV) -> bool {
    outcome matches QueryOutcomeV::Answered(r) ==> !r.truncated
}

/// The actions a session emits when fed a sequence of outcomes, in order.
pub open spec fn actions_of(s: SessionV, outcomes: Seq<QueryOutcomeV>) -> Seq<ActionV>
    decreases outcomes.len(),
{
    if outcomes.len() == 0 {
        Seq::empty()
    } else {
        let next = step_spec(s, outcomes.first());
        seq![next.1] + actions_of(next.0, outcomes.drop_first())
    }
}

proof fn lemma_step_stays_udp(s: SessionV, outcome: QueryOutcomeV)
    requires
        udp_phase(s),
        untruncated(outcome),
    ensures
        udp_phase(step_spec(s, outcome).0),
        step_spec(s, outcome).1 matches ActionV::Send(q) ==> q.transport is Udp,
{
}

/// An untruncated response never brings in the TCP transport: a session in
/// a UDP phase — a fresh one to begin with — fed any sequence of outcomes
/// none of which is a truncated answer only ever asks for queries over UDP.
pub proof fn lemma_no_tcp_without_truncation(s: SessionV, outcomes: Seq<QueryOutcomeV>)
    requires
        udp_phase(s),
        forall|i: int| 0 <= i < outcomes.len() ==> untruncated(#[trigger] outcomes[i]),
    ensures
        forall|i: int|
            0 <= i < actions_of(s, outcomes).len() ==> (#[trigger] actions_of(s, outcomes)[i]
                matches ActionV::Send(q) ==> q.transport is Udp),
    decreases outcomes.len(),
{
    if outcomes.len() > 0 {
        let next = step_spec(s, outcomes.first());
        assert(untruncated(outcomes[0]));
        lemma_step_stays_udp(s, outcomes.first());
        assert(forall|i: int|
            0 <= i < outcomes.drop_first().len() ==> untruncated(
                #[trigger] outcomes.drop_first()[i],
            ));
        lemma_no_tcp_without_truncation(next.0, outcomes.drop_first());
        assert forall|i: int| 0 <= i < actions_of(s, outcomes).len() implies (
        #[trigger] actions_of(s, outcomes)[i] matches ActionV::Send(q) ==> q.transport
            is Udp) by {
            if i > 0 {
                assert(actions_of(s, outcomes)[i] == actions_of(next.0, outcomes.drop_first())[
                    i - 1]);
            }
        }
    }
}

} // verus!
