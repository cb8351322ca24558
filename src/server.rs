use vstd::prelude::*;
use crate::error::ProxyError;
use crate::handler::{RelayKind, relay_for, route_transport};
use crate::request::TransportProtocol;

verus! {

/// Seconds that one connection may take from handshake to the end of its
/// relay.
pub const DEFAULT_TASK_TIMEOUT: u64 = 300;

/// Handshake protocols that an inbound endpoint can speak.
#[derive(Debug, Clone, Copy, PartialEq, Eq, Structural)]
pub enum SupportedProtocols {
    TROJAN,
}

/// Where the certificate chain and the private key of an endpoint are.
#[derive(Debug, Clone)]
pub struct TlsConfig {
    pub cert_path: String,
    pub key_path: String,
}

/// One listening endpoint.
#[derive(Debug, Clone)]
pub struct InboundConfig {
    pub address: String,
    pub port: u16,
    pub protocol: SupportedProtocols,
    pub tls: Option<TlsConfig>,
}

/// A listening endpoint together with its configuration.
#[derive(Debug)]
pub struct TcpServer {
    pub inbound_config: InboundConfig,
}

impl TcpServer {
    pub fn new(inbound_config: InboundConfig) -> (r: Result<TcpServer, ProxyError>)
        ensures
            r matches Ok(s) && s.inbound_config == inbound_config,
    {
        Ok(TcpServer { inbound_config })
    }

    /// The address and port to listen on.
    pub fn local_addr(&self) -> (r: (String, u16))
        ensures
            r.0@ == self.inbound_config.address@,
            r.1 == self.inbound_config.port,
    {
        (self.inbound_config.address.clone(), self.inbound_config.port)
    }
}

/// Bytes moved for one account by one connection.
#[derive(Debug, Clone, Copy, PartialEq, Eq, Structural)]
pub struct TrafficItem {
    pub account_id: i32,
    pub upload: u64,
    pub download: u64,
    pub delta_connections: u64,
}

impl TrafficItem {
    pub fn new(account_id: i32, upload: u64, download: u64, delta_connections: u64) -> (r:
        TrafficItem)
        ensures
            r == (TrafficItem { account_id, upload, download, delta_connections }),
    {
        TrafficItem { account_id, upload, download, delta_connections }
    }
}

/// Where a connection stands.
#[derive(Debug, Clone, Copy, PartialEq, Eq, Structural)]
pub enum ConnState {
    /// Waiting for the TLS handshake, the request header and its
    /// authentication.
    Accepting,
    /// A relay runs for this account.
    Relaying { account_id: i32 },
    /// Nothing more happens on this connection.
    Done,
}

/// What the outside world reports about a connection.
#[derive(Debug, Clone, Copy, PartialEq, Eq, Structural)]
pub enum ConnEvent {
    /// The header was read and its digest accepted.
    Accepted { account_id: i32, transport: TransportProtocol },
    /// The TLS handshake, the header or the authentication failed.
    AcceptFailed(ProxyError),
    /// The relay ended with these byte counts.
    RelayFinished { upload: u64, download: u64 },
    /// The relay failed.
    RelayFailed(ProxyError),
    /// The time budget ran out.
    Expired,
}

/// What the connection's task does next.
#[derive(Debug, Clone, Copy, PartialEq, Eq, Structural)]
pub enum ConnAction {
    /// Connect to the destination and run this relay.
    Dispatch(RelayKind),
    /// Hand this record to traffic accounting, then close.
    Report(TrafficItem),
    /// Close the connection.
    Close,
}

/// One step of a connection's life.
pub open spec fn step_spec(s: ConnState, e: ConnEvent) -> (ConnState, ConnAction) {
    match (s, e) {
        (ConnState::Accepting, ConnEvent::Accepted { account_id, transport }) => {
            match relay_for(transport) {
                Ok(k) => (ConnState::Relaying { account_id }, ConnAction::Dispatch(k)),
                Err(_) => (ConnState::Done, ConnAction::Close),
            }
        },
        (ConnState::Relaying { account_id }, ConnEvent::RelayFinished { upload, download }) => (
            ConnState::Done,
            ConnAction::Report(
                TrafficItem { account_id, upload, download, delta_connections: 1 },
            ),
        ),
        _ => (ConnState::Done, ConnAction::Close),
    }
}

/// Decides what a connection does on an event: an accepted request is
/// dispatched, a relay that finishes in time is reported once for its
/// account, and everything else closes the connection.
pub fn step(s: ConnState, e: ConnEvent) -> (r: (ConnState, ConnAction))
    ensures
        r == step_spec(s, e),
{
    match (s, e) {
        (ConnState::Accepting, ConnEvent::Accepted { account_id, transport }) => {
            match route_transport(transport) {
                Ok(k) => (ConnState::Relaying { account_id }, ConnAction::Dispatch(k)),
                Err(_) => (ConnState::Done, ConnAction::Close),
            }
        },
        (ConnState::Relaying { account_id }, ConnEvent::RelayFinished { upload, download }) => {
            (
                ConnState::Done,
                ConnAction::Report(TrafficItem::new(account_id, upload, download, 1)),
            )
        },
        _ => (ConnState::Done, ConnAction::Close),
    }
}

/// The actions taken from state `s` on a run of events.
pub open spec fn run(s: ConnState, events: Seq<ConnEvent>) -> Seq<ConnAction>
    decreases events.len(),
{
    if events.len() == 0 {
        Seq::empty()
    } else {
        seq![step_spec(s, events[0]).1] + run(step_spec(s, events[0]).0, events.drop_first())
    }
}

/// How many reports a run of actions holds.
pub open spec fn reports(actions: Seq<ConnAction>) -> nat
    decreases actions.len(),
{
    if actions.len() == 0 {
        0
    } else {
        (if actions[0] is Report {
            1nat
        } else {
            0nat
        }) + reports(actions.drop_first())
    }
}

/// A closed connection stays closed: whatever else is reported, it only
/// closes.
pub proof fn lemma_done_only_closes(events: Seq<ConnEvent>)
    ensures
        forall|i: int|
            0 <= i < run(ConnState::Done, events).len() ==> run(ConnState::Done, events)[i]
                == ConnAction::Close,
        run(ConnState::Done, events).len() == events.len(),
    decreases events.len(),
{
    if events.len() > 0 {
        lemma_done_only_closes(events.drop_first());
    }
}

/// No run of actions that only closes holds a report.
proof fn lemma_no_reports(actions: Seq<ConnAction>)
    requires
        forall|i: int| 0 <= i < actions.len() ==> actions[i] == ConnAction::Close,
    ensures
        reports(actions) == 0,
    decreases actions.len(),
{
    if actions.len() > 0 {
        lemma_no_reports(actions.drop_first());
    }
}

/// A connection whose handshake fails (its digest rejected among others)
/// never dispatches a relay and never reports traffic.
pub proof fn lemma_failed_accept_never_relays(err: ProxyError, later: Seq<ConnEvent>)
    ensures
        ({
            let actions = run(ConnState::Accepting, seq![ConnEvent::AcceptFailed(err)] + later);
            &&& forall|i: int| 0 <= i < actions.len() ==> actions[i] == ConnAction::Close
            &&& reports(actions) == 0
        }),
{
    let evs = seq![ConnEvent::AcceptFailed(err)] + later;
    assert(evs.drop_first() =~= later);
    lemma_done_only_closes(later);
    let actions = run(ConnState::Accepting, evs);
    assert forall|i: int| 0 <= i < actions.len() implies actions[i] == ConnAction::Close by {
        if i > 0 {
            assert(actions[i] == run(ConnState::Done, later)[i - 1]);
        }
    }
    lemma_no_reports(actions);
}

/// Counting reports over one more action.
proof fn lemma_reports_cons(a: ConnAction, rest: Seq<ConnAction>)
    ensures
        reports(seq![a] + rest) == (if a is Report {
            1nat
        } else {
            0nat
        }) + reports(rest),
{
    assert((seq![a] + rest).drop_first() =~= rest);
}

/// A connection whose time budget runs out during its relay reports no
/// traffic, whatever the relay reports afterwards.
pub proof fn lemma_expired_never_reports(
    account_id: i32,
    transport: TransportProtocol,
    later: Seq<ConnEvent>,
)
    ensures
        reports(
            run(
                ConnState::Accepting,
                seq![ConnEvent::Accepted { account_id, transport }, ConnEvent::Expired] + later,
            ),
        ) == 0,
{
    let evs = seq![ConnEvent::Accepted { account_id, transport }, ConnEvent::Expired] + later;
    let e1 = evs.drop_first();
    assert(e1 =~= seq![ConnEvent::Expired] + later);
    assert(e1.drop_first() =~= later);
    let (s1, a1) = step_spec(ConnState::Accepting, evs[0]);
    let r2 = run(ConnState::Done, later);
    lemma_done_only_closes(later);
    lemma_no_reports(r2);
    assert(run(s1, e1) == seq![ConnAction::Close] + r2);
    lemma_reports_cons(ConnAction::Close, r2);
    assert(run(ConnState::Accepting, evs) == seq![a1] + run(s1, e1));
    lemma_reports_cons(a1, run(s1, e1));
}

/// A connection that is accepted and whose relay finishes in time yields
/// exactly one report, carrying the authenticated account and the relay's
/// byte counts, and then only closes.
pub proof fn lemma_completed_reports_once(
    account_id: i32,
    transport: TransportProtocol,
    upload: u64,
    download: u64,
    later: Seq<ConnEvent>,
)
    requires
        relay_for(transport) is Ok,
    ensures
        ({
            let actions = run(
                ConnState::Accepting,
                seq![
                    ConnEvent::Accepted { account_id, transport },
                    ConnEvent::RelayFinished { upload, download },
                ] + later,
            );
            &&& actions[0] == ConnAction::Dispatch(relay_for(transport)->Ok_0)
            &&& actions[1] == ConnAction::Report(
                TrafficItem { account_id, upload, download, delta_connections: 1 },
            )
            &&& reports(actions) == 1
        }),
{
    let evs = seq![
        ConnEvent::Accepted { account_id, transport },
        ConnEvent::RelayFinished { upload, download },
    ] + later;
    let e1 = evs.drop_first();
    assert(e1 =~= seq![ConnEvent::RelayFinished { upload, download }] + later);
    assert(e1.drop_first() =~= later);
    let (s1, a1) = step_spec(ConnState::Accepting, evs[0]);
    let item = TrafficItem { account_id, upload, download, delta_connections: 1 };
    let r2 = run(ConnState::Done, later);
    lemma_done_only_closes(later);
    lemma_no_reports(r2);
    assert(run(s1, e1) == seq![ConnAction::Report(item)] + r2);
    lemma_reports_cons(ConnAction::Report(item), r2);
    assert(run(ConnState::Accepting, evs) == seq![a1] + run(s1, e1));
    lemma_reports_cons(a1, run(s1, e1));
}

/// However events arrive, a connection reports traffic at most once.
pub proof fn lemma_at_most_one_report(events: Seq<ConnEvent>)
    ensures
        reports(run(ConnState::Accepting, events)) <= 1,
{
    if events.len() > 0 {
        let (s1, a1) = step_spec(ConnState::Accepting, events[0]);
        let rest = events.drop_first();
        assert(run(ConnState::Accepting, events) == seq![a1] + run(s1, rest));
        lemma_reports_cons(a1, run(s1, rest));
        if s1 == ConnState::Done {
            lemma_done_only_closes(rest);
            lemma_no_reports(run(ConnState::Done, rest));
        } else if rest.len() > 0 {
            let (s2, a2) = step_spec(s1, rest[0]);
            let r2 = run(ConnState::Done, rest.drop_first());
            lemma_done_only_closes(rest.drop_first());
            lemma_no_reports(r2);
            assert(run(s1, rest) == seq![a2] + r2);
            lemma_reports_cons(a2, r2);
        }
    }
}

} // verus!
