//! Runs of a tunnel: what holds whatever the caller reports, and in
//! whatever order.

use crate::error::{ProtocolError, TunnelError};
use crate::handshake::{decode_recovers_encoded, header_bytes, WireAddress};
use crate::protocol::{NetworkType, DNS_PORT, QUERY_QUOTA};
use crate::proxy::{finish, step, ActionView, ConfigView, EventView, Step, TunnelState};
use crate::websocket::StreamState;
use vstd::prelude::*;

verus! {

/// One report to a tunnel: what the caller reports, and the stream as it
/// stands then. Between two steps the byte pump may have read from the
/// stream, and the stream may have been shut down.
pub struct Report {
    pub event: EventView,
    pub stream: StreamState,
}

/// The steps that a tunnel takes on a run of reports, the first of them
/// first: each step starts in the state in which the one before it ended.
pub open spec fn trace(state: TunnelState, config: ConfigView, reports: Seq<Report>) -> Seq<Step>
    decreases reports.len(),
{
    if reports.len() == 0 {
        Seq::<Step>::empty()
    } else {
        let before = trace(state, config, reports.drop_last());
        before.push(
            step(
                state_after(state, before),
                reports.last().stream,
                config,
                reports.last().event,
            ),
        )
    }
}

/// Where a tunnel stands after a run of steps that began in `state`.
pub open spec fn state_after(state: TunnelState, steps: Seq<Step>) -> TunnelState {
    if steps.len() == 0 {
        state
    } else {
        steps.last().state
    }
}

/// How many of the steps ask for a resolver call.
pub open spec fn resolver_calls(steps: Seq<Step>) -> nat
    decreases steps.len(),
{
    if steps.len() == 0 {
        0
    } else if steps.last().action is Resolve {
        resolver_calls(steps.drop_last()) + 1
    } else {
        resolver_calls(steps.drop_last())
    }
}

/// How many resolver calls a tunnel may still ask for.
pub open spec fn budget(state: TunnelState) -> nat {
    let left = |issued: nat| if issued <= QUERY_QUOTA { (QUERY_QUOTA - issued) as nat } else { 0 };
    match state {
        TunnelState::Handshake => QUERY_QUOTA as nat,
        TunnelState::DnsAcknowledging => QUERY_QUOTA as nat,
        TunnelState::DnsWaiting { issued } => left(issued),
        TunnelState::Resolving { issued } => left(issued),
        TunnelState::ReplyingLength { issued, .. } => left(issued),
        TunnelState::ReplyingBody { issued } => left(issued),
        _ => 0,
    }
}

/// Whether a tunnel is past choosing its destination.
pub open spec fn settled(state: TunnelState) -> bool {
    !(state is Handshake) && !(state is Dialing)
}

/// A step that asks for a resolver call uses up one of the calls that are
/// left, and no step adds to them.
pub proof fn lemma_step_spends(
    state: TunnelState,
    stream: StreamState,
    config: ConfigView,
    event: EventView,
)
    ensures
        step(state, stream, config, event).action is Resolve ==> budget(
            step(state, stream, config, event).state,
        ) + 1 <= budget(state),
        budget(step(state, stream, config, event).state) <= budget(state),
{
}

/// A settled tunnel stays settled and asks for no connection.
pub proof fn lemma_step_stays_settled(
    state: TunnelState,
    stream: StreamState,
    config: ConfigView,
    event: EventView,
)
    requires
        settled(state),
    ensures
        settled(step(state, stream, config, event).state),
        !(step(state, stream, config, event).action is Connect),
{
}

/// One tunnel asks for at most as many resolver calls as the quota allows,
/// whatever is reported to it and whatever its stream holds.
pub proof fn resolver_calls_are_bounded(state: TunnelState, config: ConfigView, reports: Seq<Report>)
    ensures
        resolver_calls(trace(state, config, reports)) + budget(
            state_after(state, trace(state, config, reports)),
        ) <= budget(state),
        resolver_calls(trace(state, config, reports)) <= QUERY_QUOTA,
    decreases reports.len(),
{
    if reports.len() > 0 {
        let before = trace(state, config, reports.drop_last());
        resolver_calls_are_bounded(state, config, reports.drop_last());
        assert(trace(state, config, reports).drop_last() =~= before);
        lemma_step_spends(
            state_after(state, before),
            reports.last().stream,
            config,
            reports.last().event,
        );
    }
}

/// Once a tunnel is settled, no later step asks for a connection.
pub proof fn lemma_settled_run(state: TunnelState, config: ConfigView, reports: Seq<Report>)
    requires
        settled(state),
    ensures
        settled(state_after(state, trace(state, config, reports))),
        trace(state, config, reports).len() == reports.len(),
        forall|i: int|
            0 <= i < reports.len() ==> !(#[trigger] trace(state, config, reports)[i].action
                is Connect),
    decreases reports.len(),
{
    if reports.len() > 0 {
        let before = trace(state, config, reports.drop_last());
        lemma_settled_run(state, config, reports.drop_last());
        lemma_step_stays_settled(
            state_after(state, before),
            reports.last().stream,
            config,
            reports.last().event,
        );
    }
}

/// Once a candidate is connected, no other candidate is ever tried,
/// whatever happens to the tunnel afterwards.
pub proof fn no_dialling_once_connected(
    address: Seq<char>,
    port: u16,
    index: nat,
    stream: StreamState,
    config: ConfigView,
    reports: Seq<Report>,
    i: int,
)
    requires
        0 <= i < reports.len(),
    ensures
        ({
            let connected = step(
                TunnelState::Dialing { address, port, index },
                stream,
                config,
                EventView::Connected,
            );
            !(trace(connected.state, config, reports)[i].action is Connect)
        }),
{
    let connected = step(
        TunnelState::Dialing { address, port, index },
        stream,
        config,
        EventView::Connected,
    );
    lemma_settled_run(connected.state, config, reports);
}

/// The destinations of a TCP tunnel in the order in which they are tried:
/// the address that the client asked for, then the configured hosts.
pub open spec fn candidates(address: Seq<char>, fallbacks: Seq<Seq<char>>) -> Seq<Seq<char>> {
    seq![address] + fallbacks
}

/// Whether every one of the reports says that a connection could not be
/// opened.
pub open spec fn all_failed(reports: Seq<Report>) -> bool {
    forall|i: int| 0 <= i < reports.len() ==> (#[trigger] reports[i]).event is ConnectFailed
}

/// Candidates are tried strictly in order: when the first `k` of them
/// could not be connected, the tunnel dials candidate number `k`, and when
/// none is left it ends as `NoReachableTarget`.
pub proof fn candidates_are_dialled_in_order(
    address: Seq<char>,
    port: u16,
    config: ConfigView,
    reports: Seq<Report>,
)
    requires
        1 <= reports.len() <= config.proxy_ip.len() + 1,
        all_failed(reports),
    ensures
        trace(TunnelState::Dialing { address, port, index: 0 }, config, reports).len()
            == reports.len(),
        trace(TunnelState::Dialing { address, port, index: 0 }, config, reports).last()
            == if reports.len() <= config.proxy_ip.len() {
            Step {
                state: TunnelState::Dialing { address, port, index: reports.len() },
                stream: reports.last().stream,
                action: ActionView::Connect {
                    target: candidates(address, config.proxy_ip)[reports.len() as int],
                    port,
                },
            }
        } else {
            finish(reports.last().stream, Err(TunnelError::NoReachableTarget))
        },
    decreases reports.len(),
{
    let start = TunnelState::Dialing { address, port, index: 0 };
    assert(reports.last().event is ConnectFailed);
    if reports.len() > 1 {
        candidates_are_dialled_in_order(address, port, config, reports.drop_last());
    } else {
        assert(trace(start, config, reports.drop_last()).len() == 0);
    }
}

/// A UDP tunnel to any port but the DNS port is refused as
/// `UnsupportedNetwork` as soon as its header is decoded, and nothing is
/// written to the client.
pub proof fn udp_to_other_port_is_refused(
    config: ConfigView,
    padding: Seq<u8>,
    port: u16,
    address: WireAddress,
    rest: Seq<u8>,
)
    requires
        config.user_id.len() == 16,
        padding.len() <= 255,
        address.fits(),
        port != DNS_PORT,
    ensures
        step(
            TunnelState::Handshake,
            StreamState::opened(
                Some(header_bytes(config.user_id, padding, NetworkType::Udp, port, address) + rest),
            ),
            config,
            EventView::Started,
        ).action == ActionView::Finish(
            Err(TunnelError::Protocol(ProtocolError::UnsupportedNetwork)),
        ),
{
    decode_recovers_encoded(config.user_id, padding, NetworkType::Udp, port, address, rest);
}

/// A tunnel that begins with a whole TCP header among its early data
/// dials the address that the header names, and keeps what follows the
/// header for the destination.
pub proof fn tcp_header_leads_to_dialling(
    config: ConfigView,
    padding: Seq<u8>,
    port: u16,
    address: WireAddress,
    rest: Seq<u8>,
)
    requires
        config.user_id.len() == 16,
        padding.len() <= 255,
        address.fits(),
    ensures
        step(
            TunnelState::Handshake,
            StreamState::opened(
                Some(header_bytes(config.user_id, padding, NetworkType::Tcp, port, address) + rest),
            ),
            config,
            EventView::Started,
        ) == (Step {
            state: TunnelState::Dialing { address: address.text(), port, index: 0 },
            stream: StreamState { pending: rest, closed: false },
            action: ActionView::Connect { target: address.text(), port },
        }),
{
    let header = header_bytes(config.user_id, padding, NetworkType::Tcp, port, address);
    decode_recovers_encoded(config.user_id, padding, NetworkType::Tcp, port, address, rest);
    assert((header + rest).skip(header.len() as int) =~= rest);
}

} // verus!
