//! The tunnel orchestrator.
//!
//! A tunnel is a [`Tunnel`] state and one function, [`run_tunnel`], that
//! takes the state and what the caller reports, and answers with the next
//! state and what the caller is to do. The caller alone touches the
//! transport, the outbound socket and the resolver:
//!
//! | action           | the caller                              | and reports             |
//! |------------------|-----------------------------------------|-------------------------|
//! | `AwaitTransport` | takes the next event of the transport   | `Transport`             |
//! | `Connect`        | opens a connection to the target        | `Connected`, `ConnectFailed` |
//! | `Send`           | sends the bytes as one frame            | `Sent`, `SendFailed`    |
//! | `Pump`           | copies bytes both ways until one ends   | `Pumped`                |
//! | `Resolve`        | posts the query to the resolver         | `Resolved`, `ResolveFailed` |
//! | `Finish`         | closes the tunnel                       | nothing more            |
//!
//! [`step`] says, for every state and every report, what `run_tunnel`
//! answers.

use crate::codec::{
    base64_url_decoding, decode_base64_url, decode_hex, hex_decoding, Base64Error, HexError,
};
use crate::error::{ProtocolError, TransportError, TunnelError};
use crate::ext::{be_bytes, be_value, SliceReader, StreamExt};
use crate::handshake::{parse_header, read_handshake, Handshake, Outcome, RequestView};
use crate::protocol::{NetworkType, DNS_PORT, QUERY_QUOTA, RESPONSE};
use crate::websocket::{EventOutcome, Inbound, StreamState, TransportEvent, WebSocketStream};
use vstd::prelude::*;
use vstd::string::StringSliceAdditionalSpecFns;
use vstd::utf8::encode_utf8;

verus! {

/// What a relay is configured with. Built once, and only read afterwards.
#[derive(Debug)]
pub struct TunnelConfig {
    /// The credential that a client has to present: 16 bytes.
    pub user_id: Vec<u8>,
    /// Hosts that are tried, in order, after the address that the client
    /// asked for.
    pub proxy_ip: Vec<String>,
    /// Where requests that are no tunnel are sent on to, if anywhere.
    pub fallback_site: String,
    /// Whether the connection URI is shown to who asks for it.
    pub show_uri: bool,
}

/// What a tunnel reads of a [`TunnelConfig`], as contracts see it.
pub struct ConfigView {
    pub user_id: Seq<u8>,
    pub proxy_ip: Seq<Seq<char>>,
}

impl View for TunnelConfig {
    type V = ConfigView;

    open spec fn view(&self) -> ConfigView {
        ConfigView {
            user_id: self.user_id@,
            proxy_ip: Seq::new(self.proxy_ip@.len(), |i: int| self.proxy_ip@[i]@),
        }
    }
}

/// What a character of standard base64 becomes in the URL-safe alphabet.
pub open spec fn url_safe_char(c: char) -> char {
    if c == '+' {
        '-'
    } else if c == '/' {
        '_'
    } else {
        c
    }
}

/// Base64 text in the URL-safe alphabet and without padding: `+` becomes
/// `-`, `/` becomes `_`, and `=` is left out.
pub open spec fn url_safe(text: Seq<char>) -> Seq<char>
    decreases text.len(),
{
    if text.len() == 0 {
        Seq::<char>::empty()
    } else if text.last() == '=' {
        url_safe(text.drop_last())
    } else {
        url_safe(text.drop_last()).push(url_safe_char(text.last()))
    }
}

/// Rewrites base64 text into the URL-safe alphabet without padding.
pub fn to_url_safe(text: &str) -> (safe: String)
    ensures
        safe@ == url_safe(text@),
{
    let mut safe = String::new();
    for c in it: text.chars()
        invariant
            it.seq() == text@,
            safe@ == url_safe(text@.take(it.index() as int)),
    {
        proof {
            let k = it.index() as int;
            assert(text@.take(k + 1).drop_last() =~= text@.take(k));
            assert(text@.take(k + 1).last() == c);
        }
        if c == '+' {
            safe.push('-');
        } else if c == '/' {
            safe.push('_');
        } else if c != '=' {
            safe.push(c);
        }
    }
    proof {
        assert(text@.take(text@.len() as int) =~= text@);
    }
    safe
}

/// The early data that decoded base64 text stands for.
pub fn wrap_early_data(decoded: Result<Vec<u8>, Base64Error>) -> (r: Result<
    Option<Vec<u8>>,
    Base64Error,
>)
    ensures
        match decoded {
            Ok(bytes) => r == Ok::<Option<Vec<u8>>, Base64Error>(Some(bytes)),
            Err(e) => r == Err::<Option<Vec<u8>>, Base64Error>(e),
        },
{
    match decoded {
        Ok(bytes) => Ok(Some(bytes)),
        Err(e) => Err(e),
    }
}

/// What the text that came with an upgrade request holds as early data.
/// No text, or empty text, is no early data. Other text is made URL-safe
/// and decoded as base64; text too long for the decoder to size its output
/// is refused.
pub open spec fn early_data(data: Option<Seq<char>>) -> Result<Option<Seq<u8>>, Base64Error> {
    match data {
        None => Ok(None),
        Some(text) => if text.len() == 0 {
            Ok(None)
        } else if encode_utf8(url_safe(text)).len() + 7 > usize::MAX {
            Err(Base64Error::InvalidLength)
        } else {
            match base64_url_decoding(url_safe(text)) {
                Ok(bytes) => Ok(Some(bytes)),
                Err(e) => Err(e),
            }
        },
    }
}

/// Decodes the early data that came with the upgrade request. The text is
/// base64, in the standard or the URL-safe alphabet, with or without
/// padding.
pub fn parse_early_data(data: Option<String>) -> (r: Result<Option<Vec<u8>>, Base64Error>)
    ensures
        early_data(
            match data {
                Some(text) => Some(text@),
                None => None,
            },
        ) == match r {
            Ok(Some(bytes)) => Ok::<Option<Seq<u8>>, Base64Error>(Some(bytes@)),
            Ok(None) => Ok(None),
            Err(e) => Err(e),
        },
{
    match data {
        None => Ok(None),
        Some(text) => {
            if text.as_str().is_empty() {
                return Ok(None);
            }
            let safe = to_url_safe(text.as_str());
            if safe.as_str().as_bytes().len() > usize::MAX - 7 {
                return Err(Base64Error::InvalidLength);
            }
            wrap_early_data(decode_base64_url(safe.as_str()))
        },
    }
}

/// Decodes the credential from its hexadecimal form.
pub fn parse_user_id(user_id: &str) -> (r: Result<Vec<u8>, HexError>)
    ensures
        match r {
            Ok(bytes) => hex_decoding(user_id.spec_bytes()) == Ok::<Seq<u8>, HexError>(bytes@),
            Err(e) => hex_decoding(user_id.spec_bytes()) == Err::<Seq<u8>, HexError>(e),
        },
{
    decode_hex(user_id)
}

/// Why the byte pump stopped with an error.
#[derive(Clone, Copy, Debug, PartialEq, Eq, Structural)]
pub enum PumpFault {
    /// A write to a side that no longer reads.
    BrokenPipe,
    /// The peer reset the connection.
    PeerReset,
    /// One side was shut down while the other still wrote.
    ShutdownRace,
    /// Any other failure.
    Other,
}

impl PumpFault {
    /// Whether the fault only says that a side went away.
    pub open spec fn benign(self) -> bool {
        self != PumpFault::Other
    }

    /// Whether the fault only says that a side went away.
    pub fn is_benign(&self) -> (b: bool)
        ensures
            b == self.benign(),
    {
        match *self {
            PumpFault::Other => false,
            _ => true,
        }
    }
}

/// Where a tunnel stands: what it waits for.
#[derive(Debug, PartialEq, Eq)]
pub enum Tunnel {
    /// For the header to be complete.
    Handshake,
    /// For the connection to candidate number `index`: 0 is `address`, and
    /// `i + 1` is the configured host number `i`.
    Dialing { address: String, port: u16, index: usize },
    /// For the acknowledgment to go out to the client of a TCP tunnel.
    Acknowledging,
    /// For the byte pump to end.
    Pumping,
    /// For the acknowledgment to go out to the client of a DNS tunnel.
    DnsAcknowledging,
    /// For more bytes of the next query; `issued` resolver calls were made.
    DnsWaiting { issued: u8 },
    /// For the resolver to answer call number `issued`.
    Resolving { issued: u8 },
    /// For the length of a response to go out; `body` follows it.
    ReplyingLength { issued: u8, body: Vec<u8> },
    /// For the body of a response to go out.
    ReplyingBody { issued: u8 },
    /// For nothing: the tunnel has ended.
    Finished,
}

/// A [`Tunnel`], as contracts see it.
pub enum TunnelState {
    Handshake,
    Dialing { address: Seq<char>, port: u16, index: nat },
    Acknowledging,
    Pumping,
    DnsAcknowledging,
    DnsWaiting { issued: nat },
    Resolving { issued: nat },
    ReplyingLength { issued: nat, body: Seq<u8> },
    ReplyingBody { issued: nat },
    Finished,
}

impl View for Tunnel {
    type V = TunnelState;

    open spec fn view(&self) -> TunnelState {
        match *self {
            Tunnel::Handshake => TunnelState::Handshake,
            Tunnel::Dialing { address, port, index } => TunnelState::Dialing {
                address: address@,
                port,
                index: index as nat,
            },
            Tunnel::Acknowledging => TunnelState::Acknowledging,
            Tunnel::Pumping => TunnelState::Pumping,
            Tunnel::DnsAcknowledging => TunnelState::DnsAcknowledging,
            Tunnel::DnsWaiting { issued } => TunnelState::DnsWaiting { issued: issued as nat },
            Tunnel::Resolving { issued } => TunnelState::Resolving { issued: issued as nat },
            Tunnel::ReplyingLength { issued, body } => TunnelState::ReplyingLength {
                issued: issued as nat,
                body: body@,
            },
            Tunnel::ReplyingBody { issued } => TunnelState::ReplyingBody { issued: issued as nat },
            Tunnel::Finished => TunnelState::Finished,
        }
    }
}

/// What the caller reports to a tunnel.
#[derive(Debug, PartialEq, Eq)]
pub enum TunnelEvent {
    /// The tunnel begins.
    Started,
    /// The next event of the transport.
    Transport(TransportEvent),
    /// The outbound connection is open.
    Connected,
    /// The outbound connection could not be opened.
    ConnectFailed,
    /// The frame went out.
    Sent,
    /// The frame could not be sent.
    SendFailed,
    /// The byte pump ended: cleanly, or with a fault.
    Pumped(Option<PumpFault>),
    /// The resolver answered with this body.
    Resolved(Vec<u8>),
    /// The resolver call failed.
    ResolveFailed,
}

/// A [`TunnelEvent`], as contracts see it.
pub enum EventView {
    Started,
    Transport(Inbound),
    Connected,
    ConnectFailed,
    Sent,
    SendFailed,
    Pumped(Option<PumpFault>),
    Resolved(Seq<u8>),
    ResolveFailed,
}

impl View for TunnelEvent {
    type V = EventView;

    open spec fn view(&self) -> EventView {
        match *self {
            TunnelEvent::Started => EventView::Started,
            TunnelEvent::Transport(event) => EventView::Transport(event@),
            TunnelEvent::Connected => EventView::Connected,
            TunnelEvent::ConnectFailed => EventView::ConnectFailed,
            TunnelEvent::Sent => EventView::Sent,
            TunnelEvent::SendFailed => EventView::SendFailed,
            TunnelEvent::Pumped(fault) => EventView::Pumped(fault),
            TunnelEvent::Resolved(body) => EventView::Resolved(body@),
            TunnelEvent::ResolveFailed => EventView::ResolveFailed,
        }
    }
}

/// What the caller is to do next.
#[derive(Debug, PartialEq, Eq)]
pub enum TunnelAction {
    /// Take the next event of the transport.
    AwaitTransport,
    /// Open a connection to `target` at `port`.
    Connect { target: String, port: u16 },
    /// Send these bytes to the client, as one frame.
    Send(Vec<u8>),
    /// Copy bytes between client and destination until one side ends.
    Pump,
    /// Post this query to the resolver.
    Resolve(Vec<u8>),
    /// Close the tunnel with this result.
    Finish(Result<(), TunnelError>),
}

/// A [`TunnelAction`], as contracts see it.
pub enum ActionView {
    AwaitTransport,
    Connect { target: Seq<char>, port: u16 },
    Send(Seq<u8>),
    Pump,
    Resolve(Seq<u8>),
    Finish(Result<(), TunnelError>),
}

impl View for TunnelAction {
    type V = ActionView;

    open spec fn view(&self) -> ActionView {
        match *self {
            TunnelAction::AwaitTransport => ActionView::AwaitTransport,
            TunnelAction::Connect { target, port } => ActionView::Connect { target: target@, port },
            TunnelAction::Send(bytes) => ActionView::Send(bytes@),
            TunnelAction::Pump => ActionView::Pump,
            TunnelAction::Resolve(query) => ActionView::Resolve(query@),
            TunnelAction::Finish(result) => ActionView::Finish(result),
        }
    }
}

/// One step of a tunnel: where it stands afterwards, what is left of the
/// stream, and what the caller is to do.
pub struct Step {
    pub state: TunnelState,
    pub stream: StreamState,
    pub action: ActionView,
}

/// The tunnel ends.
pub open spec fn finish(stream: StreamState, result: Result<(), TunnelError>) -> Step {
    Step { state: TunnelState::Finished, stream, action: ActionView::Finish(result) }
}

/// The tunnel waits in `state` for the transport.
pub open spec fn wait(state: TunnelState, stream: StreamState) -> Step {
    Step { state, stream, action: ActionView::AwaitTransport }
}

/// The acknowledgment is written to the client, and the tunnel goes on in
/// `next`. Nothing is written to a closed stream.
pub open spec fn acknowledge(stream: StreamState, next: TunnelState) -> Step {
    if stream.closed {
        finish(stream, Err(TunnelError::Transport(TransportError::BrokenPipe)))
    } else {
        Step { state: next, stream, action: ActionView::Send(RESPONSE@) }
    }
}

/// The step of a TCP tunnel.
///
/// Candidates are dialled strictly in order, and the next one only after
/// the one before could not be connected. Once a candidate is connected no
/// other is tried: the acknowledgment goes out, then the pump runs, and a
/// fault of the pump ends the tunnel, as a success where it is benign.
pub open spec fn tcp_step(
    state: TunnelState,
    stream: StreamState,
    fallbacks: Seq<Seq<char>>,
    event: EventView,
) -> Step {
    match state {
        TunnelState::Dialing { address, port, index } => match event {
            EventView::Connected => acknowledge(stream, TunnelState::Acknowledging),
            EventView::ConnectFailed => if index < fallbacks.len() {
                Step {
                    state: TunnelState::Dialing { address, port, index: index + 1 },
                    stream,
                    action: ActionView::Connect { target: fallbacks[index as int], port },
                }
            } else {
                finish(stream, Err(TunnelError::NoReachableTarget))
            },
            _ => finish(stream, Err(TunnelError::OutOfTurn)),
        },
        TunnelState::Acknowledging => match event {
            EventView::Sent => Step { state: TunnelState::Pumping, stream, action: ActionView::Pump },
            EventView::SendFailed => finish(
                stream,
                Err(TunnelError::Transport(TransportError::Failed)),
            ),
            _ => finish(stream, Err(TunnelError::OutOfTurn)),
        },
        TunnelState::Pumping => match event {
            EventView::Pumped(None) => finish(stream, Ok(())),
            EventView::Pumped(Some(fault)) => if fault.benign() {
                finish(stream, Ok(()))
            } else {
                finish(stream, Err(TunnelError::Relay))
            },
            _ => finish(stream, Err(TunnelError::OutOfTurn)),
        },
        _ => finish(stream, Err(TunnelError::OutOfTurn)),
    }
}

/// What a read of one framed query came to.
#[derive(Debug, PartialEq, Eq)]
pub enum QueryRead {
    /// A whole query, without its length prefix.
    Query(Vec<u8>),
    /// Fewer than the two bytes of a length are there.
    NoLength,
    /// The length is there; the query behind it is not whole.
    Cut,
}

/// Reads one query: a 16-bit length, most significant byte first, and so
/// many bytes.
pub fn read_query<S: StreamExt>(stream: &mut S) -> (r: QueryRead)
    ensures
        final(stream).ended() == old(stream).ended(),
        match r {
            QueryRead::Query(query) => {
                &&& old(stream).unread().len() >= 2
                &&& 2 + be_value(old(stream).unread().take(2)) <= old(stream).unread().len()
                &&& query@ == old(stream).unread().subrange(
                    2,
                    2 + be_value(old(stream).unread().take(2)) as int,
                )
                &&& final(stream).unread() == old(stream).unread().skip(
                    2 + be_value(old(stream).unread().take(2)) as int,
                )
            },
            QueryRead::NoLength => {
                &&& old(stream).unread().len() < 2
                &&& final(stream).unread() == old(stream).unread()
            },
            QueryRead::Cut => {
                &&& old(stream).unread().len() >= 2
                &&& old(stream).unread().len() < 2 + be_value(old(stream).unread().take(2))
                &&& final(stream).unread() == old(stream).unread().skip(2)
            },
        },
{
    let ghost all = stream.unread();
    let length = match stream.read_u16() {
        Ok(length) => length,
        Err(_) => {
            return QueryRead::NoLength;
        },
    };
    match stream.read_bytes(length as usize) {
        Ok(query) => {
            proof {
                assert(all.skip(2).take(length as int) =~= all.subrange(2, 2 + length));
                assert(all.skip(2).skip(length as int) =~= all.skip(2 + length));
            }
            QueryRead::Query(query)
        },
        Err(_) => QueryRead::Cut,
    }
}

/// The next query of a DNS tunnel, after `issued` resolver calls.
///
/// With the quota used up the tunnel ends cleanly, and so it does when the
/// stream ends where a length would start. A stream that ends inside a
/// query is an error. A whole query is taken from the stream and goes to
/// the resolver.
pub open spec fn next_query(stream: StreamState, issued: nat) -> Step {
    let length = be_value(stream.pending.take(2)) as int;
    if issued >= QUERY_QUOTA {
        finish(stream, Ok(()))
    } else if stream.pending.len() < 2 {
        if stream.closed {
            finish(stream, Ok(()))
        } else {
            wait(TunnelState::DnsWaiting { issued }, stream)
        }
    } else if stream.pending.len() < 2 + length {
        if stream.closed {
            finish(stream, Err(TunnelError::Transport(TransportError::UnexpectedEof)))
        } else {
            wait(TunnelState::DnsWaiting { issued }, stream)
        }
    } else {
        Step {
            state: TunnelState::Resolving { issued: issued + 1 },
            stream: StreamState {
                pending: stream.pending.skip(2 + length),
                closed: stream.closed,
            },
            action: ActionView::Resolve(stream.pending.subrange(2, 2 + length)),
        }
    }
}

/// The length prefix of a response of `len` bytes: its lower 16 bits, most
/// significant byte first.
pub open spec fn reply_length(len: nat) -> Seq<u8> {
    be_bytes(len % 0x1_0000, 2)
}

/// The step of a DNS tunnel.
///
/// After the acknowledgment, queries are answered one after the other. A
/// resolver call that fails, or answers with nothing, is passed over. An
/// answer goes back as its length, then its body.
pub open spec fn dns_step(state: TunnelState, stream: StreamState, event: EventView) -> Step {
    match state {
        TunnelState::DnsAcknowledging => match event {
            EventView::Sent => next_query(stream, 0),
            EventView::SendFailed => finish(
                stream,
                Err(TunnelError::Transport(TransportError::Failed)),
            ),
            _ => finish(stream, Err(TunnelError::OutOfTurn)),
        },
        TunnelState::DnsWaiting { issued } => match event {
            EventView::Transport(inbound) => if stream.event_outcome(inbound)
                == EventOutcome::Failed {
                finish(
                    stream.after_event(inbound),
                    Err(TunnelError::Transport(TransportError::Failed)),
                )
            } else {
                next_query(stream.after_event(inbound), issued)
            },
            _ => finish(stream, Err(TunnelError::OutOfTurn)),
        },
        TunnelState::Resolving { issued } => match event {
            EventView::Resolved(body) => if body.len() == 0 {
                next_query(stream, issued)
            } else if stream.closed {
                finish(stream, Err(TunnelError::Transport(TransportError::BrokenPipe)))
            } else {
                Step {
                    state: TunnelState::ReplyingLength { issued, body },
                    stream,
                    action: ActionView::Send(reply_length(body.len())),
                }
            },
            EventView::ResolveFailed => next_query(stream, issued),
            _ => finish(stream, Err(TunnelError::OutOfTurn)),
        },
        TunnelState::ReplyingLength { issued, body } => match event {
            EventView::Sent => if stream.closed {
                finish(stream, Err(TunnelError::Transport(TransportError::BrokenPipe)))
            } else {
                Step {
                    state: TunnelState::ReplyingBody { issued },
                    stream,
                    action: ActionView::Send(body),
                }
            },
            EventView::SendFailed => finish(
                stream,
                Err(TunnelError::Transport(TransportError::Failed)),
            ),
            _ => finish(stream, Err(TunnelError::OutOfTurn)),
        },
        TunnelState::ReplyingBody { issued } => match event {
            EventView::Sent => next_query(stream, issued),
            EventView::SendFailed => finish(
                stream,
                Err(TunnelError::Transport(TransportError::Failed)),
            ),
            _ => finish(stream, Err(TunnelError::OutOfTurn)),
        },
        _ => finish(stream, Err(TunnelError::OutOfTurn)),
    }
}

/// What a decoded request leads to. A TCP request starts dialling with the
/// address that the client asked for. A UDP request is served for the DNS
/// port alone; for any other port it is refused before anything is written.
pub open spec fn dispatch(request: RequestView, stream: StreamState) -> Step {
    match request.network_type {
        NetworkType::Tcp => Step {
            state: TunnelState::Dialing {
                address: request.target_address,
                port: request.port,
                index: 0,
            },
            stream,
            action: ActionView::Connect { target: request.target_address, port: request.port },
        },
        NetworkType::Udp => if request.port != DNS_PORT {
            finish(stream, Err(TunnelError::Protocol(ProtocolError::UnsupportedNetwork)))
        } else {
            acknowledge(stream, TunnelState::DnsAcknowledging)
        },
    }
}

/// Decodes the header from what is pending. While the header is not whole
/// nothing is taken from the stream, and the tunnel waits for the transport
/// unless the stream has ended.
pub open spec fn decode_step(stream: StreamState, credential: Seq<u8>) -> Step {
    let parsed = parse_header(stream.pending, credential);
    let rest = StreamState {
        pending: stream.pending.skip(parsed.consumed),
        closed: stream.closed,
    };
    match parsed.outcome {
        Outcome::Truncated => if stream.closed {
            finish(stream, Err(TunnelError::Transport(TransportError::UnexpectedEof)))
        } else {
            wait(TunnelState::Handshake, stream)
        },
        Outcome::Rejected(e) => finish(rest, Err(TunnelError::Protocol(e))),
        Outcome::Request(request) => dispatch(request, rest),
    }
}

/// The step of a tunnel that has no whole header yet.
pub open spec fn handshake_step(stream: StreamState, credential: Seq<u8>, event: EventView) -> Step {
    match event {
        EventView::Started => decode_step(stream, credential),
        EventView::Transport(inbound) => if stream.event_outcome(inbound) == EventOutcome::Failed {
            finish(
                stream.after_event(inbound),
                Err(TunnelError::Transport(TransportError::Failed)),
            )
        } else {
            decode_step(stream.after_event(inbound), credential)
        },
        _ => finish(stream, Err(TunnelError::OutOfTurn)),
    }
}

/// One step of a tunnel. A report that does not answer what the tunnel
/// waits for ends it as `OutOfTurn`.
pub open spec fn step(
    state: TunnelState,
    stream: StreamState,
    config: ConfigView,
    event: EventView,
) -> Step {
    match state {
        TunnelState::Handshake => handshake_step(stream, config.user_id, event),
        TunnelState::Dialing { .. } => tcp_step(state, stream, config.proxy_ip, event),
        TunnelState::Acknowledging => tcp_step(state, stream, config.proxy_ip, event),
        TunnelState::Pumping => tcp_step(state, stream, config.proxy_ip, event),
        TunnelState::Finished => finish(stream, Err(TunnelError::OutOfTurn)),
        _ => dns_step(state, stream, event),
    }
}

/// The step that `next` and `action` make together with `stream`.
pub open spec fn made(next: (Tunnel, TunnelAction), stream: StreamState) -> Step {
    Step { state: next.0@, stream, action: next.1@ }
}

/// The tunnel ends with `result`.
fn end(result: Result<(), TunnelError>) -> (next: (Tunnel, TunnelAction))
    ensures
        next.0@ == TunnelState::Finished,
        next.1@ == ActionView::Finish(result),
{
    (Tunnel::Finished, TunnelAction::Finish(result))
}

/// Hands out the acknowledgment for the client, unless the stream is
/// closed; the tunnel goes on in `then`.
fn send_acknowledgment(socket: &WebSocketStream, then: Tunnel) -> (next: (Tunnel, TunnelAction))
    ensures
        made(next, socket@) == acknowledge(socket@, then@),
{
    let mut frame: Vec<u8> = Vec::new();
    frame.push(RESPONSE[0]);
    frame.push(RESPONSE[1]);
    assert(frame@ =~= RESPONSE@);
    match socket.write(frame.as_slice()) {
        Ok(_) => (then, TunnelAction::Send(frame)),
        Err(e) => end(Err(TunnelError::Transport(e))),
    }
}

/// One step of a TCP tunnel: dialling the candidates in order, then the
/// acknowledgment, then the pump.
fn process_tcp_outbound(
    tunnel: Tunnel,
    socket: &WebSocketStream,
    config: &TunnelConfig,
    event: TunnelEvent,
) -> (next: (Tunnel, TunnelAction))
    ensures
        made(next, socket@) == tcp_step(tunnel@, socket@, config@.proxy_ip, event@),
{
    match tunnel {
        Tunnel::Dialing { address, port, index } => match event {
            TunnelEvent::Connected => send_acknowledgment(socket, Tunnel::Acknowledging),
            TunnelEvent::ConnectFailed => {
                if index < config.proxy_ip.len() {
                    let target = config.proxy_ip[index].clone();
                    (
                        Tunnel::Dialing { address, port, index: index + 1 },
                        TunnelAction::Connect { target, port },
                    )
                } else {
                    end(Err(TunnelError::NoReachableTarget))
                }
            },
            _ => end(Err(TunnelError::OutOfTurn)),
        },
        Tunnel::Acknowledging => match event {
            TunnelEvent::Sent => (Tunnel::Pumping, TunnelAction::Pump),
            TunnelEvent::SendFailed => end(Err(TunnelError::Transport(TransportError::Failed))),
            _ => end(Err(TunnelError::OutOfTurn)),
        },
        Tunnel::Pumping => match event {
            TunnelEvent::Pumped(None) => end(Ok(())),
            TunnelEvent::Pumped(Some(fault)) => {
                if fault.is_benign() {
                    end(Ok(()))
                } else {
                    end(Err(TunnelError::Relay))
                }
            },
            _ => end(Err(TunnelError::OutOfTurn)),
        },
        _ => end(Err(TunnelError::OutOfTurn)),
    }
}

/// Takes the next query from the stream, if the quota allows one and a
/// whole one is there.
fn take_query(socket: &mut WebSocketStream, issued: u8) -> (next: (Tunnel, TunnelAction))
    ensures
        made(next, final(socket)@) == next_query(old(socket)@, issued as nat),
{
    if issued >= QUERY_QUOTA {
        return end(Ok(()));
    }
    let closed = socket.is_closed();
    let pending = socket.pending();
    let mut reader = SliceReader::new(pending, closed);
    let read = read_query(&mut reader);
    let taken = pending.len() - reader.remaining();
    match read {
        QueryRead::Query(query) => {
            socket.discard(taken);
            (Tunnel::Resolving { issued: issued + 1 }, TunnelAction::Resolve(query))
        },
        QueryRead::NoLength => {
            if closed {
                end(Ok(()))
            } else {
                (Tunnel::DnsWaiting { issued }, TunnelAction::AwaitTransport)
            }
        },
        QueryRead::Cut => {
            if closed {
                end(Err(TunnelError::Transport(TransportError::UnexpectedEof)))
            } else {
                (Tunnel::DnsWaiting { issued }, TunnelAction::AwaitTransport)
            }
        },
    }
}

/// The two bytes that go out before a response of `len` bytes.
fn length_prefix(len: usize) -> (prefix: Vec<u8>)
    ensures
        prefix@ == reply_length(len as nat),
{
    let low = (len % 0x1_0000) as u16;
    let mut prefix: Vec<u8> = Vec::new();
    prefix.push((low / 0x100) as u8);
    prefix.push((low % 0x100) as u8);
    proof {
        reveal_with_fuel(be_bytes, 3);
        assert(prefix@ =~= reply_length(len as nat));
    }
    prefix
}

/// One step of a DNS tunnel: queries are read from the client one after
/// the other, and each answer of the resolver goes back with its length
/// before it.
fn process_udp_outbound(tunnel: Tunnel, socket: &mut WebSocketStream, event: TunnelEvent) -> (next: (
    Tunnel,
    TunnelAction,
))
    ensures
        made(next, final(socket)@) == dns_step(tunnel@, old(socket)@, event@),
{
    match tunnel {
        Tunnel::DnsAcknowledging => match event {
            TunnelEvent::Sent => take_query(socket, 0),
            TunnelEvent::SendFailed => end(Err(TunnelError::Transport(TransportError::Failed))),
            _ => end(Err(TunnelError::OutOfTurn)),
        },
        Tunnel::DnsWaiting { issued } => match event {
            TunnelEvent::Transport(inbound) => {
                match socket.on_event(inbound) {
                    EventOutcome::Failed => end(
                        Err(TunnelError::Transport(TransportError::Failed)),
                    ),
                    _ => take_query(socket, issued),
                }
            },
            _ => end(Err(TunnelError::OutOfTurn)),
        },
        Tunnel::Resolving { issued } => match event {
            TunnelEvent::Resolved(body) => {
                if body.len() == 0 {
                    take_query(socket, issued)
                } else {
                    let prefix = length_prefix(body.len());
                    match socket.write(prefix.as_slice()) {
                        Ok(_) => (
                            Tunnel::ReplyingLength { issued, body },
                            TunnelAction::Send(prefix),
                        ),
                        Err(e) => end(Err(TunnelError::Transport(e))),
                    }
                }
            },
            TunnelEvent::ResolveFailed => take_query(socket, issued),
            _ => end(Err(TunnelError::OutOfTurn)),
        },
        Tunnel::ReplyingLength { issued, body } => match event {
            TunnelEvent::Sent => match socket.write(body.as_slice()) {
                Ok(_) => (Tunnel::ReplyingBody { issued }, TunnelAction::Send(body)),
                Err(e) => end(Err(TunnelError::Transport(e))),
            },
            TunnelEvent::SendFailed => end(Err(TunnelError::Transport(TransportError::Failed))),
            _ => end(Err(TunnelError::OutOfTurn)),
        },
        Tunnel::ReplyingBody { issued } => match event {
            TunnelEvent::Sent => take_query(socket, issued),
            TunnelEvent::SendFailed => end(Err(TunnelError::Transport(TransportError::Failed))),
            _ => end(Err(TunnelError::OutOfTurn)),
        },
        _ => end(Err(TunnelError::OutOfTurn)),
    }
}

/// Decodes the header from what is pending, and acts on the request.
fn decode_and_dispatch(socket: &mut WebSocketStream, config: &TunnelConfig) -> (next: (
    Tunnel,
    TunnelAction,
))
    ensures
        made(next, final(socket)@) == decode_step(old(socket)@, config@.user_id),
{
    let closed = socket.is_closed();
    let pending = socket.pending();
    let mut reader = SliceReader::new(pending, closed);
    let handshake = read_handshake(&mut reader, config.user_id.as_slice());
    let taken = pending.len() - reader.remaining();
    match handshake {
        Handshake::Truncated => {
            if closed {
                end(Err(TunnelError::Transport(TransportError::UnexpectedEof)))
            } else {
                (Tunnel::Handshake, TunnelAction::AwaitTransport)
            }
        },
        Handshake::Rejected(e) => {
            socket.discard(taken);
            end(Err(TunnelError::Protocol(e)))
        },
        Handshake::Request(request) => {
            socket.discard(taken);
            match request.network_type {
                NetworkType::Tcp => {
                    let target = request.target_address.clone();
                    (
                        Tunnel::Dialing {
                            address: request.target_address,
                            port: request.port,
                            index: 0,
                        },
                        TunnelAction::Connect { target, port: request.port },
                    )
                },
                NetworkType::Udp => {
                    if request.port != DNS_PORT {
                        end(Err(TunnelError::Protocol(ProtocolError::UnsupportedNetwork)))
                    } else {
                        send_acknowledgment(socket, Tunnel::DnsAcknowledging)
                    }
                },
            }
        },
    }
}

/// Takes a tunnel one step further.
///
/// `tunnel` is where the tunnel stands, `socket` its inbound stream and
/// `event` what the caller reports: that the tunnel begins, or what came of
/// the action that the step before asked for. The answer is where the
/// tunnel stands now and what the caller is to do next.
pub fn run_tunnel(
    tunnel: Tunnel,
    socket: &mut WebSocketStream,
    config: &TunnelConfig,
    event: TunnelEvent,
) -> (next: (Tunnel, TunnelAction))
    ensures
        made(next, final(socket)@) == step(tunnel@, old(socket)@, config@, event@),
{
    match tunnel {
        Tunnel::Handshake => match event {
            TunnelEvent::Started => decode_and_dispatch(socket, config),
            TunnelEvent::Transport(inbound) => {
                match socket.on_event(inbound) {
                    EventOutcome::Failed => end(
                        Err(TunnelError::Transport(TransportError::Failed)),
                    ),
                    _ => decode_and_dispatch(socket, config),
                }
            },
            _ => end(Err(TunnelError::OutOfTurn)),
        },
        Tunnel::Dialing { .. } => process_tcp_outbound(tunnel, socket, config, event),
        Tunnel::Acknowledging => process_tcp_outbound(tunnel, socket, config, event),
        Tunnel::Pumping => process_tcp_outbound(tunnel, socket, config, event),
        Tunnel::Finished => end(Err(TunnelError::OutOfTurn)),
        _ => process_udp_outbound(tunnel, socket, event),
    }
}

} // verus!
