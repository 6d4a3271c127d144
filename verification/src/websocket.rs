//! A byte stream over a transport that delivers whole frames.
//!
//! [`WebSocketStream`] is the buffered state of one tunnel's inbound side:
//! the bytes that have arrived and were not read yet, and whether the stream
//! is closed. It never touches the transport. A read that finds nothing
//! buffered answers [`ReadStep::Wait`]; the caller then takes the next event
//! from the transport and hands it to [`WebSocketStream::on_event`].

use crate::buffer::{
    buffer_as_slice, buffer_bytes, buffer_len, buffer_put_slice, buffer_split_to,
    buffer_with_capacity,
};
use crate::error::TransportError;
use bytes::BytesMut;
use vstd::prelude::*;

verus! {

/// Room set aside for inbound bytes when a stream is made.
pub const INITIAL_CAPACITY: usize = 4096;

/// The buffered inbound side of one tunnel.
pub struct WebSocketStream {
    buffer: BytesMut,
    closed: bool,
}

/// What a stream is, as contracts see it.
pub struct StreamState {
    /// Bytes that arrived and were not read yet, oldest first.
    pub pending: Seq<u8>,
    /// Once true, reads end and writes fail.
    pub closed: bool,
}

/// One inbound event of the transport.
#[derive(Debug, PartialEq, Eq)]
pub enum TransportEvent {
    /// A data frame with its payload.
    Frame(Vec<u8>),
    /// The peer closed the transport.
    Close,
    /// The transport failed.
    Error,
}

/// A [`TransportEvent`], as contracts see it.
pub enum Inbound {
    Frame(Seq<u8>),
    Close,
    Error,
}

/// What a read came to.
#[derive(Debug, PartialEq, Eq)]
pub enum ReadStep {
    /// Bytes taken from the front of the buffer.
    Data(Vec<u8>),
    /// Nothing is buffered and the stream is closed.
    EndOfStream,
    /// Nothing is buffered; the next transport event is needed.
    Wait,
}

/// A [`ReadStep`], as contracts see it.
pub enum ReadOutcome {
    Data(Seq<u8>),
    EndOfStream,
    Wait,
}

/// What the read that waited for an event does once the event is in.
#[derive(Clone, Copy, Debug, PartialEq, Eq, Structural)]
pub enum EventOutcome {
    /// Bytes may have arrived: read again.
    Retry,
    /// The read ends with zero bytes and no error.
    EndOfStream,
    /// The read ends with an error.
    Failed,
}

impl View for TransportEvent {
    type V = Inbound;

    open spec fn view(&self) -> Inbound {
        match *self {
            TransportEvent::Frame(data) => Inbound::Frame(data@),
            TransportEvent::Close => Inbound::Close,
            TransportEvent::Error => Inbound::Error,
        }
    }
}

impl View for ReadStep {
    type V = ReadOutcome;

    open spec fn view(&self) -> ReadOutcome {
        match *self {
            ReadStep::Data(bytes) => ReadOutcome::Data(bytes@),
            ReadStep::EndOfStream => ReadOutcome::EndOfStream,
            ReadStep::Wait => ReadOutcome::Wait,
        }
    }
}

impl StreamState {
    /// A fresh stream: open, and holding the early data if there is any.
    pub open spec fn opened(early_data: Option<Seq<u8>>) -> StreamState {
        StreamState {
            pending: match early_data {
                Some(data) => data,
                None => Seq::<u8>::empty(),
            },
            closed: false,
        }
    }

    /// How many bytes a read of at most `max` bytes takes.
    pub open spec fn read_len(self, max: nat) -> nat {
        if self.pending.len() <= max {
            self.pending.len()
        } else {
            max
        }
    }

    /// What a read of at most `max` bytes answers.
    pub open spec fn read_outcome(self, max: nat) -> ReadOutcome {
        if self.pending.len() > 0 {
            ReadOutcome::Data(self.pending.take(self.read_len(max) as int))
        } else if self.closed {
            ReadOutcome::EndOfStream
        } else {
            ReadOutcome::Wait
        }
    }

    /// The stream after a read of at most `max` bytes.
    pub open spec fn after_read(self, max: nat) -> StreamState {
        StreamState { pending: self.pending.skip(self.read_len(max) as int), closed: self.closed }
    }

    /// Whether a frame of `len` bytes can be queued behind what is pending.
    pub open spec fn has_room(self, len: nat) -> bool {
        self.pending.len() + len <= usize::MAX
    }

    /// The stream after an inbound event. A closed stream takes in nothing.
    pub open spec fn after_event(self, event: Inbound) -> StreamState {
        if self.closed {
            self
        } else {
            match event {
                Inbound::Frame(data) => if self.has_room(data.len()) {
                    StreamState { pending: self.pending + data, closed: false }
                } else {
                    StreamState { pending: self.pending, closed: true }
                },
                Inbound::Close => StreamState { pending: self.pending, closed: true },
                Inbound::Error => StreamState { pending: self.pending, closed: true },
            }
        }
    }

    /// What the waiting read does after an inbound event.
    pub open spec fn event_outcome(self, event: Inbound) -> EventOutcome {
        if self.closed {
            EventOutcome::EndOfStream
        } else {
            match event {
                Inbound::Frame(data) => if self.has_room(data.len()) {
                    EventOutcome::Retry
                } else {
                    EventOutcome::Failed
                },
                Inbound::Close => EventOutcome::EndOfStream,
                Inbound::Error => EventOutcome::Failed,
            }
        }
    }

    /// What a write of `len` bytes answers: the whole of it goes out as one
    /// frame, or nothing does.
    pub open spec fn write_outcome(self, len: nat) -> Result<usize, TransportError> {
        if self.closed {
            Err(TransportError::BrokenPipe)
        } else {
            Ok(len as usize)
        }
    }

    /// What a flush answers.
    pub open spec fn flush_outcome(self) -> Result<(), TransportError> {
        if self.closed {
            Err(TransportError::BrokenPipe)
        } else {
            Ok(())
        }
    }

    /// The stream after a shutdown.
    pub open spec fn after_shutdown(self) -> StreamState {
        StreamState { pending: self.pending, closed: true }
    }
}

impl View for WebSocketStream {
    type V = StreamState;

    closed spec fn view(&self) -> StreamState {
        StreamState { pending: buffer_bytes(self.buffer), closed: self.closed }
    }
}

impl WebSocketStream {
    /// A stream for a tunnel that begins. Early data, where there is any,
    /// is queued before any frame arrives.
    pub fn new(early_data: Option<Vec<u8>>) -> (stream: Self)
        ensures
            stream@ == StreamState::opened(
                match early_data {
                    Some(data) => Some(data@),
                    None => None,
                },
            ),
    {
        let mut buffer = buffer_with_capacity(INITIAL_CAPACITY);
        if let Some(data) = early_data {
            assert(data.len() <= usize::MAX);
            buffer_put_slice(&mut buffer, data.as_slice());
            assert(buffer_bytes(buffer) =~= data@);
        }
        WebSocketStream { buffer, closed: false }
    }

    /// Reads at most `max` bytes. Buffered bytes are handed out at once, the
    /// oldest first. With nothing buffered, a closed stream is at its end and
    /// an open one has to wait for the transport.
    pub fn read(&mut self, max: usize) -> (step: ReadStep)
        ensures
            step@ == old(self)@.read_outcome(max as nat),
            final(self)@ == old(self)@.after_read(max as nat),
    {
        let len = buffer_len(&self.buffer);
        if len > 0 {
            let amount = if len <= max {
                len
            } else {
                max
            };
            let bytes = buffer_split_to(&mut self.buffer, amount);
            ReadStep::Data(bytes)
        } else {
            assert(buffer_bytes(self.buffer).skip(0) =~= buffer_bytes(self.buffer));
            if self.closed {
                ReadStep::EndOfStream
            } else {
                ReadStep::Wait
            }
        }
    }

    /// Takes in the transport event that a read waited for. A frame is
    /// queued behind what is pending. A close, an error, or a frame that
    /// cannot be queued closes the stream. A stream that is already closed
    /// takes in nothing.
    pub fn on_event(&mut self, event: TransportEvent) -> (outcome: EventOutcome)
        ensures
            outcome == old(self)@.event_outcome(event@),
            final(self)@ == old(self)@.after_event(event@),
    {
        if self.closed {
            return EventOutcome::EndOfStream;
        }
        match event {
            TransportEvent::Frame(data) => {
                let len = buffer_len(&self.buffer);
                if data.len() <= usize::MAX - len {
                    buffer_put_slice(&mut self.buffer, data.as_slice());
                    EventOutcome::Retry
                } else {
                    self.closed = true;
                    EventOutcome::Failed
                }
            },
            TransportEvent::Close => {
                self.closed = true;
                EventOutcome::EndOfStream
            },
            TransportEvent::Error => {
                self.closed = true;
                EventOutcome::Failed
            },
        }
    }

    /// Asks to send `bytes`. On an open stream the answer is their number:
    /// all of them go out, as one frame. On a closed stream nothing may be
    /// sent.
    pub fn write(&self, bytes: &[u8]) -> (r: Result<usize, TransportError>)
        ensures
            r == self@.write_outcome(bytes@.len()),
    {
        if self.closed {
            Err(TransportError::BrokenPipe)
        } else {
            Ok(bytes.len())
        }
    }

    /// Nothing is ever held back, so a flush only fails on a closed stream.
    pub fn flush(&self) -> (r: Result<(), TransportError>)
        ensures
            r == self@.flush_outcome(),
    {
        if self.closed {
            Err(TransportError::BrokenPipe)
        } else {
            Ok(())
        }
    }

    /// Closes the stream. The answer is true when the stream was open, and
    /// a close notification is then to be sent; later calls answer false.
    pub fn shutdown(&mut self) -> (notify: bool)
        ensures
            notify == !old(self)@.closed,
            final(self)@ == old(self)@.after_shutdown(),
    {
        let notify = !self.closed;
        self.closed = true;
        notify
    }

    /// Whether the stream is closed.
    pub fn is_closed(&self) -> (closed: bool)
        ensures
            closed == self@.closed,
    {
        self.closed
    }

    /// The bytes that arrived and were not read yet.
    pub fn pending(&self) -> (bytes: &[u8])
        ensures
            bytes@ == self@.pending,
    {
        buffer_as_slice(&self.buffer)
    }

    /// Drops the first `n` pending bytes, or all of them if there are fewer.
    pub fn discard(&mut self, n: usize)
        ensures
            final(self)@ == old(self)@.after_read(n as nat),
    {
        let len = buffer_len(&self.buffer);
        let amount = if len <= n {
            len
        } else {
            n
        };
        let _ = buffer_split_to(&mut self.buffer, amount);
    }
}

/// One call on a stream, as contracts see it.
pub enum StreamCall {
    /// A read of at most so many bytes.
    Read(nat),
    /// An inbound event handed in.
    Event(Inbound),
    /// A read of a field of so many bytes, which takes all of them or none.
    Field(nat),
    /// So many bytes dropped from the front.
    Discard(nat),
    /// A write of so many bytes.
    Write(nat),
    Flush,
    Shutdown,
}

impl StreamState {
    /// The stream after one call.
    pub open spec fn after(self, call: StreamCall) -> StreamState {
        match call {
            StreamCall::Read(max) => self.after_read(max),
            StreamCall::Event(event) => self.after_event(event),
            StreamCall::Field(n) => if n <= self.pending.len() {
                self.after_read(n)
            } else {
                self
            },
            StreamCall::Discard(n) => self.after_read(n),
            StreamCall::Write(_) => self,
            StreamCall::Flush => self,
            StreamCall::Shutdown => self.after_shutdown(),
        }
    }

    /// The stream after a run of calls, the first of them first.
    pub open spec fn after_all(self, calls: Seq<StreamCall>) -> StreamState
        decreases calls.len(),
    {
        if calls.len() == 0 {
            self
        } else {
            self.after_all(calls.drop_last()).after(calls.last())
        }
    }
}

/// Early data is what the first read returns, before any frame was taken
/// in: its first `max` bytes in order, and all of it when `max` allows.
pub proof fn early_data_is_read_first(early_data: Seq<u8>, max: nat)
    requires
        early_data.len() > 0,
    ensures
        StreamState::opened(Some(early_data)).read_outcome(max) == ReadOutcome::Data(
            early_data.take(if early_data.len() <= max { early_data.len() as int } else { max as int }),
        ),
        max >= early_data.len() ==> StreamState::opened(Some(early_data)).read_outcome(max)
            == ReadOutcome::Data(early_data),
        StreamState::opened(Some(early_data)).after_read(max).pending == early_data.skip(
            if early_data.len() <= max { early_data.len() as int } else { max as int },
        ),
{
    assert(early_data.take(early_data.len() as int) =~= early_data);
}

/// Reads hand the pending bytes out in order and lose none: what a read
/// returns, followed by what is pending after it, is what was pending.
pub proof fn read_keeps_order(stream: StreamState, max: nat)
    ensures
        match stream.read_outcome(max) {
            ReadOutcome::Data(bytes) => bytes + stream.after_read(max).pending == stream.pending,
            _ => stream.after_read(max) == stream,
        },
{
    let n = stream.read_len(max) as int;
    assert(stream.pending.take(n) + stream.pending.skip(n) =~= stream.pending);
    assert(stream.pending.skip(0) =~= stream.pending);
}

/// No call reopens a closed stream, and none adds to what it holds.
pub proof fn closed_stays_closed(stream: StreamState, calls: Seq<StreamCall>)
    requires
        stream.closed,
    ensures
        stream.after_all(calls).closed,
        stream.after_all(calls).pending.len() <= stream.pending.len(),
    decreases calls.len(),
{
    if calls.len() > 0 {
        closed_stays_closed(stream, calls.drop_last());
    }
}

/// Once the transport has signalled close to a read that waited, every
/// later read is at the end of the stream: zero bytes and no error,
/// whatever was called in between.
pub proof fn read_after_close_is_end_of_stream(
    stream: StreamState,
    calls: Seq<StreamCall>,
    max: nat,
)
    requires
        stream.read_outcome(max) == ReadOutcome::Wait,
    ensures
        stream.after_event(Inbound::Close).after_all(calls).read_outcome(max)
            == ReadOutcome::EndOfStream,
        stream.after_event(Inbound::Close).after_all(calls).after_read(max)
            == stream.after_event(Inbound::Close).after_all(calls),
{
    let closed = stream.after_event(Inbound::Close);
    closed_stays_closed(closed, calls);
    let later = closed.after_all(calls);
    assert(later.pending.skip(0) =~= later.pending);
}

/// After a shutdown every write fails, whatever was called in between.
pub proof fn write_after_shutdown_fails(stream: StreamState, calls: Seq<StreamCall>, len: nat)
    ensures
        stream.after_shutdown().after_all(calls).write_outcome(len) == Err::<usize, TransportError>(
            TransportError::BrokenPipe,
        ),
        stream.after_shutdown().after_all(calls).flush_outcome() == Err::<(), TransportError>(
            TransportError::BrokenPipe,
        ),
{
    closed_stays_closed(stream.after_shutdown(), calls);
}

/// Only the first shutdown has an effect.
pub proof fn shutdown_is_idempotent(stream: StreamState)
    ensures
        stream.after_shutdown().after_shutdown() == stream.after_shutdown(),
{
}

} // verus!
