//! Reads of fixed-width and length-prefixed fields from a byte stream.
//!
//! A read either takes the whole field or takes nothing: where the stream
//! holds too few bytes it is left as it was, and the error says whether more
//! bytes may still arrive.

use crate::text::utf8_text;
use crate::websocket::{ReadStep, WebSocketStream};
use vstd::prelude::*;
use vstd::slice::{slice_subrange, slice_to_vec};
use vstd::utf8::{decode_utf8, valid_utf8};

verus! {

/// Why a field could not be read.
#[derive(Clone, Copy, Debug, PartialEq, Eq, Structural)]
pub enum ReadError {
    /// Too few bytes are buffered; more may arrive.
    Incomplete,
    /// Too few bytes are buffered and the stream has ended.
    UnexpectedEof,
    /// The bytes of a text field are not UTF-8.
    InvalidUtf8,
}

/// The number that `bytes` spell, most significant byte first.
pub open spec fn be_value(bytes: Seq<u8>) -> nat
    decreases bytes.len(),
{
    if bytes.len() == 0 {
        0
    } else {
        be_value(bytes.drop_last()) * 256 + bytes.last() as nat
    }
}

/// 256 to the power `n`.
pub open spec fn pow256(n: nat) -> nat
    decreases n,
{
    if n == 0 {
        1
    } else {
        256 * pow256((n - 1) as nat)
    }
}

/// The error of a read that found too few bytes.
pub open spec fn shortfall(ended: bool) -> ReadError {
    if ended {
        ReadError::UnexpectedEof
    } else {
        ReadError::Incomplete
    }
}

/// What a read of a `width`-byte number answers.
pub open spec fn number_at_front(unread: Seq<u8>, ended: bool, width: nat) -> Result<
    nat,
    ReadError,
> {
    if width <= unread.len() {
        Ok(be_value(unread.take(width as int)))
    } else {
        Err(shortfall(ended))
    }
}

/// What a read of `n` raw bytes answers.
pub open spec fn bytes_at_front(unread: Seq<u8>, ended: bool, n: nat) -> Result<
    Seq<u8>,
    ReadError,
> {
    if n <= unread.len() {
        Ok(unread.take(n as int))
    } else {
        Err(shortfall(ended))
    }
}

/// What a read of `n` bytes of text answers.
pub open spec fn text_at_front(unread: Seq<u8>, ended: bool, n: nat) -> Result<
    Seq<char>,
    ReadError,
> {
    if n > unread.len() {
        Err(shortfall(ended))
    } else if valid_utf8(unread.take(n as int)) {
        Ok(decode_utf8(unread.take(n as int)))
    } else {
        Err(ReadError::InvalidUtf8)
    }
}

/// What is left unread after a read of an `n`-byte field.
pub open spec fn front_dropped(unread: Seq<u8>, n: nat) -> Seq<u8> {
    if n <= unread.len() {
        unread.skip(n as int)
    } else {
        unread
    }
}

/// Powers of 256 are positive and grow with the exponent.
pub proof fn lemma_pow256_grows(a: nat, b: nat)
    requires
        a <= b,
    ensures
        pow256(a) <= pow256(b),
        pow256(a) >= 1,
    decreases b,
{
    if a < b {
        lemma_pow256_grows(a, (b - 1) as nat);
    } else if a > 0 {
        lemma_pow256_grows((a - 1) as nat, (a - 1) as nat);
    }
}

/// A number of `n` bytes is below 256 to the power `n`.
pub proof fn lemma_be_value_bound(bytes: Seq<u8>)
    ensures
        be_value(bytes) < pow256(bytes.len()),
    decreases bytes.len(),
{
    if bytes.len() > 0 {
        lemma_be_value_bound(bytes.drop_last());
    }
}

/// The powers of 256 that bound the fields of this library.
pub proof fn lemma_pow256_values()
    ensures
        pow256(1) == 0x100,
        pow256(2) == 0x1_0000,
        pow256(4) == 0x1_0000_0000,
        pow256(15) == 0x1_0000_0000_0000_0000_0000_0000_0000_00,
        pow256(16) == 0x1_0000_0000_0000_0000_0000_0000_0000_0000,
{
    reveal_with_fuel(pow256, 17);
}

/// `v` written in `width` bytes, most significant byte first.
pub open spec fn be_bytes(v: nat, width: nat) -> Seq<u8>
    decreases width,
{
    if width == 0 {
        Seq::<u8>::empty()
    } else {
        be_bytes(v / 256, (width - 1) as nat).push((v % 256) as u8)
    }
}

/// A number that fits in `width` bytes is read back from them.
pub proof fn lemma_be_bytes_value(v: nat, width: nat)
    requires
        v < pow256(width),
    ensures
        be_bytes(v, width).len() == width,
        be_value(be_bytes(v, width)) == v,
    decreases width,
{
    if width > 0 {
        lemma_be_bytes_value(v / 256, (width - 1) as nat);
        let bytes = be_bytes(v, width);
        assert(bytes.drop_last() =~= be_bytes(v / 256, (width - 1) as nat));
    }
}

/// Reads a number of at most sixteen bytes, most significant byte first.
pub(crate) fn be_decode(bytes: &[u8]) -> (value: u128)
    requires
        bytes@.len() <= 16,
    ensures
        value == be_value(bytes@),
{
    let mut value: u128 = 0;
    let mut i: usize = 0;
    while i < bytes.len()
        invariant
            i <= bytes@.len() <= 16,
            value == be_value(bytes@.take(i as int)),
        decreases bytes@.len() - i,
    {
        proof {
            lemma_be_value_bound(bytes@.take(i as int));
            lemma_pow256_grows(i as nat, 15);
            lemma_pow256_values();
            assert(bytes@.take(i + 1).drop_last() =~= bytes@.take(i as int));
        }
        value = value * 256 + bytes[i] as u128;
        i = i + 1;
    }
    proof {
        assert(bytes@.take(bytes@.len() as int) =~= bytes@);
    }
    value
}

/// Field reads on a byte stream.
pub trait StreamExt {
    /// The bytes that are buffered and not read yet.
    spec fn unread(&self) -> Seq<u8>;

    /// Whether the stream has ended, so that no further bytes will arrive.
    spec fn ended(&self) -> bool;

    /// Reads exactly `n` bytes.
    fn read_bytes(&mut self, n: usize) -> (r: Result<Vec<u8>, ReadError>)
        ensures
            final(self).ended() == old(self).ended(),
            final(self).unread() == front_dropped(old(self).unread(), n as nat),
            match r {
                Ok(bytes) => bytes_at_front(old(self).unread(), old(self).ended(), n as nat) == Ok::<
                    Seq<u8>,
                    ReadError,
                >(bytes@),
                Err(e) => bytes_at_front(old(self).unread(), old(self).ended(), n as nat) == Err::<
                    Seq<u8>,
                    ReadError,
                >(e),
            },
    ;

    /// Reads one byte.
    fn read_u8(&mut self) -> (r: Result<u8, ReadError>)
        ensures
            final(self).ended() == old(self).ended(),
            final(self).unread() == front_dropped(old(self).unread(), 1),
            match r {
                Ok(v) => number_at_front(old(self).unread(), old(self).ended(), 1) == Ok::<
                    nat,
                    ReadError,
                >(v as nat),
                Err(e) => number_at_front(old(self).unread(), old(self).ended(), 1) == Err::<
                    nat,
                    ReadError,
                >(e),
            },
    {
        match self.read_bytes(1) {
            Ok(bytes) => {
                proof {
                    lemma_be_value_bound(bytes@);
                    lemma_pow256_values();
                }
                Ok(be_decode(bytes.as_slice()) as u8)
            },
            Err(e) => Err(e),
        }
    }

    /// Reads a 16-bit number, most significant byte first.
    fn read_u16(&mut self) -> (r: Result<u16, ReadError>)
        ensures
            final(self).ended() == old(self).ended(),
            final(self).unread() == front_dropped(old(self).unread(), 2),
            match r {
                Ok(v) => number_at_front(old(self).unread(), old(self).ended(), 2) == Ok::<
                    nat,
                    ReadError,
                >(v as nat),
                Err(e) => number_at_front(old(self).unread(), old(self).ended(), 2) == Err::<
                    nat,
                    ReadError,
                >(e),
            },
    {
        match self.read_bytes(2) {
            Ok(bytes) => {
                proof {
                    lemma_be_value_bound(bytes@);
                    lemma_pow256_values();
                }
                Ok(be_decode(bytes.as_slice()) as u16)
            },
            Err(e) => Err(e),
        }
    }

    /// Reads a 32-bit number, most significant byte first.
    fn read_u32(&mut self) -> (r: Result<u32, ReadError>)
        ensures
            final(self).ended() == old(self).ended(),
            final(self).unread() == front_dropped(old(self).unread(), 4),
            match r {
                Ok(v) => number_at_front(old(self).unread(), old(self).ended(), 4) == Ok::<
                    nat,
                    ReadError,
                >(v as nat),
                Err(e) => number_at_front(old(self).unread(), old(self).ended(), 4) == Err::<
                    nat,
                    ReadError,
                >(e),
            },
    {
        match self.read_bytes(4) {
            Ok(bytes) => {
                proof {
                    lemma_be_value_bound(bytes@);
                    lemma_pow256_values();
                }
                Ok(be_decode(bytes.as_slice()) as u32)
            },
            Err(e) => Err(e),
        }
    }

    /// Reads a 128-bit number, most significant byte first.
    fn read_u128(&mut self) -> (r: Result<u128, ReadError>)
        ensures
            final(self).ended() == old(self).ended(),
            final(self).unread() == front_dropped(old(self).unread(), 16),
            match r {
                Ok(v) => number_at_front(old(self).unread(), old(self).ended(), 16) == Ok::<
                    nat,
                    ReadError,
                >(v as nat),
                Err(e) => number_at_front(old(self).unread(), old(self).ended(), 16) == Err::<
                    nat,
                    ReadError,
                >(e),
            },
    {
        match self.read_bytes(16) {
            Ok(bytes) => Ok(be_decode(bytes.as_slice())),
            Err(e) => Err(e),
        }
    }

    /// Reads `n` bytes of UTF-8 text. Bytes that are not UTF-8 are taken
    /// from the stream all the same.
    fn read_string(&mut self, n: usize) -> (r: Result<String, ReadError>)
        ensures
            final(self).ended() == old(self).ended(),
            final(self).unread() == front_dropped(old(self).unread(), n as nat),
            match r {
                Ok(text) => text_at_front(old(self).unread(), old(self).ended(), n as nat) == Ok::<
                    Seq<char>,
                    ReadError,
                >(text@),
                Err(e) => text_at_front(old(self).unread(), old(self).ended(), n as nat) == Err::<
                    Seq<char>,
                    ReadError,
                >(e),
            },
    {
        match self.read_bytes(n) {
            Ok(bytes) => match utf8_text(bytes) {
                Some(text) => Ok(text),
                None => Err(ReadError::InvalidUtf8),
            },
            Err(e) => Err(e),
        }
    }
}

/// A stream over bytes that are all at hand.
pub struct SliceReader<'a> {
    rest: &'a [u8],
    ended: bool,
}

impl<'a> SliceReader<'a> {
    /// A reader at the start of `bytes`. With `ended`, nothing follows
    /// them; without, more may arrive later.
    pub fn new(bytes: &'a [u8], ended: bool) -> (reader: Self)
        ensures
            reader.unread() == bytes@,
            reader.ended() == ended,
    {
        SliceReader { rest: bytes, ended }
    }

    /// How many bytes are left unread.
    pub fn remaining(&self) -> (n: usize)
        ensures
            n == self.unread().len(),
    {
        self.rest.len()
    }
}

impl<'a> StreamExt for SliceReader<'a> {
    closed spec fn unread(&self) -> Seq<u8> {
        self.rest@
    }

    closed spec fn ended(&self) -> bool {
        self.ended
    }

    fn read_bytes(&mut self, n: usize) -> (r: Result<Vec<u8>, ReadError>) {
        let len = self.rest.len();
        if n <= len {
            let head = slice_subrange(self.rest, 0, n);
            let tail = slice_subrange(self.rest, n, len);
            proof {
                assert(head@ =~= self.rest@.take(n as int));
                assert(tail@ =~= self.rest@.skip(n as int));
            }
            self.rest = tail;
            Ok(slice_to_vec(head))
        } else if self.ended {
            Err(ReadError::UnexpectedEof)
        } else {
            Err(ReadError::Incomplete)
        }
    }
}

impl StreamExt for WebSocketStream {
    open spec fn unread(&self) -> Seq<u8> {
        self@.pending
    }

    open spec fn ended(&self) -> bool {
        self@.closed
    }

    fn read_bytes(&mut self, n: usize) -> (r: Result<Vec<u8>, ReadError>) {
        if n <= self.pending().len() {
            match self.read(n) {
                ReadStep::Data(bytes) => Ok(bytes),
                _ => {
                    let bytes: Vec<u8> = Vec::new();
                    assert(old(self)@.pending.take(0) =~= bytes@);
                    assert(old(self)@.pending.skip(0) =~= old(self)@.pending);
                    Ok(bytes)
                },
            }
        } else if self.is_closed() {
            Err(ReadError::UnexpectedEof)
        } else {
            Err(ReadError::Incomplete)
        }
    }
}

} // verus!
