//! The byte-stream view of a message-framed channel.
//!
//! A relay that copies raw bytes expects partial reads and writes, while the
//! channel delivers whole messages.  `WebSocketConnection` holds the bytes of
//! the most recent inbound message that the reader has not consumed yet: a
//! read delivers at most as many bytes as were asked for and keeps the
//! remainder, and a new message is accepted only once the remainder is
//! empty.  The write direction needs no buffering: each write becomes
//! exactly one outbound binary message, a deliberate policy rather than
//! stream coalescing, so it stays with the channel I/O.

use vstd::prelude::*;

verus! {

/// One observation made on the inbound side of the duplex channel: a binary
/// message, a message of any other kind, or the end of the channel.
pub enum ChannelEvent {
    Binary(Vec<u8>),
    Other,
    Closed,
}

/// A fatal error of the read direction.  The channel does not distinguish a
/// clean end from a broken connection, so its closing is surfaced as an
/// error rather than as a zero-length read.
pub enum ReadError {
    UnsupportedMessageKind,
    UnexpectedEndOfStream,
}

/// The buffering core of the byte-stream adapter over one duplex channel.
pub struct WebSocketConnection {
    buffer: Vec<u8>,
}

impl WebSocketConnection {
    /// The bytes of the last inbound message that no read has delivered yet.
    pub closed spec fn pending(&self) -> Seq<u8> {
        self.buffer@
    }

    /// A fresh adapter with nothing buffered.
    pub fn new() -> (c: Self)
        ensures
            c.pending().len() == 0,
    {
        WebSocketConnection { buffer: Vec::new() }
    }

    /// Whether the next read must wait for an inbound message first.
    pub fn needs_message(&self) -> (b: bool)
        ensures
            b == (self.pending().len() == 0),
    {
        self.buffer.len() == 0
    }

    /// Feeds the next inbound observation to the adapter.  A binary message
    /// becomes the new pending bytes; anything else is a fatal read error
    /// and leaves the adapter empty.
    pub fn accept_event(&mut self, ev: ChannelEvent) -> (r: Result<(), ReadError>)
        requires
            old(self).pending().len() == 0,
        ensures
            match ev {
                ChannelEvent::Binary(msg) => r is Ok && final(self).pending() == msg@,
                ChannelEvent::Other => r == Err::<(), ReadError>(ReadError::UnsupportedMessageKind)
                    && final(self).pending().len() == 0,
                ChannelEvent::Closed => r == Err::<(), ReadError>(ReadError::UnexpectedEndOfStream)
                    && final(self).pending().len() == 0,
            },
    {
        match ev {
            ChannelEvent::Binary(msg) => {
                self.buffer = msg;
                Ok(())
            },
            ChannelEvent::Other => Err(ReadError::UnsupportedMessageKind),
            ChannelEvent::Closed => Err(ReadError::UnexpectedEndOfStream),
        }
    }

    /// Delivers up to `max` pending bytes, oldest first, and keeps the rest
    /// pending: nothing is ever dropped.
    pub fn take(&mut self, max: usize) -> (out: Vec<u8>)
        ensures
            out@.len() == if max as int <= old(self).pending().len() {
                max as int
            } else {
                old(self).pending().len() as int
            },
            out@ == old(self).pending().take(out@.len() as int),
            final(self).pending() == old(self).pending().skip(out@.len() as int),
            old(self).pending() == out@ + final(self).pending(),
    {
        let k: usize = if max < self.buffer.len() {
            max
        } else {
            self.buffer.len()
        };
        let mut out: Vec<u8> = Vec::new();
        let mut i: usize = 0;
        while i < k
            invariant
                i <= k,
                k <= self.buffer@.len(),
                self.buffer@ == old(self).pending(),
                out@ == self.buffer@.take(i as int),
            decreases k - i,
        {
            out.push(self.buffer[i]);
            i = i + 1;
            proof {
                assert(out@ =~= self.buffer@.take(i as int));
            }
        }
        let mut rest: Vec<u8> = Vec::new();
        let mut j: usize = k;
        while j < self.buffer.len()
            invariant
                k <= j <= self.buffer@.len(),
                self.buffer@ == old(self).pending(),
                rest@ == self.buffer@.subrange(k as int, j as int),
            decreases self.buffer@.len() - j,
        {
            rest.push(self.buffer[j]);
            j = j + 1;
            proof {
                assert(rest@ =~= self.buffer@.subrange(k as int, j as int));
            }
        }
        self.buffer = rest;
        proof {
            assert(self.buffer@ =~= old(self).pending().skip(k as int));
            assert(old(self).pending() =~= out@ + self.buffer@);
        }
        out
    }
}

} // verus!
