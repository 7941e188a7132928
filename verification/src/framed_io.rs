//! The read-side buffering of a chunked byte stream.
//!
//! `FramedIo` wraps an inner stream of decrypted chunks (and sink of
//! plaintext) so that it reads as one contiguous byte stream: the chunk most
//! recently taken from the inner stream is held here and handed out piece by
//! piece until it is used up, after which the next chunk is taken.

use vstd::prelude::*;
use vstd::slice::slice_subrange;

verus! {

/// A chunk taken from the inner stream and how much of it is handed out.
struct Chunk {
    bytes: Vec<u8>,
    consumed: usize,
}

impl Chunk {
    #[verifier::type_invariant]
    spec fn consumed_within_bytes(self) -> bool {
        self.consumed <= self.bytes@.len()
    }

    spec fn unread(self) -> Seq<u8> {
        self.bytes@.skip(self.consumed as int)
    }

    fn fresh(bytes: Vec<u8>) -> (c: Chunk)
        ensures
            c.unread() == bytes@,
    {
        assert(bytes@.skip(0) =~= bytes@);
        Chunk { bytes, consumed: 0 }
    }

    fn remaining(&self) -> (r: usize)
        ensures
            r == self.unread().len(),
    {
        proof {
            use_type_invariant(self);
        }
        self.bytes.len() - self.consumed
    }

    fn unread_slice(&self) -> (r: &[u8])
        ensures
            r@ == self.unread(),
    {
        proof {
            use_type_invariant(self);
        }
        let s = slice_subrange(self.bytes.as_slice(), self.consumed, self.bytes.len());
        assert(s@ =~= self.unread());
        s
    }

    fn advance(&mut self, amt: usize)
        requires
            amt <= old(self).unread().len(),
        ensures
            final(self).unread() == old(self).unread().skip(amt as int),
    {
        proof {
            use_type_invariant(&*self);
            assert(self.bytes@.skip(self.consumed as int).skip(amt as int) =~= self.bytes@.skip(
                self.consumed + amt,
            ));
        }
        let len = self.bytes.len();
        assert(self.consumed + amt <= len);
        self.consumed = self.consumed + amt;
    }
}

/// The held chunk, with the bytes taken from the inner stream so far and
/// the bytes handed out so far: what was handed out, followed by what is
/// still held, is what was taken.
struct Buffer {
    chunk: Option<Chunk>,
    received: Ghost<Seq<u8>>,
    delivered: Ghost<Seq<u8>>,
}

impl Buffer {
    spec fn unread(self) -> Seq<u8> {
        match self.chunk {
            Some(c) => c.unread(),
            None => Seq::empty(),
        }
    }

    #[verifier::type_invariant]
    spec fn keeps_stream(self) -> bool {
        self.delivered@ + self.unread() == self.received@
    }

    fn empty() -> (b: Buffer)
        ensures
            b.unread() == Seq::<u8>::empty(),
            b.received@ == Seq::<u8>::empty(),
            b.delivered@ == Seq::<u8>::empty(),
    {
        let b = Buffer { chunk: None, received: Ghost(Seq::empty()), delivered: Ghost(Seq::empty()) };
        assert(b.delivered@ + b.unread() =~= b.received@);
        b
    }
}

/// What the inner stream gave when it was polled.
pub enum Polled {
    /// A chunk of bytes.
    Chunk(Vec<u8>),
    /// An error.
    Failed,
    /// The end of the stream.
    Ended,
    /// Nothing yet.
    Pending,
}

/// What filling the read buffer does next.
#[derive(Debug, Clone, Copy, PartialEq, Eq, Structural)]
pub enum FillStep {
    /// Hand out the held bytes.
    Buffered,
    /// Poll the inner stream for a chunk.
    PollInner,
    /// Report the inner stream's error.
    Fail,
    /// Report the end of the stream: no bytes.
    EndOfStream,
    /// Wait until the inner stream is ready.
    Wait,
}

/// An inner chunk stream plus the unread part of its current chunk.
pub struct FramedIo<T> {
    inner: T,
    buf: Buffer,
}

impl<T> FramedIo<T> {
    /// The bytes of the current chunk not yet handed out.
    pub closed spec fn pending(self) -> Seq<u8> {
        self.buf.unread()
    }

    /// Every byte taken from the inner stream so far, in order.
    pub closed spec fn received(self) -> Seq<u8> {
        self.buf.received@
    }

    /// Every byte handed out so far, in order.
    pub closed spec fn delivered(self) -> Seq<u8> {
        self.buf.delivered@
    }

    /// The wrapped stream.
    pub closed spec fn inner_view(self) -> T {
        self.inner
    }

    /// Wraps an inner stream; nothing is buffered yet.
    pub fn new(inner: T) -> (io: Self)
        ensures
            io.pending() == Seq::<u8>::empty(),
            io.received() == Seq::<u8>::empty(),
            io.delivered() == Seq::<u8>::empty(),
            io.inner_view() == inner,
            io.delivered() + io.pending() == io.received(),
    {
        FramedIo { inner, buf: Buffer::empty() }
    }

    /// Whether a chunk is held and part of it is still unread.
    pub fn has_chunk(&self) -> (r: bool)
        ensures
            r == (self.pending().len() > 0),
    {
        match &self.buf.chunk {
            Some(c) => c.remaining() > 0,
            None => false,
        }
    }

    /// Holds a chunk newly taken from the inner stream, once the one held
    /// before is used up.
    pub fn offer(&mut self, chunk: Vec<u8>)
        requires
            old(self).pending().len() == 0,
        ensures
            final(self).pending() == chunk@,
            final(self).received() == old(self).received() + chunk@,
            final(self).delivered() == old(self).delivered(),
            final(self).inner_view() == old(self).inner_view(),
            final(self).delivered() + final(self).pending() == final(self).received(),
    {
        let mut b = Buffer::empty();
        core::mem::swap(&mut b, &mut self.buf);
        proof {
            use_type_invariant(&b);
        }
        let ghost taken = chunk@;
        let Buffer { chunk: _, received, delivered } = b;
        assert(delivered@ =~= received@);
        let fresh = Chunk::fresh(chunk);
        self.buf = Buffer { chunk: Some(fresh), received: Ghost(received@ + taken), delivered };
        proof {
            use_type_invariant(&self.buf);
        }
    }

    /// The first step of filling the read buffer: hand out what is held, or
    /// poll the inner stream when nothing is.
    pub fn fill_next(&self) -> (step: FillStep)
        ensures
            step == if self.pending().len() > 0 {
                FillStep::Buffered
            } else {
                FillStep::PollInner
            },
    {
        if self.has_chunk() {
            FillStep::Buffered
        } else {
            FillStep::PollInner
        }
    }

    /// The step after polling the inner stream with nothing held: a chunk is
    /// held and handed out (or, if empty, the stream is polled again); an
    /// error, the end of the stream or a wait is passed on, holding nothing.
    pub fn on_polled(&mut self, polled: Polled) -> (step: FillStep)
        requires
            old(self).pending().len() == 0,
        ensures
            match polled {
                Polled::Chunk(c) => final(self).pending() == c@ && final(self).received()
                    == old(self).received() + c@ && step == if c@.len() > 0 {
                    FillStep::Buffered
                } else {
                    FillStep::PollInner
                },
                Polled::Failed => step == FillStep::Fail && final(self).received() == old(self).received()
                    && final(self).pending() == old(self).pending(),
                Polled::Ended => step == FillStep::EndOfStream && final(self).received()
                    == old(self).received() && final(self).pending() == old(self).pending(),
                Polled::Pending => step == FillStep::Wait && final(self).received()
                    == old(self).received() && final(self).pending() == old(self).pending(),
            },
            final(self).delivered() == old(self).delivered(),
            final(self).delivered() + final(self).pending() == final(self).received(),
            final(self).inner_view() == old(self).inner_view(),
    {
        proof {
            use_type_invariant(&self.buf);
        }
        match polled {
            Polled::Chunk(c) => {
                self.offer(c);
                self.fill_next()
            },
            Polled::Failed => FillStep::Fail,
            Polled::Ended => FillStep::EndOfStream,
            Polled::Pending => FillStep::Wait,
        }
    }

    /// The unread bytes of the held chunk.
    pub fn buffered(&self) -> (r: &[u8])
        ensures
            r@ == self.pending(),
    {
        match &self.buf.chunk {
            Some(c) => c.unread_slice(),
            None => {
                let empty: &[u8] = &[];
                assert(empty@ =~= Seq::<u8>::empty());
                empty
            },
        }
    }

    /// Marks the first `amt` unread bytes as handed out.
    pub fn consume(&mut self, amt: usize)
        requires
            amt <= old(self).pending().len(),
        ensures
            final(self).pending() == old(self).pending().skip(amt as int),
            final(self).delivered() == old(self).delivered() + old(self).pending().take(amt as int),
            final(self).received() == old(self).received(),
            final(self).inner_view() == old(self).inner_view(),
            final(self).delivered() + final(self).pending() == final(self).received(),
    {
        let mut b = Buffer::empty();
        core::mem::swap(&mut b, &mut self.buf);
        proof {
            use_type_invariant(&b);
        }
        let ghost before = b.unread();
        let Buffer { chunk, received, delivered } = b;
        let chunk = match chunk {
            Some(mut c) => {
                c.advance(amt);
                Some(c)
            },
            None => None,
        };
        assert(before.take(amt as int) + before.skip(amt as int) =~= before);
        assert(before.skip(amt as int) =~= match chunk {
            Some(c) => c.unread(),
            None => Seq::<u8>::empty(),
        });
        assert(delivered@ + before == received@);
        assert((delivered@ + before.take(amt as int)) + before.skip(amt as int) =~= received@);
        self.buf = Buffer { chunk, received, delivered: Ghost(delivered@ + before.take(amt as int)) };
        proof {
            use_type_invariant(&self.buf);
        }
    }

    /// Hands out up to `max` unread bytes: as many as are held, if fewer.
    pub fn read(&mut self, max: usize) -> (out: Vec<u8>)
        ensures
            out@ == old(self).pending().take(
                if max < old(self).pending().len() { max as int } else { old(self).pending().len() as int },
            ),
            final(self).pending() == old(self).pending().skip(out@.len() as int),
            final(self).delivered() == old(self).delivered() + out@,
            final(self).received() == old(self).received(),
            final(self).inner_view() == old(self).inner_view(),
            final(self).delivered() + final(self).pending() == final(self).received(),
    {
        let available = self.buffered();
        let n = if max < available.len() { max } else { available.len() };
        let mut out: Vec<u8> = Vec::new();
        let mut i: usize = 0;
        while i < n
            invariant
                n <= available@.len(),
                i <= n,
                out@ == available@.take(i as int),
            decreases n - i,
        {
            out.push(available[i]);
            i = i + 1;
            assert(out@ =~= available@.take(i as int));
        }
        self.consume(n);
        assert(out@ =~= available@.take(n as int));
        out
    }

    /// The wrapped stream.
    pub fn inner(&self) -> (r: &T)
        ensures
            *r == self.inner_view(),
    {
        &self.inner
    }

    /// The wrapped stream, to poll or write to it.
    pub fn inner_mut(&mut self) -> (r: &mut T)
        ensures
            *r == old(self).inner_view(),
            final(self).inner_view() == *final(r),
            final(self).pending() == old(self).pending(),
            final(self).received() == old(self).received(),
            final(self).delivered() == old(self).delivered(),
            final(self).delivered() + final(self).pending() == final(self).received(),
    {
        proof {
            use_type_invariant(&self.buf);
        }
        &mut self.inner
    }
}

/// Bytes come out in the order they went in: handing out `a` bytes and then
/// `b` more gives the same bytes as handing out `a + b` at once.
pub proof fn lemma_reads_concatenate(pending: Seq<u8>, a: nat, b: nat)
    requires
        a + b <= pending.len(),
    ensures
        pending.take(a as int) + pending.skip(a as int).take(b as int) == pending.take((a + b) as int),
        pending.skip(a as int).skip(b as int) == pending.skip((a + b) as int),
{
    assert(pending.take(a as int) + pending.skip(a as int).take(b as int) =~= pending.take((a + b) as int));
    assert(pending.skip(a as int).skip(b as int) =~= pending.skip((a + b) as int));
}

/// Once the held chunk is used up, the bytes handed out are exactly the
/// bytes taken from the inner stream, chunk after chunk, in order: none is
/// lost, duplicated or reordered.
pub proof fn lemma_stream_delivered(delivered: Seq<u8>, pending: Seq<u8>, received: Seq<u8>)
    requires
        delivered + pending == received,
        pending.len() == 0,
    ensures
        delivered == received,
{
    assert(delivered + pending =~= delivered);
}

} // verus!
