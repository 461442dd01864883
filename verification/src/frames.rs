//! Length-prefixed framing of the Slim Protocol.
//!
//! Every server frame is a big-endian 16-bit length followed by that many
//! bytes; `LMSRecv` collects bytes and splits them into messages. Every client
//! frame carries its own length (see `ClientMessage::to_bytes`); `LMSSend`
//! holds the writer they go to.

use bytes::BytesMut;
use vstd::prelude::*;
use crate::buffer;
use crate::buffer::bytes_mut_contents;
use crate::messages::{ServerMessage, ServerMessageView, parse_frame};
use crate::wire::be16_at;

verus! {

const INITIAL_CAPACITY: usize = 4 * 1024;

/// The length of the first frame of `b`, as its first two bytes state it.
pub open spec fn frame_size(b: Seq<u8>) -> int {
    be16_at(b, 0)
}

/// Whether `b` starts with a complete frame.
pub open spec fn has_frame(b: Seq<u8>) -> bool {
    b.len() > 2 && b.len() >= frame_size(b) + 2
}

/// The body of the first frame of `b`.
pub open spec fn first_frame(b: Seq<u8>) -> Seq<u8> {
    b.subrange(2, frame_size(b) + 2)
}

/// What follows the first frame of `b`.
pub open spec fn after_first_frame(b: Seq<u8>) -> Seq<u8> {
    b.skip(frame_size(b) + 2)
}

/// Whether decoding `b` reaches a frame too short to hold an operation code
/// before it stops.
pub open spec fn reaches_short_frame(b: Seq<u8>) -> bool
    decreases b.len(),
{
    if !has_frame(b) {
        false
    } else if first_frame(b).len() < 4 {
        true
    } else if parse_frame(first_frame(b)) is Error {
        false
    } else {
        reaches_short_frame(after_first_frame(b))
    }
}

/// The messages of the complete frames at the start of `b`, in order; `None`
/// when one of them is corrupted.
pub open spec fn decoded(b: Seq<u8>) -> Option<Seq<ServerMessageView>>
    decreases b.len(),
{
    if !has_frame(b) {
        Some(seq![])
    } else {
        let m = parse_frame(first_frame(b));
        if m is Error {
            None
        } else {
            match decoded(after_first_frame(b)) {
                Some(ms) => Some(seq![m] + ms),
                None => None,
            }
        }
    }
}

/// What is left of `b` after its complete frames.
pub open spec fn undecoded(b: Seq<u8>) -> Seq<u8>
    decreases b.len(),
{
    if !has_frame(b) {
        b
    } else {
        undecoded(after_first_frame(b))
    }
}

/// The views of `v`.
pub open spec fn views(v: Seq<ServerMessage>) -> Seq<ServerMessageView> {
    v.map_values(|m: ServerMessage| m@)
}

/// Why received data could not be decoded.
#[derive(Debug, Clone, Copy, PartialEq, Eq, Structural)]
pub enum RecvError {
    /// A frame did not hold a valid message; the buffered data was dropped.
    Corrupted,
}

/// Collects bytes read from the server and decodes them into
/// `ServerMessage` values.
#[verifier::reject_recursive_types(R)]
pub struct LMSRecv<R> {
    inner: R,
    buf: BytesMut,
}

impl<R> LMSRecv<R> {
    /// The bytes received and not decoded yet.
    pub closed spec fn pending(&self) -> Seq<u8> {
        bytes_mut_contents(self.buf)
    }

    /// The reader that bytes come from.
    pub closed spec fn reader(&self) -> R {
        self.inner
    }

    /// A receiver reading from `inner`, with nothing received yet.
    pub fn new(inner: R) -> (r: Self)
        ensures
            r.pending() == Seq::<u8>::empty(),
            r.reader() == inner,
    {
        Self { inner, buf: buffer::with_capacity(INITIAL_CAPACITY) }
    }

    /// The reader that bytes come from.
    pub fn reader_mut(&mut self) -> (r: &mut R)
        ensures
            *r == old(self).reader(),
            final(self).reader() == *final(r),
            final(self).pending() == old(self).pending(),
    {
        &mut self.inner
    }

    /// Adds `data` to the received bytes.
    pub fn extend(&mut self, data: &[u8])
        requires
            old(self).pending().len() + data@.len() <= isize::MAX,
        ensures
            final(self).pending() == old(self).pending() + data@,
            final(self).reader() == old(self).reader(),
    {
        buffer::extend_from_slice(&mut self.buf, data);
    }

    /// The number of bytes received and not decoded yet.
    pub fn pending_len(&self) -> (r: usize)
        ensures
            r == self.pending().len(),
    {
        buffer::len(&self.buf)
    }

    /// Whether `decode` would meet a frame shorter than an operation code,
    /// on which it cannot go on.
    pub fn reaches_short_frame(&self) -> (r: bool)
        ensures
            r == reaches_short_frame(self.pending()),
    {
        let s = buffer::as_slice(&self.buf);
        let mut rest: usize = 0;
        assert(s@.skip(0) =~= s@);
        loop
            invariant
                s@ == self.pending(),
                rest <= s@.len(),
                reaches_short_frame(s@) == reaches_short_frame(s@.skip(rest as int)),
            decreases s@.len() - rest,
        {
            let ghost b = s@.skip(rest as int);
            let avail = s.len() - rest;
            assert(b.len() == avail);
            if avail <= 2 {
                return false;
            }
            let size = s[rest] as usize * 256 + s[rest + 1] as usize;
            assert(size == frame_size(b));
            if avail < size + 2 {
                return false;
            }
            if size < 4 {
                assert(first_frame(b).len() == size);
                return true;
            }
            let frame = &s[rest + 2..rest + 2 + size];
            assert(frame@ =~= first_frame(b));
            if ServerMessage::parse(frame).is_error() {
                return false;
            }
            assert(s@.skip(rest + 2 + size) =~= after_first_frame(b));
            rest = rest + 2 + size;
        }
    }

    /// Splits the received bytes into frames and decodes them.
    ///
    /// `Ok(None)` when no complete frame has arrived yet; `Ok(Some(..))` with
    /// the messages of all complete frames, which are then dropped from the
    /// buffer; `Err(Corrupted)` when a frame is corrupted, and then every
    /// received byte is dropped.
    pub fn decode(&mut self) -> (r: Result<Option<Vec<ServerMessage>>, RecvError>)
        requires
            !reaches_short_frame(old(self).pending()),
            old(self).pending().len() + 0x1_0000 <= isize::MAX,
        ensures
            final(self).reader() == old(self).reader(),
            !has_frame(old(self).pending()) ==> r == Ok::<Option<Vec<ServerMessage>>, RecvError>(
                None,
            ) && final(self).pending() == old(self).pending(),
            has_frame(old(self).pending()) && decoded(old(self).pending()) is None ==> r == Err::<
                Option<Vec<ServerMessage>>,
                RecvError,
            >(RecvError::Corrupted) && final(self).pending() == Seq::<u8>::empty(),
            has_frame(old(self).pending()) && decoded(old(self).pending()) is Some ==> (r matches Ok(
                Some(v),
            ) && views(v@) == decoded(old(self).pending()).unwrap() && v@.len() > 0
                && final(self).pending() == undecoded(old(self).pending())),
    {
        let ghost orig = self.pending();
        if buffer::len(&self.buf) <= 2 {
            return Ok(None);
        }
        let mut messages: Vec<ServerMessage> = Vec::new();
        loop
            invariant
                self.reader() == old(self).reader(),
                orig == old(self).pending(),
                orig.len() > 2,
                !reaches_short_frame(orig),
                orig.len() + 0x1_0000 <= isize::MAX,
                self.pending().len() <= orig.len(),
                !reaches_short_frame(self.pending()),
                undecoded(orig) == undecoded(self.pending()),
                decoded(self.pending()) is None ==> decoded(orig) is None,
                decoded(self.pending()) matches Some(t) ==> decoded(orig) == Some(
                    views(messages@) + t,
                ),
                messages@.len() == 0 ==> self.pending() == orig,
                messages@.len() > 0 ==> has_frame(orig),
            decreases self.pending().len(),
        {
            let ghost b = self.pending();
            let avail = buffer::len(&self.buf);
            if avail <= 2 {
                assert(views(messages@) + seq![] =~= views(messages@));
                return Ok(Some(messages));
            }
            let size = buffer::byte_at(&self.buf, 0) as usize * 256 + buffer::byte_at(&self.buf, 1)
                as usize;
            assert(size == frame_size(b));
            if avail < size + 2 {
                if buffer::capacity(&self.buf) < size + 2 {
                    buffer::reserve(&mut self.buf, size);
                }
                if messages.len() == 0 {
                    return Ok(None);
                }
                assert(views(messages@) + seq![] =~= views(messages@));
                return Ok(Some(messages));
            }
            buffer::advance(&mut self.buf, 2);
            let frame_buf = buffer::split_to(&mut self.buf, size);
            let frame = buffer::as_slice(&frame_buf);
            assert(frame@ =~= first_frame(b));
            assert(self.pending() =~= after_first_frame(b));
            let msg = ServerMessage::parse(frame);
            if msg.is_error() {
                buffer::clear(&mut self.buf);
                return Err(RecvError::Corrupted);
            }
            let ghost before = messages@;
            messages.push(msg);
            proof {
                assert(views(messages@) =~= views(before).push(msg@));
                if let Some(t) = decoded(self.pending()) {
                    assert(views(before) + (seq![msg@] + t) =~= views(messages@) + t);
                }
            }
        }
    }
}

impl ServerMessage {
    /// Whether this is the message of a corrupted frame.
    pub fn is_error(&self) -> (r: bool)
        ensures
            r == (self@ is Error),
    {
        match self {
            ServerMessage::Error => true,
            _ => false,
        }
    }
}

/// Holds the writer that encoded `ClientMessage` frames are sent to.
#[verifier::reject_recursive_types(W)]
pub struct LMSSend<W> {
    inner: W,
}

impl<W> LMSSend<W> {
    /// The writer that frames go to.
    pub closed spec fn writer(&self) -> W {
        self.inner
    }

    /// A sender writing to `inner`.
    pub fn new(inner: W) -> (r: Self)
        ensures
            r.writer() == inner,
    {
        Self { inner }
    }

    /// The writer that frames go to.
    pub fn writer_mut(&mut self) -> (r: &mut W)
        ensures
            *r == old(self).writer(),
            final(self).writer() == *final(r),
    {
        &mut self.inner
    }
}

/// Decoding stops only where no complete frame is left, and what it leaves
/// is the end of the bytes it was given.
pub proof fn lemma_undecoded_is_incomplete_suffix(b: Seq<u8>)
    ensures
        !has_frame(undecoded(b)),
        undecoded(b).len() <= b.len(),
        b.skip(b.len() - undecoded(b).len()) == undecoded(b),
    decreases b.len(),
{
    if has_frame(b) {
        let a = after_first_frame(b);
        lemma_undecoded_is_incomplete_suffix(a);
        assert(b.skip(b.len() - undecoded(b).len()) =~= a.skip(a.len() - undecoded(a).len()));
    } else {
        assert(b.skip(0) =~= b);
    }
}

/// Bytes may arrive in any pieces: decoding `b1` and then what is left of
/// it followed by `b2` yields the messages, and leaves the bytes, that
/// decoding `b1 + b2` at once does.
pub proof fn lemma_decode_in_pieces(b1: Seq<u8>, b2: Seq<u8>)
    ensures
        decoded(b1) is None ==> decoded(b1 + b2) is None,
        decoded(b1) matches Some(m1) ==> decoded(b1 + b2) == match decoded(undecoded(b1) + b2) {
            Some(m2) => Some(m1 + m2),
            None => None::<Seq<ServerMessageView>>,
        },
        decoded(b1) is Some ==> undecoded(b1 + b2) == undecoded(undecoded(b1) + b2),
    decreases b1.len(),
{
    if has_frame(b1) {
        let b = b1 + b2;
        assert(b[0] == b1[0] && b[1] == b1[1]);
        assert(has_frame(b));
        assert(first_frame(b) =~= first_frame(b1));
        assert(after_first_frame(b) =~= after_first_frame(b1) + b2);
        lemma_decode_in_pieces(after_first_frame(b1), b2);
        let m = parse_frame(first_frame(b1));
        if !(m is Error) {
            if let Some(rest1) = decoded(after_first_frame(b1)) {
                if let Some(m2) = decoded(undecoded(b1) + b2) {
                    assert(seq![m] + (rest1 + m2) =~= (seq![m] + rest1) + m2);
                }
            }
        }
    } else {
        match decoded(b1 + b2) {
            Some(m2) => {
                assert(Seq::<ServerMessageView>::empty() + m2 =~= m2);
            },
            None => {},
        }
    }
}

/// The bytes of `chunks`, in order.
pub open spec fn concat_chunks(chunks: Seq<Seq<u8>>) -> Seq<u8>
    decreases chunks.len(),
{
    if chunks.len() == 0 {
        seq![]
    } else {
        chunks[0] + concat_chunks(chunks.skip(1))
    }
}

/// What successive receives deliver to a receiver holding `p` when `chunks`
/// arrive one read after another: each read is added to what is held and
/// decoded, as `extend` and `decode` do, and every decode that yields
/// messages ends one receive with that batch. The batches in order (`None`
/// once a corrupted frame is met) and what is held at the end.
pub open spec fn receive_batches(p: Seq<u8>, chunks: Seq<Seq<u8>>) -> (
    Option<Seq<Seq<ServerMessageView>>>,
    Seq<u8>,
)
    decreases chunks.len(),
{
    if chunks.len() == 0 {
        (Some(seq![]), p)
    } else {
        let b = p + chunks[0];
        if !has_frame(b) {
            receive_batches(b, chunks.skip(1))
        } else {
            match decoded(b) {
                None => (None, seq![]),
                Some(m) => {
                    let (rest, left) = receive_batches(undecoded(b), chunks.skip(1));
                    match rest {
                        Some(bs) => (Some(seq![m] + bs), left),
                        None => (None, left),
                    }
                },
            }
        }
    }
}

/// However the server's bytes are split into reads, every receive that
/// succeeds yields at least one message, and the batches of successive
/// receives, joined in order, are the messages of all the complete frames,
/// as decoding all the bytes at once gives them; what is held back is what
/// follows those frames. A corrupted frame anywhere is met either way.
/// `p` is what the receiver holds between reads: never a complete frame.
pub proof fn lemma_decode_over_reads(p: Seq<u8>, chunks: Seq<Seq<u8>>)
    requires
        !has_frame(p),
    ensures
        (receive_batches(p, chunks).0 is None) == (decoded(p + concat_chunks(chunks)) is None),
        receive_batches(p, chunks).0 matches Some(bs) ==> {
            &&& forall|i: int| 0 <= i < bs.len() ==> (#[trigger] bs[i]).len() > 0
            &&& Some(bs.flatten()) == decoded(p + concat_chunks(chunks))
            &&& receive_batches(p, chunks).1 == undecoded(p + concat_chunks(chunks))
        },
    decreases chunks.len(),
{
    if chunks.len() == 0 {
        assert(p + concat_chunks(chunks) =~= p);
        assert(Seq::<Seq<ServerMessageView>>::empty().flatten() =~= Seq::<ServerMessageView>::empty());
    } else {
        let b = p + chunks[0];
        let rest = concat_chunks(chunks.skip(1));
        assert(p + concat_chunks(chunks) =~= b + rest);
        if !has_frame(b) {
            lemma_decode_over_reads(b, chunks.skip(1));
        } else {
            lemma_decode_in_pieces(b, rest);
            if let Some(m) = decoded(b) {
                let u = undecoded(b);
                lemma_undecoded_is_incomplete_suffix(b);
                lemma_decode_over_reads(u, chunks.skip(1));
                assert(m.len() > 0);
                let (tail, left) = receive_batches(u, chunks.skip(1));
                if let Some(bs) = tail {
                    let all = seq![m] + bs;
                    assert(all.first() == m);
                    assert(all.drop_first() =~= bs);
                    assert forall|i: int| 0 <= i < all.len() implies (#[trigger] all[i]).len() > 0 by {
                        if i > 0 {
                            assert(all[i] == bs[i - 1]);
                        }
                    }
                }
            }
        }
    }
}

/// The two bytes that announce a frame of `n` bytes: `n` as a 16-bit
/// number, most significant byte first.
pub open spec fn length_prefix(n: nat) -> Seq<u8> {
    seq![(n / 256) as u8, (n % 256) as u8]
}

/// A frame is its length in two bytes, most significant first, then that
/// many bytes of body, whatever the length up to 65535: the buffer holds a
/// complete frame exactly when it holds the length it announces, and
/// decoding takes the whole body, parses it, and goes on after it.
pub proof fn lemma_frame_layout(body: Seq<u8>, rest: Seq<u8>)
    requires
        body.len() < 0x1_0000,
        body.len() + rest.len() > 0,
    ensures
        ({
            let b = length_prefix(body.len()) + body + rest;
            &&& has_frame(b)
            &&& first_frame(b) == body
            &&& after_first_frame(b) == rest
            &&& decoded(b) == if parse_frame(body) is Error {
                None::<Seq<ServerMessageView>>
            } else {
                match decoded(rest) {
                    Some(ms) => Some(seq![parse_frame(body)] + ms),
                    None => None,
                }
            }
            &&& undecoded(b) == undecoded(rest)
        }),
{
    let n = body.len();
    let b = length_prefix(n) + body + rest;
    assert(b[0] == (n / 256) as u8 && b[1] == (n % 256) as u8);
    assert((n / 256) as u8 as int * 256 + (n % 256) as u8 as int == n);
    assert(frame_size(b) == n);
    assert(b.subrange(2, n + 2 as int) =~= body);
    assert(b.skip(n + 2 as int) =~= rest);
}

/// Whether a buffer holds a complete frame depends only on the length its
/// first two bytes announce, most significant first: it does once it holds
/// more than two bytes and at least that length after them.
pub proof fn lemma_complete_frame(b: Seq<u8>)
    requires
        b.len() >= 2,
    ensures
        has_frame(b) == (b.len() > 2 && b.len() - 2 >= b[0] * 256 + b[1]),
        has_frame(b) ==> first_frame(b) == b.subrange(2, 2 + b[0] * 256 + b[1]),
{
}

} // verus!
