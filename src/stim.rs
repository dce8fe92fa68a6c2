use vstd::prelude::*;
use vstd::slice::slice_subrange;
use crate::wire::put_byte;

verus! {

/// One write into the stimulus port's register, as the port sees it.
#[derive(Clone, Copy, Debug, PartialEq, Eq, Structural)]
pub enum Transfer {
    /// A 32-bit write; the port emits its four bytes, least significant first.
    Word(u32),
    /// An 8-bit write.
    Byte(u8),
}

/// What the writer asks of the caller after looking at the port's ready bit.
#[derive(Clone, Copy, Debug, PartialEq, Eq, Structural)]
pub enum Step {
    /// The port is busy: read the ready bit again and write nothing.
    Wait,
    /// The port is ready: perform this transfer.
    Send(Transfer),
    /// Every byte has been handed to the port.
    Done,
}

/// The bytes of a 32-bit word in the order the port emits them.
pub open spec fn word_bytes(w: u32) -> Seq<u8> {
    seq![(w & 0xff) as u8, ((w >> 8u32) & 0xff) as u8, ((w >> 16u32) & 0xff) as u8, ((w >> 24u32) & 0xff) as u8]
}

/// The bytes a transfer puts on the wire.
pub open spec fn transfer_bytes(t: Transfer) -> Seq<u8> {
    match t {
        Transfer::Word(w) => word_bytes(w),
        Transfer::Byte(b) => seq![b],
    }
}

/// The bytes a sequence of transfers puts on the wire, in order.
pub open spec fn stream_bytes(ts: Seq<Transfer>) -> Seq<u8>
    decreases ts.len(),
{
    if ts.len() == 0 {
        Seq::empty()
    } else {
        stream_bytes(ts.drop_last()) + transfer_bytes(ts.last())
    }
}

/// The little-endian word made of four bytes.
pub open spec fn pack(b0: u8, b1: u8, b2: u8, b3: u8) -> u32 {
    (b0 as u32) | ((b1 as u32) << 8u32) | ((b2 as u32) << 16u32) | ((b3 as u32) << 24u32)
}

proof fn lemma_pack_bytes(b0: u8, b1: u8, b2: u8, b3: u8)
    ensures
        word_bytes(pack(b0, b1, b2, b3)) == seq![b0, b1, b2, b3],
{
    let w = pack(b0, b1, b2, b3);
    assert((w & 0xff) as u8 == b0 && ((w >> 8u32) & 0xff) as u8 == b1
        && ((w >> 16u32) & 0xff) as u8 == b2 && ((w >> 24u32) & 0xff) as u8 == b3) by (bit_vector)
        requires
            w == (b0 as u32) | ((b1 as u32) << 8u32) | ((b2 as u32) << 16u32) | ((b3 as u32) << 24u32),
    ;
}

/// The bytes that a transfer puts on the wire.
pub fn wire_bytes(t: &Transfer) -> (r: Chunk)
    ensures
        r@ == transfer_bytes(*t),
{
    let mut buf: [u8; 23] = [0u8; 23];
    let ghost b0 = buf@;
    proof {
        assert(b0.take(0) =~= Seq::<u8>::empty());
    }
    match t {
        Transfer::Word(w) => {
            let w = *w;
            let at = put_byte((w & 0xff) as u8, &mut buf, 0);
            let at = put_byte(((w >> 8u32) & 0xff) as u8, &mut buf, at);
            let at = put_byte(((w >> 16u32) & 0xff) as u8, &mut buf, at);
            let at = put_byte(((w >> 24u32) & 0xff) as u8, &mut buf, at);
            assert(buf@.take(at as int) =~= word_bytes(w));
            Chunk::new(buf, at).unwrap()
        },
        Transfer::Byte(b) => {
            let at = put_byte(*b, &mut buf, 0);
            assert(buf@.take(at as int) =~= seq![*b]);
            Chunk::new(buf, at).unwrap()
        },
    }
}

proof fn lemma_stream_push(ts: Seq<Transfer>, t: Transfer)
    ensures
        stream_bytes(ts.push(t)) == stream_bytes(ts) + transfer_bytes(t),
{
    assert(ts.push(t).drop_last() =~= ts);
}

/// A fixed byte buffer meant for whole-word transfers: its length `N` is a
/// multiple of four.
pub struct WordBuffer<const N: usize> {
    bytes: [u8; N],
}

impl<const N: usize> View for WordBuffer<N> {
    type V = Seq<u8>;

    closed spec fn view(&self) -> Seq<u8> {
        self.bytes@
    }
}

impl<const N: usize> WordBuffer<N> {
    #[verifier::type_invariant]
    spec fn whole_words(&self) -> bool {
        N % 4 == 0
    }

    /// Wraps `bytes`; refuses a length that is not a multiple of four.
    pub fn new(bytes: [u8; N]) -> (r: Option<WordBuffer<N>>)
        ensures
            r is Some <==> N % 4 == 0,
            r matches Some(b) ==> b@ == bytes@,
    {
        if N % 4 == 0 {
            Some(WordBuffer { bytes })
        } else {
            None
        }
    }

    /// The number of bytes held, always a multiple of four.
    pub fn len(&self) -> (r: usize)
        ensures
            r == self@.len(),
            r % 4 == 0,
    {
        proof {
            use_type_invariant(self);
        }
        N
    }

    pub fn as_slice(&self) -> (r: &[u8])
        ensures
            r@ == self@,
    {
        self.bytes.as_slice()
    }
}

/// At most `CHUNK_CAPACITY` bytes, held in place.
pub struct Chunk {
    bytes: [u8; 23],
    len: usize,
}

/// How many bytes a `Chunk` holds at most.
pub const CHUNK_CAPACITY: usize = 23;

impl View for Chunk {
    type V = Seq<u8>;

    closed spec fn view(&self) -> Seq<u8> {
        self.bytes@.take(self.len as int)
    }
}

impl Chunk {
    #[verifier::type_invariant]
    spec fn within(&self) -> bool {
        self.len <= CHUNK_CAPACITY
    }

    /// The first `len` bytes of `bytes`.
    pub fn new(bytes: [u8; 23], len: usize) -> (r: Option<Chunk>)
        ensures
            r is Some <==> len <= CHUNK_CAPACITY,
            r matches Some(c) ==> c@ == bytes@.take(len as int),
    {
        if len <= CHUNK_CAPACITY {
            Some(Chunk { bytes, len })
        } else {
            None
        }
    }

    pub fn len(&self) -> (r: usize)
        ensures
            r == self@.len(),
    {
        proof {
            use_type_invariant(self);
        }
        self.len
    }

    pub fn as_slice(&self) -> (r: &[u8])
        ensures
            r@ == self@,
    {
        proof {
            use_type_invariant(self);
        }
        slice_subrange(self.bytes.as_slice(), 0, self.len)
    }
}

/// Writes an arbitrary byte sequence one byte per transfer.
pub struct ByteCursor {
    pos: usize,
    sent: Ghost<Seq<Transfer>>,
}

impl ByteCursor {
    /// How many bytes have been handed to the port.
    pub closed spec fn position(&self) -> nat {
        self.pos as nat
    }

    /// The transfers issued so far.
    pub closed spec fn sent(&self) -> Seq<Transfer> {
        self.sent@
    }

    /// The transfers issued so far put exactly the first `position()` bytes of `data` on the wire.
    pub open spec fn tracks(&self, data: Seq<u8>) -> bool {
        &&& self.position() <= data.len()
        &&& stream_bytes(self.sent()) == data.take(self.position() as int)
    }

    /// A writer that has sent nothing yet.
    pub fn new() -> (r: ByteCursor)
        ensures
            r.position() == 0,
            r.sent() == Seq::<Transfer>::empty(),
            forall|data: Seq<u8>| r.tracks(data),
    {
        let r = ByteCursor { pos: 0, sent: Ghost(Seq::empty()) };
        assert forall|data: Seq<u8>| r.tracks(data) by {
            assert(data.take(0) =~= Seq::<u8>::empty());
            assert(stream_bytes(Seq::<Transfer>::empty()) =~= Seq::<u8>::empty());
        }
        r
    }

    /// Decides the next move given the port's ready bit.
    pub fn step(&mut self, data: &[u8], ready: bool) -> (s: Step)
        requires
            old(self).tracks(data@),
        ensures
            final(self).tracks(data@),
            old(self).position() == data@.len() ==> s is Done && *final(self) == *old(self),
            old(self).position() < data@.len() && !ready ==> s is Wait && *final(self) == *old(self),
            old(self).position() < data@.len() && ready ==> {
                let t = Transfer::Byte(data@[old(self).position() as int]);
                &&& s == Step::Send(t)
                &&& final(self).position() == old(self).position() + 1
                &&& final(self).sent() == old(self).sent().push(t)
            },
            s is Done ==> stream_bytes(final(self).sent()) == data@,
    {
        if self.pos == data.len() {
            assert(data@.take(data@.len() as int) =~= data@);
            return Step::Done;
        }
        if !ready {
            return Step::Wait;
        }
        let t = Transfer::Byte(data[self.pos]);
        proof {
            lemma_stream_push(self.sent@, t);
            assert(data@.take(self.pos + 1) =~= data@.take(self.pos as int) + seq![data@[self.pos as int]]);
        }
        self.sent = Ghost(self.sent@.push(t));
        self.pos = self.pos + 1;
        Step::Send(t)
    }
}

/// Writes a word buffer one 32-bit transfer per four bytes.
pub struct WordCursor {
    pos: usize,
    sent: Ghost<Seq<Transfer>>,
}

impl WordCursor {
    /// How many bytes have been handed to the port.
    pub closed spec fn position(&self) -> nat {
        self.pos as nat
    }

    /// The transfers issued so far.
    pub closed spec fn sent(&self) -> Seq<Transfer> {
        self.sent@
    }

    /// The transfers issued so far are whole words that put exactly the first
    /// `position()` bytes of `data` on the wire.
    pub open spec fn tracks(&self, data: Seq<u8>) -> bool {
        &&& self.position() <= data.len()
        &&& self.position() % 4 == 0
        &&& stream_bytes(self.sent()) == data.take(self.position() as int)
        &&& forall|i: int| 0 <= i < self.sent().len() ==> self.sent()[i] is Word
    }

    /// A writer that has sent nothing yet.
    pub fn new() -> (r: WordCursor)
        ensures
            r.position() == 0,
            r.sent() == Seq::<Transfer>::empty(),
            forall|data: Seq<u8>| r.tracks(data),
    {
        let r = WordCursor { pos: 0, sent: Ghost(Seq::empty()) };
        assert forall|data: Seq<u8>| r.tracks(data) by {
            assert(data.take(0) =~= Seq::<u8>::empty());
            assert(stream_bytes(Seq::<Transfer>::empty()) =~= Seq::<u8>::empty());
        }
        r
    }

    /// Decides the next move given the port's ready bit.
    pub fn step<const N: usize>(&mut self, buf: &WordBuffer<N>, ready: bool) -> (s: Step)
        requires
            old(self).tracks(buf@),
        ensures
            final(self).tracks(buf@),
            old(self).position() == buf@.len() ==> s is Done && *final(self) == *old(self),
            old(self).position() < buf@.len() && !ready ==> s is Wait && *final(self) == *old(self),
            old(self).position() < buf@.len() && ready ==> {
                let p = old(self).position() as int;
                let t = Transfer::Word(pack(buf@[p], buf@[p + 1], buf@[p + 2], buf@[p + 3]));
                &&& s == Step::Send(t)
                &&& final(self).position() == old(self).position() + 4
                &&& final(self).sent() == old(self).sent().push(t)
            },
            s matches Step::Send(t) ==> t is Word && transfer_bytes(t).len() == 4,
            s is Done ==> stream_bytes(final(self).sent()) == buf@,
    {
        proof {
            use_type_invariant(buf);
        }
        let data = buf.as_slice();
        if self.pos == data.len() {
            assert(data@.take(data@.len() as int) =~= data@);
            return Step::Done;
        }
        if !ready {
            return Step::Wait;
        }
        let p = self.pos;
        let b0 = data[p];
        let b1 = data[p + 1];
        let b2 = data[p + 2];
        let b3 = data[p + 3];
        let w: u32 = (b0 as u32) | ((b1 as u32) << 8u32) | ((b2 as u32) << 16u32) | ((b3 as u32) << 24u32);
        let t = Transfer::Word(w);
        proof {
            lemma_pack_bytes(b0, b1, b2, b3);
            lemma_stream_push(self.sent@, t);
            assert(data@.take(p + 4) =~= data@.take(p as int) + seq![b0, b1, b2, b3]);
        }
        self.sent = Ghost(self.sent@.push(t));
        self.pos = p + 4;
        Step::Send(t)
    }
}

} // verus!
