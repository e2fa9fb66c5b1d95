use vstd::prelude::*;
use crate::message::{
    decode_message, lemma_parse_consumes, lemma_parse_extend, parse, ClientMessage, Decoded,
    MessageView, Parse,
};

verus! {

/// Every complete message at the front of `s`, in order, with the bytes
/// left after them and whether decoding stopped at a protocol violation.
pub open spec fn drain(s: Seq<u8>) -> (Seq<MessageView>, Seq<u8>, bool)
    decreases s.len(),
{
    match parse(s) {
        Parse::Incomplete => (Seq::empty(), s, false),
        Parse::Malformed => (Seq::empty(), s, true),
        Parse::Message(m, n) => if 0 < n <= s.len() {
            let r = drain(s.skip(n as int));
            (seq![m] + r.0, r.1, r.2)
        } else {
            (Seq::empty(), s, true)
        },
    }
}

/// What a buffer holding `pending` yields when `chunks` arrive one after
/// the other and the buffer is drained after each; after a violation the
/// rest is not looked at.
pub open spec fn feed(pending: Seq<u8>, chunks: Seq<Seq<u8>>) -> (Seq<MessageView>, bool)
    decreases chunks.len(),
{
    if chunks.len() == 0 {
        (Seq::empty(), false)
    } else {
        let d = drain(pending + chunks[0]);
        if d.2 {
            (d.0, true)
        } else {
            let r = feed(d.1, chunks.drop_first());
            (d.0 + r.0, r.1)
        }
    }
}

/// What is left after draining without a violation is an incomplete
/// message.
pub proof fn lemma_drain_rest(s: Seq<u8>)
    ensures
        !drain(s).2 ==> parse(drain(s).1) is Incomplete,
    decreases s.len(),
{
    lemma_parse_consumes(s);
    if let Parse::Message(m, n) = parse(s) {
        lemma_drain_rest(s.skip(n as int));
    }
}

/// Draining `a + c` is draining `a`, then draining what `a` left together
/// with `c`; a violation inside `a` ends it there.
pub proof fn lemma_drain_append(a: Seq<u8>, c: Seq<u8>)
    ensures
        drain(a).2 ==> drain(a + c).0 == drain(a).0 && drain(a + c).2,
        !drain(a).2 ==> drain(a + c).0 == drain(a).0 + drain(drain(a).1 + c).0
            && drain(a + c).1 == drain(drain(a).1 + c).1
            && drain(a + c).2 == drain(drain(a).1 + c).2,
    decreases a.len(),
{
    lemma_parse_consumes(a);
    match parse(a) {
        Parse::Incomplete => {
            assert(Seq::<MessageView>::empty() + drain(a + c).0 =~= drain(a + c).0);
        },
        Parse::Malformed => {
            lemma_parse_extend(a, c);
        },
        Parse::Message(m, n) => {
            lemma_parse_extend(a, c);
            lemma_parse_consumes(a + c);
            let rest = a.skip(n as int);
            assert((a + c).skip(n as int) =~= rest + c);
            lemma_drain_append(rest, c);
            if !drain(a).2 {
                assert(seq![m] + (drain(rest).0 + drain(drain(rest).1 + c).0) =~= (seq![m]
                    + drain(rest).0) + drain(drain(rest).1 + c).0);
            }
        },
    }
}

/// Feeding a byte stream in chunks, draining after each, yields the same
/// messages, and the same verdict on violations, as feeding it whole.
pub proof fn lemma_chunked_feed(pending: Seq<u8>, chunks: Seq<Seq<u8>>)
    requires
        parse(pending) is Incomplete,
    ensures
        feed(pending, chunks).0 == drain(pending + chunks.flatten()).0,
        feed(pending, chunks).1 == drain(pending + chunks.flatten()).2,
    decreases chunks.len(),
{
    if chunks.len() == 0 {
        assert(pending + chunks.flatten() =~= pending);
    } else {
        let c0 = chunks[0];
        let rest = chunks.drop_first();
        assert(pending + chunks.flatten() =~= (pending + c0) + rest.flatten());
        lemma_drain_append(pending + c0, rest.flatten());
        let d = drain(pending + c0);
        if !d.2 {
            lemma_drain_rest(pending + c0);
            lemma_chunked_feed(d.1, rest);
        }
    }
}

/// Bytes received from a client that have not yet formed a whole message.
pub struct InboundBuffer {
    data: Vec<u8>,
}

impl View for InboundBuffer {
    type V = Seq<u8>;

    closed spec fn view(&self) -> Seq<u8> {
        self.data@
    }
}

impl InboundBuffer {
    pub fn new() -> (r: Self)
        ensures
            r@ == Seq::<u8>::empty(),
    {
        InboundBuffer { data: Vec::new() }
    }

    pub fn len(&self) -> (r: usize)
        ensures
            r == self@.len(),
    {
        self.data.len()
    }

    /// The bytes held, oldest first.
    pub fn as_slice(&self) -> (r: &[u8])
        ensures
            r@ == self@,
    {
        self.data.as_slice()
    }

    /// Appends bytes that have just been read.
    pub fn push_inbound(&mut self, bytes: &[u8])
        ensures
            final(self)@ == old(self)@ + bytes@,
    {
        crate::wire::push_all(&mut self.data, bytes);
    }

    /// Removes the first `n` bytes.
    pub fn consume(&mut self, n: usize)
        requires
            n <= old(self)@.len(),
        ensures
            final(self)@ == old(self)@.skip(n as int),
    {
        let tail = self.data.split_off(n);
        self.data = tail;
    }

    /// Tries to decode one message; on success its bytes are removed,
    /// otherwise nothing is.
    pub fn try_decode_one(&mut self) -> (r: Decoded)
        ensures
            r@ == parse(old(self)@),
            r@ matches Parse::Message(_, n) ==> final(self)@ == old(self)@.skip(n as int),
            !(r@ is Message) ==> final(self)@ == old(self)@,
    {
        let r = decode_message(self.data.as_slice());
        proof {
            lemma_parse_consumes(self@);
        }
        if let Decoded::Message(_, n) = &r {
            self.consume(*n);
        }
        r
    }

    /// Decodes every complete message held, in arrival order; stops at a
    /// violation, which the flag reports.
    pub fn drain_messages(&mut self) -> (r: (Vec<ClientMessage>, bool))
        ensures
            r.0@.map_values(|m: ClientMessage| m@) == drain(old(self)@).0,
            final(self)@ == drain(old(self)@).1,
            r.1 == drain(old(self)@).2,
    {
        let mut out: Vec<ClientMessage> = Vec::new();
        loop
            invariant
                out@.map_values(|m: ClientMessage| m@) + drain(self@).0 == drain(old(self)@).0,
                drain(self@).1 == drain(old(self)@).1,
                drain(self@).2 == drain(old(self)@).2,
            decreases self@.len(),
        {
            let ghost before = self@;
            let ghost prev = out@.map_values(|m: ClientMessage| m@);
            proof {
                lemma_parse_consumes(before);
            }
            match self.try_decode_one() {
                Decoded::Message(m, n) => {
                    let ghost mv = m@;
                    out.push(m);
                    proof {
                        assert(drain(before).0 =~= seq![mv] + drain(self@).0);
                        assert(out@.map_values(|m: ClientMessage| m@) =~= prev.push(mv));
                    }
                },
                Decoded::Malformed => {
                    assert(out@.map_values(|m: ClientMessage| m@) + Seq::empty()
                        =~= out@.map_values(|m: ClientMessage| m@));
                    return (out, true);
                },
                Decoded::Incomplete => {
                    assert(out@.map_values(|m: ClientMessage| m@) + Seq::empty()
                        =~= out@.map_values(|m: ClientMessage| m@));
                    return (out, false);
                },
            }
        }
    }
}

/// Bytes queued for the client and not yet written.
pub struct OutboundBuffer {
    data: Vec<u8>,
}

impl View for OutboundBuffer {
    type V = Seq<u8>;

    closed spec fn view(&self) -> Seq<u8> {
        self.data@
    }
}

impl OutboundBuffer {
    pub fn new() -> (r: Self)
        ensures
            r@ == Seq::<u8>::empty(),
    {
        OutboundBuffer { data: Vec::new() }
    }

    /// The bytes still to be written, oldest first.
    pub fn pending(&self) -> (r: &[u8])
        ensures
            r@ == self@,
    {
        self.data.as_slice()
    }

    pub fn is_empty(&self) -> (r: bool)
        ensures
            r == (self@.len() == 0),
    {
        self.data.len() == 0
    }

    /// Appends bytes to the tail of what is to be written.
    pub fn queue_outbound(&mut self, bytes: &[u8])
        ensures
            final(self)@ == old(self)@ + bytes@,
    {
        crate::wire::push_all(&mut self.data, bytes);
    }

    /// Records that the first `n` pending bytes were written; a write of
    /// zero bytes changes nothing.
    pub fn consume(&mut self, n: usize)
        requires
            n <= old(self)@.len(),
        ensures
            final(self)@ == old(self)@.skip(n as int),
    {
        let tail = self.data.split_off(n);
        self.data = tail;
    }
}

} // verus!
