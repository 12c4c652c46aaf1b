use vstd::prelude::*;
use crate::error::Error;
use crate::framing::{MAX_FRAME_LEN, be_bytes, be_value, framed, header_ok, header_length, lemma_be_round_trip};

verus! {

/// What one read call on a descriptor reported.
pub enum ReadEvent {
    /// The bytes read; none at all means the peer closed the stream.
    Data(Vec<u8>),
    /// The call was interrupted by a signal before it read anything.
    Interrupted,
    /// The descriptor is non-blocking and nothing was available.
    WouldBlock,
    /// The call failed with this error number.
    Failed(i32),
}

/// Where a read of an exact number of bytes stands.
#[derive(Debug, Clone, Copy, PartialEq, Eq)]
pub enum ReadProgress {
    /// This many bytes are still to be read: issue the read again.
    Pending(usize),
    /// Every byte has been read.
    Complete,
    /// The peer closed the stream before any byte came.
    Eof,
}

/// The buffer and progress after one read outcome, from buffer `buf`:
/// `None` for an outcome that is retried. An empty read ends the read at the
/// end of the stream; after some bytes came it is a protocol error instead,
/// which `closed_early` tells.
pub open spec fn step(buf: Seq<u8>, wanted: nat, data: Option<Seq<u8>>) -> (Seq<u8>, ReadProgress) {
    match data {
        None => (buf, ReadProgress::Pending((wanted - buf.len()) as usize)),
        Some(d) => if d.len() == 0 {
            (buf, ReadProgress::Eof)
        } else if buf.len() + d.len() == wanted {
            (buf + d, ReadProgress::Complete)
        } else {
            (buf + d, ReadProgress::Pending((wanted - buf.len() - d.len()) as usize))
        },
    }
}

/// The stream closed after some of the bytes came, but not all.
pub open spec fn closed_early(buf: Seq<u8>, data: Seq<u8>) -> bool {
    data.len() == 0 && buf.len() > 0
}

/// The bytes of a sequence of chunks, in order.
pub open spec fn concat(chunks: Seq<Seq<u8>>) -> Seq<u8>
    decreases chunks.len(),
{
    if chunks.len() == 0 {
        Seq::empty()
    } else {
        chunks[0] + concat(chunks.drop_first())
    }
}

/// Feeds the chunks in order, from buffer `buf`, until the read completes or
/// hits the end of the stream; gives the buffer and where the read stands.
pub open spec fn run(buf: Seq<u8>, wanted: nat, chunks: Seq<Seq<u8>>) -> (Seq<u8>, ReadProgress)
    decreases chunks.len(),
{
    if chunks.len() == 0 {
        if buf.len() == wanted {
            (buf, ReadProgress::Complete)
        } else {
            (buf, ReadProgress::Pending((wanted - buf.len()) as usize))
        }
    } else {
        let (nb, p) = step(buf, wanted, Some(chunks[0]));
        if p is Pending {
            run(nb, wanted, chunks.drop_first())
        } else {
            (nb, p)
        }
    }
}

/// A read of exactly `wanted` bytes, fed with the outcome of each read call.
/// Interrupted and would-block calls are retried without loss; short reads
/// accumulate; any other failure ends the read.
pub struct ReadExact {
    wanted: usize,
    buf: Vec<u8>,
}

impl ReadExact {
    /// The number of bytes the read is for.
    pub closed spec fn wanted(&self) -> nat {
        self.wanted as nat
    }

    /// The bytes received so far.
    pub closed spec fn received(&self) -> Seq<u8> {
        self.buf@
    }

    pub open spec fn wf(&self) -> bool {
        self.received().len() <= self.wanted()
    }

    /// A read of `wanted` bytes, none received yet.
    pub fn new(wanted: usize) -> (r: ReadExact)
        ensures
            r.wf(),
            r.wanted() == wanted,
            r.received() == Seq::<u8>::empty(),
    {
        ReadExact { wanted, buf: Vec::new() }
    }

    /// How many bytes are still to be read.
    pub fn remaining(&self) -> (r: usize)
        requires
            self.wf(),
        ensures
            r == self.wanted() - self.received().len(),
    {
        self.wanted - self.buf.len()
    }

    /// Whether every byte has been read.
    pub fn is_complete(&self) -> (r: bool)
        requires
            self.wf(),
        ensures
            r == (self.received().len() == self.wanted()),
    {
        self.buf.len() == self.wanted
    }

    /// Takes in what one read call reported. The call must not have been
    /// asked for more than the remaining bytes, so it cannot report more.
    pub fn feed(&mut self, ev: ReadEvent) -> (r: Result<ReadProgress, Error>)
        requires
            old(self).wf(),
            old(self).received().len() < old(self).wanted(),
            ev matches ReadEvent::Data(d) ==> d@.len() <= old(self).wanted() - old(self).received().len(),
        ensures
            final(self).wf(),
            final(self).wanted() == old(self).wanted(),
            match ev {
                ReadEvent::Data(d) => if closed_early(old(self).received(), d@) {
                    &&& final(self).received() == old(self).received()
                    &&& r matches Err(e) && e is ProtocolError
                } else {
                    &&& final(self).received() == step(old(self).received(), old(self).wanted(), Some(d@)).0
                    &&& r == Ok::<ReadProgress, Error>(step(old(self).received(), old(self).wanted(), Some(d@)).1)
                },
                ReadEvent::Interrupted | ReadEvent::WouldBlock => {
                    &&& final(self).received() == old(self).received()
                    &&& r == Ok::<ReadProgress, Error>(step(old(self).received(), old(self).wanted(), None).1)
                },
                ReadEvent::Failed(code) => {
                    &&& final(self).received() == old(self).received()
                    &&& r == Err::<ReadProgress, Error>(Error::Io(code))
                },
            },
    {
        match ev {
            ReadEvent::Data(d) => {
                if d.len() == 0 {
                    if self.buf.len() > 0 {
                        return Err(Error::ProtocolError("stream closed before every byte came".to_owned()));
                    }
                    return Ok(ReadProgress::Eof);
                }
                let ghost b0 = self.buf@;
                let mut i: usize = 0;
                while i < d.len()
                    invariant
                        i <= d@.len(),
                        self.buf@ == b0 + d@.subrange(0, i as int),
                        self.wanted == old(self).wanted,
                    decreases d.len() - i,
                {
                    self.buf.push(d[i]);
                    i = i + 1;
                    assert(d@.subrange(0, i as int) == d@.subrange(0, i - 1) + seq![d@[i - 1]]);
                }
                assert(d@.subrange(0, i as int) == d@);
                if self.buf.len() == self.wanted {
                    Ok(ReadProgress::Complete)
                } else {
                    Ok(ReadProgress::Pending(self.wanted - self.buf.len()))
                }
            },
            ReadEvent::Interrupted | ReadEvent::WouldBlock => Ok(ReadProgress::Pending(self.wanted - self.buf.len())),
            ReadEvent::Failed(code) => Err(Error::Io(code)),
        }
    }

    /// The bytes received so far.
    pub fn received_bytes(&self) -> (r: &Vec<u8>)
        ensures
            r@ == self.received(),
    {
        &self.buf
    }

    /// The bytes received.
    pub fn into_bytes(self) -> (r: Vec<u8>)
        ensures
            r@ == self.received(),
    {
        self.buf
    }
}

/// However the bytes are split into non-empty chunks, feeding the chunks in
/// order completes the read exactly with the last one, holding every byte in
/// order.
pub proof fn lemma_chunks_complete(buf: Seq<u8>, wanted: nat, chunks: Seq<Seq<u8>>)
    requires
        buf.len() + concat(chunks).len() == wanted,
        forall|i: int| 0 <= i < chunks.len() ==> #[trigger] chunks[i].len() > 0,
    ensures
        run(buf, wanted, chunks) == (buf + concat(chunks), ReadProgress::Complete),
    decreases chunks.len(),
{
    if chunks.len() == 0 {
        assert(buf + concat(chunks) == buf);
    } else {
        let rest = chunks.drop_first();
        assert forall|i: int| 0 <= i < rest.len() implies #[trigger] rest[i].len() > 0 by {
            assert(rest[i] == chunks[i + 1]);
        }
        if rest.len() > 0 {
            assert(chunks[1].len() > 0);
            assert(concat(rest).len() >= rest[0].len());
        }
        lemma_chunks_complete(buf + chunks[0], wanted, rest);
        assert(buf + chunks[0] + concat(rest) == buf + concat(chunks));
    }
}

/// A stream closed before any byte came ends the read at once, with nothing
/// received.
pub proof fn lemma_closed_stream(wanted: nat, chunks: Seq<Seq<u8>>)
    requires
        wanted > 0,
        chunks.len() > 0,
        chunks[0].len() == 0,
    ensures
        run(Seq::empty(), wanted, chunks) == (Seq::<u8>::empty(), ReadProgress::Eof),
{
}

/// Reading a frame back (with `read_chunks`, whose result is `run`), however
/// the kernel splits its header and its payload into non-empty chunks, gives the header's length and then the
/// payload exactly; an empty payload needs no read at all.
pub proof fn lemma_frame_read_back(
    payload: Seq<u8>,
    header_chunks: Seq<Seq<u8>>,
    body_chunks: Seq<Seq<u8>>,
)
    requires
        payload.len() <= MAX_FRAME_LEN,
        concat(header_chunks) == framed(payload).subrange(0, 4),
        concat(body_chunks) == framed(payload).subrange(4, framed(payload).len() as int),
        forall|i: int| 0 <= i < header_chunks.len() ==> #[trigger] header_chunks[i].len() > 0,
        forall|i: int| 0 <= i < body_chunks.len() ==> #[trigger] body_chunks[i].len() > 0,
    ensures
        run(Seq::empty(), 4, header_chunks).1 == ReadProgress::Complete,
        header_ok(run(Seq::empty(), 4, header_chunks).0),
        be_value(run(Seq::empty(), 4, header_chunks).0) == payload.len(),
        run(Seq::empty(), payload.len(), body_chunks) == (payload, ReadProgress::Complete),
{
    let f = framed(payload);
    let x = payload.len() as u32;
    assert(f.subrange(0, 4) == be_bytes(x));
    assert(f.subrange(4, f.len() as int) == payload);
    lemma_chunks_complete(Seq::empty(), 4, header_chunks);
    assert(Seq::<u8>::empty() + concat(header_chunks) == be_bytes(x));
    lemma_be_round_trip(x);
    lemma_chunks_complete(Seq::empty(), payload.len(), body_chunks);
    assert(Seq::<u8>::empty() + concat(body_chunks) == payload);
}

/// Where the read of one frame stands.
#[derive(Debug, PartialEq, Eq)]
pub enum FrameProgress {
    /// This many bytes are still to be read: issue the read again.
    Pending(usize),
    /// The payload of the frame, complete.
    Frame(Vec<u8>),
    /// The peer closed the stream cleanly, before any byte of a header.
    Closed,
}

/// The read of one frame: four header bytes announcing a length, then that
/// many payload bytes. Fed with the outcome of each read call.
pub struct FrameReader {
    header: ReadExact,
    body: Option<ReadExact>,
    over: bool,
}

impl FrameReader {
    /// The header bytes received so far.
    pub closed spec fn header(&self) -> Seq<u8> {
        self.header.received()
    }

    /// Once the header is complete: the announced length and the payload
    /// bytes received so far.
    pub closed spec fn body(&self) -> Option<(nat, Seq<u8>)> {
        match self.body {
            Some(b) => Some((b.wanted(), b.received())),
            None => None,
        }
    }

    /// Whether the read has ended, with a frame, a clean close or an error.
    pub closed spec fn finished(&self) -> bool {
        self.over
    }

    pub closed spec fn wf(&self) -> bool {
        &&& self.header.wf()
        &&& self.header.wanted() == 4
        &&& !self.over ==> match self.body {
            None => self.header.received().len() < 4,
            Some(b) => {
                &&& b.wf()
                &&& self.header.received().len() == 4
                &&& header_ok(self.header.received())
                &&& b.wanted() == be_value(self.header.received())
                &&& b.received().len() < b.wanted()
            },
        }
    }

    /// How many bytes the next read call asks for.
    pub open spec fn remaining_spec(&self) -> nat {
        match self.body() {
            None => (4 - self.header().len()) as nat,
            Some((n, b)) => (n - b.len()) as nat,
        }
    }

    /// A read of a frame, nothing received yet.
    pub fn new() -> (r: FrameReader)
        ensures
            r.wf(),
            !r.finished(),
            r.header() == Seq::<u8>::empty(),
            r.body() is None,
    {
        FrameReader { header: ReadExact::new(4), body: None, over: false }
    }

    /// How many bytes the next read call asks for.
    pub fn remaining(&self) -> (r: usize)
        requires
            self.wf(),
            !self.finished(),
        ensures
            r == self.remaining_spec(),
            r > 0,
    {
        match &self.body {
            None => self.header.remaining(),
            Some(b) => b.remaining(),
        }
    }

    /// Takes in what one read call reported; the call must not have been
    /// asked for more than `remaining` bytes. A close before any header byte
    /// is clean; a close inside a frame, and a negative length, are protocol
    /// errors. An empty payload completes with the header.
    pub fn feed(&mut self, ev: ReadEvent) -> (r: Result<FrameProgress, Error>)
        requires
            old(self).wf(),
            !old(self).finished(),
            ev matches ReadEvent::Data(d) ==> d@.len() <= old(self).remaining_spec(),
        ensures
            final(self).wf(),
            final(self).finished() == !(r matches Ok(FrameProgress::Pending(_))),
            r matches Ok(FrameProgress::Pending(n)) ==> n == final(self).remaining_spec(),
            ev is Interrupted || ev is WouldBlock ==> r == Ok::<FrameProgress, Error>(
                FrameProgress::Pending(old(self).remaining_spec() as usize),
            ),
            ev matches ReadEvent::Failed(code) ==> r == Err::<FrameProgress, Error>(Error::Io(code)),
            ev matches ReadEvent::Data(d) ==> (d@.len() == 0 ==> {
                if old(self).header().len() == 0 {
                    r == Ok::<FrameProgress, Error>(FrameProgress::Closed)
                } else {
                    r matches Err(e) && e is ProtocolError
                }
            }),
            ev matches ReadEvent::Data(d) ==> (d@.len() > 0 && old(self).body() is None ==> {
                let h = old(self).header() + d@;
                &&& h.len() < 4 ==> final(self).header() == h && final(self).body() is None
                    && r == Ok::<FrameProgress, Error>(FrameProgress::Pending((4 - h.len()) as usize))
                &&& h.len() == 4 && !header_ok(h) ==> (r matches Err(e) && e is ProtocolError)
                &&& h.len() == 4 && header_ok(h) && be_value(h) == 0 ==> (r matches Ok(
                    FrameProgress::Frame(f),
                ) && f@.len() == 0)
                &&& h.len() == 4 && header_ok(h) && be_value(h) > 0 ==> final(self).header() == h
                    && final(self).body() == Some((be_value(h) as nat, Seq::<u8>::empty()))
                    && r == Ok::<FrameProgress, Error>(FrameProgress::Pending(be_value(h) as usize))
            }),
            ev matches ReadEvent::Data(d) ==> (d@.len() > 0 && old(self).body() is Some ==> {
                let (n, b) = old(self).body()->Some_0;
                &&& b.len() + d@.len() < n ==> final(self).body() == Some((n, b + d@))
                    && r == Ok::<FrameProgress, Error>(FrameProgress::Pending((n - b.len() - d@.len()) as usize))
                &&& b.len() + d@.len() == n ==> (r matches Ok(FrameProgress::Frame(f)) && f@ == b + d@)
            }),
    {
        let empty_data = match &ev {
            ReadEvent::Data(d) => d.len() == 0,
            _ => false,
        };
        if self.body.is_none() {
            if empty_data && self.header.remaining() < 4 {
                self.over = true;
                return Err(Error::ProtocolError("stream closed inside a frame header".to_owned()));
            }
            match self.header.feed(ev) {
                Err(e) => {
                    self.over = true;
                    Err(e)
                },
                Ok(ReadProgress::Eof) => {
                    self.over = true;
                    Ok(FrameProgress::Closed)
                },
                Ok(ReadProgress::Pending(n)) => Ok(FrameProgress::Pending(n)),
                Ok(ReadProgress::Complete) => {
                    let h = self.header.received_bytes();
                    match header_length(h) {
                        Err(e) => {
                            self.over = true;
                            Err(e)
                        },
                        Ok(0) => {
                            self.over = true;
                            Ok(FrameProgress::Frame(Vec::new()))
                        },
                        Ok(n) => {
                            self.body = Some(ReadExact::new(n));
                            Ok(FrameProgress::Pending(n))
                        },
                    }
                },
            }
        } else {
            let mut b = self.body.take().unwrap();
            if empty_data {
                self.over = true;
                self.body = Some(b);
                return Err(Error::ProtocolError("stream closed inside a frame".to_owned()));
            }
            match b.feed(ev) {
                Err(e) => {
                    self.over = true;
                    self.body = Some(b);
                    Err(e)
                },
                Ok(ReadProgress::Complete) => {
                    self.over = true;
                    let f = b.into_bytes();
                    Ok(FrameProgress::Frame(f))
                },
                Ok(ReadProgress::Pending(n)) => {
                    self.body = Some(b);
                    Ok(FrameProgress::Pending(n))
                },
                Ok(ReadProgress::Eof) => {
                    self.over = true;
                    self.body = Some(b);
                    Err(Error::ProtocolError("stream closed inside a frame".to_owned()))
                },
            }
        }
    }
}

/// The bytes of each chunk.
pub open spec fn views(chunks: Seq<Vec<u8>>) -> Seq<Seq<u8>> {
    chunks.map_values(|c: Vec<u8>| c@)
}

/// Feeds buffered non-empty chunks, in order, to a read of `wanted` bytes,
/// as successive read calls would deliver them; no call delivers more than
/// was asked. Gives the bytes received and where the read stands.
pub fn read_chunks(wanted: usize, chunks: &Vec<Vec<u8>>) -> (r: (Vec<u8>, ReadProgress))
    requires
        concat(views(chunks@)).len() <= wanted,
        forall|i: int| 0 <= i < chunks@.len() ==> #[trigger] chunks@[i]@.len() > 0,
    ensures
        (r.0@, r.1) == run(Seq::empty(), wanted as nat, views(chunks@)),
{
    let ghost v = views(chunks@);
    let mut st = ReadExact::new(wanted);
    let mut i: usize = 0;
    assert(v.skip(0) =~= v);
    while i < chunks.len()
        invariant
            i <= chunks@.len(),
            v == views(chunks@),
            st.wf(),
            st.wanted() == wanted,
            forall|k: int| 0 <= k < chunks@.len() ==> #[trigger] chunks@[k]@.len() > 0,
            run(Seq::empty(), wanted as nat, v) == run(st.received(), wanted as nat, v.skip(i as int)),
            st.received().len() + concat(v.skip(i as int)).len() <= wanted,
        decreases chunks.len() - i,
    {
        let ghost rest = v.skip(i as int);
        assert(rest[0] == chunks@[i as int]@);
        assert(rest.drop_first() == v.skip(i + 1));
        let d = chunks[i].clone();
        assert(d@ =~= chunks@[i as int]@);
        let p = st.feed(ReadEvent::Data(d));
        i = i + 1;
        match p {
            Ok(ReadProgress::Pending(_)) => {},
            _ => {
                if i < chunks.len() {
                    assert(v.skip(i as int)[0] == chunks@[i as int]@);
                    assert(concat(v.skip(i as int)).len() > 0);
                }
                assert(v.skip(i as int).len() == 0 ==> v.skip(i as int) =~= Seq::<Seq<u8>>::empty());
            },
        }
    }
    assert(v.skip(i as int) =~= Seq::<Seq<u8>>::empty());
    let progress = if st.is_complete() {
        ReadProgress::Complete
    } else {
        ReadProgress::Pending(st.remaining())
    };
    (st.into_bytes(), progress)
}

} // verus!
