//! Mixing of mono 16-bit PCM streams.
use vstd::prelude::*;

use crate::channel::{
    audio_channel, poll_chunk, send_chunk, wait_for_either, AudioChunk, Polled,
};

verus! {

/// `v` limited to the range of an `i16`.
pub open spec fn clamp16(v: int) -> int {
    if v < i16::MIN {
        i16::MIN as int
    } else if v > i16::MAX {
        i16::MAX as int
    } else {
        v
    }
}

/// The value of `s` at `i`, and silence past its end.
pub open spec fn sample_or_silence(s: Seq<i16>, i: int) -> int {
    if 0 <= i < s.len() {
        s[i] as int
    } else {
        0
    }
}

/// The sample-wise sum of two streams, limited to the range of an `i16`; the
/// shorter stream counts as followed by silence.
pub open spec fn mixed(a: Seq<i16>, b: Seq<i16>) -> Seq<i16> {
    Seq::new(
        if a.len() > b.len() {
            a.len()
        } else {
            b.len()
        },
        |i: int| clamp16(sample_or_silence(a, i) + sample_or_silence(b, i)) as i16,
    )
}

/// Mix two mono PCM-16 buffers.
///
/// Samples are summed as `i32` and clamped to the `i16` range; the tail of the
/// longer buffer is kept as it is.
pub fn mix_pcm(a: &[i16], b: &[i16]) -> (out: Vec<i16>)
    ensures
        out@ == mixed(a@, b@),
        out@.len() >= a@.len() && out@.len() >= b@.len(),
        out@.len() == a@.len() || out@.len() == b@.len(),
        forall|i: int|
            0 <= i < a@.len() && i < b@.len() ==> {
                let sum = a@[i] + b@[i];
                &&& sum > 32767 ==> #[trigger] out@[i] == 32767
                &&& sum < -32768 ==> out@[i] == -32768
                &&& -32768 <= sum <= 32767 ==> out@[i] == sum
            },
        forall|i: int| b@.len() <= i < a@.len() ==> #[trigger] out@[i] == a@[i],
        forall|i: int| a@.len() <= i < b@.len() ==> #[trigger] out@[i] == b@[i],
{
    let len: usize = if a.len() < b.len() {
        a.len()
    } else {
        b.len()
    };
    let mut out: Vec<i16> = Vec::with_capacity(len);
    let mut i: usize = 0;
    while i < len
        invariant
            i <= len,
            len <= a@.len(),
            len <= b@.len(),
            out@.len() == i,
            forall|k: int| 0 <= k < i ==> #[trigger] out@[k] == clamp16(a@[k] + b@[k]),
        decreases len - i,
    {
        let sum: i32 = a[i] as i32 + b[i] as i32;
        if sum > i16::MAX as i32 {
            out.push(i16::MAX);
        } else if sum < i16::MIN as i32 {
            out.push(i16::MIN);
        } else {
            out.push(sum as i16);
        }
        i = i + 1;
    }
    while i < a.len()
        invariant
            len <= i <= a@.len(),
            len <= b@.len(),
            len == a@.len() || len == b@.len(),
            out@.len() == i,
            forall|k: int| 0 <= k < len ==> #[trigger] out@[k] == clamp16(a@[k] + b@[k]),
            forall|k: int| len <= k < i ==> #[trigger] out@[k] == a@[k],
        decreases a@.len() - i,
    {
        out.push(a[i]);
        i = i + 1;
    }
    while i < b.len()
        invariant
            len <= a@.len() <= i,
            len <= b@.len(),
            i == a@.len() || i <= b@.len(),
            len == a@.len() || len == b@.len(),
            out@.len() == i,
            forall|k: int| 0 <= k < len ==> #[trigger] out@[k] == clamp16(a@[k] + b@[k]),
            forall|k: int| len <= k < a@.len() ==> #[trigger] out@[k] == a@[k],
            forall|k: int| a@.len() <= k < i ==> #[trigger] out@[k] == b@[k],
        decreases b@.len() - i,
    {
        out.push(b[i]);
        i = i + 1;
    }
    proof {
        assert(out@ =~= mixed(a@, b@)) by {
            assert forall|k: int| 0 <= k < out@.len() implies out@[k] == mixed(a@, b@)[k] by {
                let v = sample_or_silence(a@, k) + sample_or_silence(b@, k);
                assert(out@[k] == clamp16(v));
            }
        }
    }
    out
}

/// A stream being captured.
///
/// `stop` holds what ends the capture; all of it is used, in order.
#[derive(Debug)]
pub struct Recording<S> {
    pub rx: crossbeam_channel::Receiver<AudioChunk>,
    pub stop: Vec<S>,
}

/// What has come in on two streams, and what has been mixed of it.
///
/// The samples that have been mixed are no longer held.
pub struct Mixer {
    buf_a: Vec<i16>,
    buf_b: Vec<i16>,
    received_a: Ghost<Seq<i16>>,
    received_b: Ghost<Seq<i16>>,
    output: Ghost<Seq<i16>>,
}

/// What has come in on two streams, and what has been mixed of it.
#[verifier::ext_equal]
pub struct MixerView {
    /// Everything that came in on the first stream.
    pub a: Seq<i16>,
    /// Everything that came in on the second stream.
    pub b: Seq<i16>,
    /// Everything that was mixed.
    pub output: Seq<i16>,
}

/// The length of the shorter of two streams.
pub open spec fn common_len(a: Seq<i16>, b: Seq<i16>) -> nat {
    if a.len() < b.len() {
        a.len()
    } else {
        b.len()
    }
}

impl MixerView {
    /// A mixer that nothing has come into.
    pub open spec fn empty() -> MixerView {
        MixerView { a: Seq::empty(), b: Seq::empty(), output: Seq::empty() }
    }

    /// What was mixed is the mix of what came first on the two streams.
    pub open spec fn wf(self) -> bool {
        let n = self.output.len() as int;
        &&& n <= self.a.len()
        &&& n <= self.b.len()
        &&& self.output == mixed(self.a.take(n), self.b.take(n))
    }

    /// The samples of the two streams that came in and were not mixed yet, mixed
    /// as far as there are some on both sides.
    pub open spec fn next_mix(self) -> Seq<i16> {
        let n = self.output.len() as int;
        let m = common_len(self.a, self.b) as int;
        mixed(self.a.subrange(n, m), self.b.subrange(n, m))
    }

    /// The state after looks at the two streams have brought what they brought.
    pub open spec fn heard(self, polled_a: Polled, polled_b: Polled) -> MixerView {
        MixerView { a: self.a + crate::channel::brought(polled_a), b: self.b + crate::channel::brought(polled_b), ..self }
    }

    /// The state after that, and after whatever there is on both sides was mixed.
    pub open spec fn advanced(self, polled_a: Polled, polled_b: Polled) -> MixerView {
        let heard = self.heard(polled_a, polled_b);
        MixerView { output: heard.output + heard.next_mix(), ..heard }
    }

    /// The state after a look at one stream has brought what it brought.
    pub open spec fn resumed(self, side: Side, polled: Polled) -> MixerView {
        match side {
            Side::A => MixerView { a: self.a + crate::channel::brought(polled), ..self },
            Side::B => MixerView { b: self.b + crate::channel::brought(polled), ..self },
        }
    }
}

/// The first of the two streams, or the second.
#[derive(Debug, Clone, Copy, PartialEq, Eq, Structural)]
pub enum Side {
    A,
    B,
}

/// What follows the first `n` samples.
fn rest(pcm: &Vec<i16>, n: usize) -> (out: Vec<i16>)
    requires
        n <= pcm@.len(),
    ensures
        out@ == pcm@.skip(n as int),
{
    let mut out: Vec<i16> = Vec::with_capacity(pcm.len() - n);
    let mut i: usize = n;
    while i < pcm.len()
        invariant
            n <= i <= pcm@.len(),
            out@ == pcm@.subrange(n as int, i as int),
        decreases pcm@.len() - i,
    {
        out.push(pcm[i]);
        i = i + 1;
        proof {
            assert(out@ =~= pcm@.subrange(n as int, i as int));
        }
    }
    out
}

/// Mixing piece by piece gives the same as mixing all at once.
pub proof fn law_mix_in_pieces(a: Seq<i16>, b: Seq<i16>, n: int, m: int)
    requires
        0 <= n <= m,
        m <= a.len(),
        m <= b.len(),
    ensures
        mixed(a.take(n), b.take(n)) + mixed(a.subrange(n, m), b.subrange(n, m)) == mixed(
            a.take(m),
            b.take(m),
        ),
{
    let first = mixed(a.take(n), b.take(n));
    let second = mixed(a.subrange(n, m), b.subrange(n, m));
    let whole = mixed(a.take(m), b.take(m));
    assert forall|i: int| 0 <= i < m implies (first + second)[i] == whole[i] by {
        if i < n {
            assert(a.take(n)[i] == a.take(m)[i]);
            assert(b.take(n)[i] == b.take(m)[i]);
        } else {
            assert(a.subrange(n, m)[i - n] == a.take(m)[i]);
            assert(b.subrange(n, m)[i - n] == b.take(m)[i]);
        }
    }
    assert(first + second =~= whole);
}

/// The order of the two streams does not matter to the mix.
pub proof fn law_mix_commutes(a: Seq<i16>, b: Seq<i16>)
    ensures
        mixed(a, b) == mixed(b, a),
{
    assert(mixed(a, b) =~= mixed(b, a));
}

/// A stream mixed with silence is itself.
pub proof fn law_mix_with_silence(a: Seq<i16>)
    ensures
        mixed(a, Seq::empty()) == a,
        mixed(Seq::empty(), a) == a,
{
    assert(mixed(a, Seq::empty()) =~= a);
    assert(mixed(Seq::empty(), a) =~= a);
}

impl View for Mixer {
    type V = MixerView;

    closed spec fn view(&self) -> MixerView {
        MixerView { a: self.received_a@, b: self.received_b@, output: self.output@ }
    }
}

impl Mixer {
    /// What was mixed is the mix of what came first on the two streams, and the
    /// mixer holds what came after that.
    pub closed spec fn wf(&self) -> bool {
        &&& self@.wf()
        &&& self.buf_a@ == self@.a.skip(self@.output.len() as int)
        &&& self.buf_b@ == self@.b.skip(self@.output.len() as int)
    }

    /// A mixer that nothing has come into.
    pub fn new() -> (mixer: Mixer)
        ensures
            mixer.wf(),
            mixer@ == MixerView::empty(),
    {
        let mixer = Mixer {
            buf_a: Vec::new(),
            buf_b: Vec::new(),
            received_a: Ghost(Seq::empty()),
            received_b: Ghost(Seq::empty()),
            output: Ghost(Seq::empty()),
        };
        proof {
            let e = Seq::<i16>::empty();
            assert(e.take(0) =~= e);
            assert(e.skip(0) =~= e);
            assert(mixed(e, e) =~= e);
        }
        mixer
    }

    /// Takes in the samples that a look at one of the streams has brought.
    fn receive(&mut self, side: Side, polled: Polled)
        requires
            old(self).wf(),
        ensures
            final(self).wf(),
            final(self)@ == old(self)@.resumed(side, polled),
    {
        let ghost before = self@;
        let ghost n = self@.output.len() as int;
        match polled {
            Polled::Chunk(chunk) => {
                let mut pcm: Vec<i16> = chunk.pcm;
                let ghost came = pcm@;
                match side {
                    Side::A => {
                        self.buf_a.append(&mut pcm);
                        self.received_a = Ghost(before.a + came);
                        proof {
                            assert((before.a + came).take(n) =~= before.a.take(n));
                            assert((before.a + came).skip(n) =~= before.a.skip(n) + came);
                        }
                    },
                    Side::B => {
                        self.buf_b.append(&mut pcm);
                        self.received_b = Ghost(before.b + came);
                        proof {
                            assert((before.b + came).take(n) =~= before.b.take(n));
                            assert((before.b + came).skip(n) =~= before.b.skip(n) + came);
                        }
                    },
                }
            },
            Polled::Empty => {
                proof {
                    assert(before.a + Seq::<i16>::empty() =~= before.a);
                    assert(before.b + Seq::<i16>::empty() =~= before.b);
                }
            },
            Polled::Disconnected => {
                proof {
                    assert(before.a + Seq::<i16>::empty() =~= before.a);
                    assert(before.b + Seq::<i16>::empty() =~= before.b);
                }
            },
        }
    }

    /// Takes in what looks at the two streams have brought, and mixes whatever
    /// there is on both sides by then.
    pub fn advance(&mut self, polled_a: Polled, polled_b: Polled) -> (chunk: Option<AudioChunk>)
        requires
            old(self).wf(),
        ensures
            final(self).wf(),
            final(self)@ == old(self)@.advanced(polled_a, polled_b),
            final(self)@.output.len() == common_len(final(self)@.a, final(self)@.b),
            match chunk {
                Some(c) => c.pcm@ == old(self)@.heard(polled_a, polled_b).next_mix()
                    && c.pcm@.len() > 0,
                None => old(self)@.heard(polled_a, polled_b).next_mix().len() == 0,
            },
    {
        self.receive(Side::A, polled_a);
        self.receive(Side::B, polled_b);
        let ghost heard = self@;
        let ghost n = self@.output.len() as int;
        let ghost m = common_len(heard.a, heard.b) as int;
        let len: usize = if self.buf_a.len() < self.buf_b.len() {
            self.buf_a.len()
        } else {
            self.buf_b.len()
        };
        proof {
            assert(n + len == m);
            assert(heard.a.skip(n).take(len as int) =~= heard.a.subrange(n, m));
            assert(heard.b.skip(n).take(len as int) =~= heard.b.subrange(n, m));
        }
        if len == 0 {
            proof {
                assert(heard.next_mix() =~= Seq::<i16>::empty());
                assert(heard.output + heard.next_mix() =~= heard.output);
            }
            return None;
        }
        let pcm: Vec<i16> = mix_pcm(
            vstd::slice::slice_subrange(self.buf_a.as_slice(), 0, len),
            vstd::slice::slice_subrange(self.buf_b.as_slice(), 0, len),
        );
        self.buf_a = rest(&self.buf_a, len);
        self.buf_b = rest(&self.buf_b, len);
        self.output = Ghost(heard.output + pcm@);
        proof {
            assert(pcm@ == heard.next_mix());
            law_mix_in_pieces(heard.a, heard.b, n, m);
            assert(heard.a.skip(n).skip(len as int) =~= heard.a.skip(m));
            assert(heard.b.skip(n).skip(len as int) =~= heard.b.skip(m));
        }
        Some(AudioChunk { pcm })
    }

    /// Takes in what the stream that was waited for has brought. Returns whether to
    /// go on: the mix ends when a stream has ended.
    pub fn resume(&mut self, side: Side, polled: Polled) -> (more: bool)
        requires
            old(self).wf(),
        ensures
            final(self).wf(),
            final(self)@ == old(self)@.resumed(side, polled),
            more == !(polled is Disconnected),
    {
        let more: bool = match &polled {
            Polled::Disconnected => false,
            _ => true,
        };
        self.receive(side, polled);
        more
    }
}

/// The work of mixing two streams into a third, one step at a time.
pub struct MixJob {
    pub rx_a: crossbeam_channel::Receiver<AudioChunk>,
    pub rx_b: crossbeam_channel::Receiver<AudioChunk>,
    pub tx: crossbeam_channel::Sender<AudioChunk>,
    pub mixer: Mixer,
}

/// The stream with this index.
pub open spec fn side_of(index: usize) -> Side {
    if index == 0 {
        Side::A
    } else {
        Side::B
    }
}

/// A chunk with these samples was handed on, and nothing else happened; it was taken,
/// or nobody listened any more.
pub open spec fn handed_on(before: MixJob, after: MixJob, pcm: Seq<i16>, taken: bool) -> bool {
    &&& after.rx_a == before.rx_a
    &&& after.rx_b == before.rx_b
    &&& after.mixer@ == before.mixer@
    &&& exists|c: AudioChunk|
        c.pcm@ == pcm && #[trigger] crate::channel::handed_to(before.tx, after.tx, c, taken)
}

/// Either stream was waited for, the one with the index `ready` was found ready, and it
/// was looked at, once; nothing else happened. What the look brought came into the mixer,
/// and it tells whether to go on.
pub open spec fn awoken_by(
    before: MixJob,
    after: MixJob,
    more: bool,
    ready: usize,
    polled: Polled,
) -> bool {
    &&& crate::channel::found_ready(before.rx_a, before.rx_b, ready)
    &&& match side_of(ready) {
        Side::A => crate::channel::looked_at(before.rx_a, after.rx_a, polled) && after.rx_b
            == before.rx_b,
        Side::B => crate::channel::looked_at(before.rx_b, after.rx_b, polled) && after.rx_a
            == before.rx_a,
    }
    &&& after.tx == before.tx
    &&& after.mixer@ == before.mixer@.resumed(side_of(ready), polled)
    &&& more == !(polled is Disconnected)
}

/// Either stream was waited for, and the one that was found ready was looked at.
pub open spec fn awoken(before: MixJob, after: MixJob, more: bool) -> bool {
    exists|ready: usize, polled: Polled| awoken_by(before, after, more, ready, polled)
}

/// Each stream was looked at once, and what the looks brought came into the mixer, which
/// left the job at `mid`. Then what could be mixed was handed on, or nothing could be and
/// either of the streams was waited for.
pub open spec fn stepped_by(
    before: MixJob,
    mid: MixJob,
    after: MixJob,
    more: bool,
    polled_a: Polled,
    polled_b: Polled,
) -> bool {
    let mix = before.mixer@.heard(polled_a, polled_b).next_mix();
    &&& crate::channel::looked_at(before.rx_a, mid.rx_a, polled_a)
    &&& crate::channel::looked_at(before.rx_b, mid.rx_b, polled_b)
    &&& mid.tx == before.tx
    &&& mid.mixer@ == before.mixer@.advanced(polled_a, polled_b)
    &&& if mix.len() > 0 {
        handed_on(mid, after, mix, more)
    } else {
        awoken(mid, after, more)
    }
}

/// What one step may have made of a job, and whether to go on.
pub open spec fn stepped(before: MixJob, after: MixJob, more: bool) -> bool {
    exists|mid: MixJob, polled_a: Polled, polled_b: Polled|
        stepped_by(before, mid, after, more, polled_a, polled_b)
}

impl MixJob {
    /// One step: looks at both streams, and sends on what can be mixed; where
    /// nothing can, waits for either of them. Returns whether to go on: the work ends
    /// when nobody listens any more or when a stream has ended.
    ///
    /// What comes in, and which stream is ready first, depends on other threads.
    pub fn step(&mut self) -> (more: bool)
        requires
            old(self).mixer.wf(),
        ensures
            final(self).mixer.wf(),
            stepped(*old(self), *final(self), more),
    {
        let ghost before = *self;
        let polled_a: Polled = poll_chunk(&mut self.rx_a);
        let polled_b: Polled = poll_chunk(&mut self.rx_b);
        let ghost (pa, pb) = (polled_a, polled_b);
        let chunk: Option<AudioChunk> = self.mixer.advance(polled_a, polled_b);
        let ghost mid = *self;
        match chunk {
            Some(c) => {
                let ghost given = c;
                let more: bool = send_chunk(&mut self.tx, c).is_ok();
                proof {
                    assert(crate::channel::handed_to(mid.tx, self.tx, given, more));
                    assert(stepped_by(before, mid, *self, more, pa, pb));
                }
                more
            },
            None => {
                let ready: usize = wait_for_either(&self.rx_a, &self.rx_b);
                let side: Side = if ready == 0 {
                    Side::A
                } else {
                    Side::B
                };
                let polled: Polled = match side {
                    Side::A => poll_chunk(&mut self.rx_a),
                    Side::B => poll_chunk(&mut self.rx_b),
                };
                let ghost p = polled;
                let more: bool = self.mixer.resume(side, polled);
                proof {
                    assert(awoken_by(mid, *self, more, ready, p));
                    assert(stepped_by(before, mid, *self, more, pa, pb));
                }
                more
            },
        }
    }
}

/// Combines two recordings into one by mixing their samples; both have to use the
/// same sample rate. The job does the mixing. To stop the combined recording is to
/// stop the first and then the second.
pub fn mix_recordings<S>(a: Recording<S>, b: Recording<S>, _sample_rate: u32) -> (result: (
    Recording<S>,
    MixJob,
))
    ensures
        result.0.stop@ == a.stop@ + b.stop@,
        crate::channel::capacity(result.0.rx) == Some(crate::channel::CHANNEL_CAPACITY),
        crate::channel::connected(result.1.tx, result.0.rx),
        result.1.rx_a == a.rx,
        result.1.rx_b == b.rx,
        crate::channel::handed(result.1.tx) == Seq::<(AudioChunk, bool)>::empty(),
        crate::channel::looks(result.0.rx) == Seq::<Polled>::empty(),
        result.1.mixer.wf(),
        result.1.mixer@ == MixerView::empty(),
{
    let (tx, rx) = audio_channel();
    let mut stop: Vec<S> = a.stop;
    let mut stop_b: Vec<S> = b.stop;
    stop.append(&mut stop_b);
    (
        Recording { rx, stop },
        MixJob { rx_a: a.rx, rx_b: b.rx, tx, mixer: Mixer::new() },
    )
}

/// A job whose mixer nothing has come into goes through these states, step by step,
/// with every step going on.
pub open spec fn goes_through(states: Seq<MixJob>) -> bool
    decreases states.len(),
{
    if states.len() <= 1 {
        states.len() == 1 && states[0].mixer@ == MixerView::empty()
    } else {
        let before = states.drop_last();
        &&& goes_through(before)
        &&& stepped(before.last(), states.last(), true)
    }
}

/// What could be mixed of what came in was mixed, and what was mixed stays the mix of
/// what came first on the two streams.
proof fn lemma_advanced(m: MixerView, polled_a: Polled, polled_b: Polled)
    requires
        m.wf(),
    ensures
        m.advanced(polled_a, polled_b).wf(),
        ({
            let after = m.advanced(polled_a, polled_b);
            after.output.len() == common_len(after.a, after.b)
        }),
{
    let heard = m.heard(polled_a, polled_b);
    let n = m.output.len() as int;
    let c = common_len(heard.a, heard.b) as int;
    assert(heard.a.take(n) =~= m.a.take(n));
    assert(heard.b.take(n) =~= m.b.take(n));
    law_mix_in_pieces(heard.a, heard.b, n, c);
}

/// What was mixed stays the mix of what came first on the two streams.
proof fn lemma_resumed(m: MixerView, side: Side, polled: Polled)
    requires
        m.wf(),
    ensures
        m.resumed(side, polled).wf(),
{
    let after = m.resumed(side, polled);
    let n = m.output.len() as int;
    assert(after.a.take(n) =~= m.a.take(n));
    assert(after.b.take(n) =~= m.b.take(n));
}

/// The job has the samples that the two receivers have brought since it began, all of
/// them and in order, and what it has sent on since then is what its mixer has mixed.
pub open spec fn accounts_for(first: MixJob, job: MixJob) -> bool {
    &&& crate::channel::all_brought(crate::channel::looks(job.rx_a))
        == crate::channel::all_brought(crate::channel::looks(first.rx_a)) + job.mixer@.a
    &&& crate::channel::all_brought(crate::channel::looks(job.rx_b))
        == crate::channel::all_brought(crate::channel::looks(first.rx_b)) + job.mixer@.b
    &&& crate::channel::all_taken(crate::channel::handed(job.tx)) == crate::channel::all_taken(
        crate::channel::handed(first.tx),
    ) + job.mixer@.output
}

/// The sender still belongs to the receivers that it belonged to.
pub open spec fn same_channel(
    before: crossbeam_channel::Sender<AudioChunk>,
    after: crossbeam_channel::Sender<AudioChunk>,
) -> bool {
    forall|rx: crossbeam_channel::Receiver<AudioChunk>| #[trigger]
        crate::channel::connected(after, rx) == crate::channel::connected(before, rx)
}

/// One more look at a stream brings what the mixer takes in of it.
proof fn lemma_looked(
    first: crossbeam_channel::Receiver<AudioChunk>,
    before: crossbeam_channel::Receiver<AudioChunk>,
    after: crossbeam_channel::Receiver<AudioChunk>,
    pcm: Seq<i16>,
    polled: Polled,
)
    requires
        crate::channel::all_brought(crate::channel::looks(before)) == crate::channel::all_brought(
            crate::channel::looks(first),
        ) + pcm,
        crate::channel::looked_at(before, after, polled),
    ensures
        crate::channel::all_brought(crate::channel::looks(after)) == crate::channel::all_brought(
            crate::channel::looks(first),
        ) + (pcm + crate::channel::brought(polled)),
{
    let start = crate::channel::all_brought(crate::channel::looks(first));
    crate::channel::lemma_one_more_look(crate::channel::looks(before), polled);
    assert(start + (pcm + crate::channel::brought(polled)) =~= (start + pcm) + crate::channel::brought(polled));
}

/// What a job has been through by the middle of a step, after the looks at both streams,
/// but that what was mixed has not been handed on yet.
proof fn lemma_both_looked(first: MixJob, before: MixJob, mid: MixJob, pa: Polled, pb: Polled)
    requires
        before.mixer@.wf(),
        accounts_for(first, before),
        crate::channel::looked_at(before.rx_a, mid.rx_a, pa),
        crate::channel::looked_at(before.rx_b, mid.rx_b, pb),
        mid.tx == before.tx,
        mid.mixer@ == before.mixer@.advanced(pa, pb),
    ensures
        mid.mixer@.wf(),
        mid.mixer@.output.len() == common_len(mid.mixer@.a, mid.mixer@.b),
        ({
            let mix = before.mixer@.heard(pa, pb).next_mix();
            &&& mid.mixer@.output == before.mixer@.output + mix
            &&& mix.len() == 0 ==> accounts_for(first, mid)
        }),
        crate::channel::all_brought(crate::channel::looks(mid.rx_a))
            == crate::channel::all_brought(crate::channel::looks(first.rx_a)) + mid.mixer@.a,
        crate::channel::all_brought(crate::channel::looks(mid.rx_b))
            == crate::channel::all_brought(crate::channel::looks(first.rx_b)) + mid.mixer@.b,
{
    let mix = before.mixer@.heard(pa, pb).next_mix();
    lemma_advanced(before.mixer@, pa, pb);
    lemma_looked(first.rx_a, before.rx_a, mid.rx_a, before.mixer@.a, pa);
    lemma_looked(first.rx_b, before.rx_b, mid.rx_b, before.mixer@.b, pb);
    if mix.len() == 0 {
        assert(mid.mixer@.output =~= before.mixer@.output);
    }
}

/// A step that goes on keeps the account.
proof fn lemma_step_keeps_account(first: MixJob, before: MixJob, after: MixJob)
    requires
        before.mixer@.wf(),
        accounts_for(first, before),
        stepped(before, after, true),
    ensures
        after.mixer@.wf(),
        accounts_for(first, after),
        same_channel(before.tx, after.tx),
{
    let (mid, pa, pb) = choose|mid: MixJob, polled_a: Polled, polled_b: Polled|
        stepped_by(before, mid, after, true, polled_a, polled_b);
    let mix = before.mixer@.heard(pa, pb).next_mix();
    lemma_both_looked(first, before, mid, pa, pb);
    if mix.len() > 0 {
        let c = choose|c: AudioChunk|
            c.pcm@ == mix && #[trigger] crate::channel::handed_to(mid.tx, after.tx, c, true);
        let start = crate::channel::all_taken(crate::channel::handed(first.tx));
        crate::channel::lemma_one_more_chunk(crate::channel::handed(mid.tx), c, true);
        assert(start + (before.mixer@.output + mix) =~= (start + before.mixer@.output) + mix);
    } else {
        let (ready, polled) = choose|ready: usize, polled: Polled|
            awoken_by(mid, after, true, ready, polled);
        lemma_resumed(mid.mixer@, side_of(ready), polled);
        match side_of(ready) {
            Side::A => lemma_looked(first.rx_a, mid.rx_a, after.rx_a, mid.mixer@.a, polled),
            Side::B => lemma_looked(first.rx_b, mid.rx_b, after.rx_b, mid.mixer@.b, polled),
        }
    }
}

/// Everything that a job has sent on since it began is the mix of as many samples of the
/// one stream as of the other: of those that its two receivers have brought since then,
/// from the first on. Every sample that was brought is in the account once and in its
/// place, and so is every sample that was sent; none is lost, repeated or out of order,
/// however the streams were cut into chunks.
pub proof fn law_job_sends_the_mix(states: Seq<MixJob>)
    requires
        goes_through(states),
    ensures
        ({
            let first = states[0];
            let job = states.last();
            let n = job.mixer@.output.len() as int;
            &&& accounts_for(first, job)
            &&& n <= common_len(job.mixer@.a, job.mixer@.b)
            &&& job.mixer@.output == mixed(job.mixer@.a.take(n), job.mixer@.b.take(n))
            &&& same_channel(first.tx, job.tx)
        }),
    decreases states.len(),
{
    let first = states[0];
    let job = states.last();
    if states.len() == 1 {
        let e = Seq::<i16>::empty();
        assert(forall|s: Seq<i16>| #[trigger] (s + e) =~= s);
        assert(e.take(0) =~= e);
        assert(mixed(e, e) =~= e);
    } else {
        let before = states.drop_last();
        law_job_sends_the_mix(before);
        lemma_step_keeps_account(first, before.last(), job);
    }
}

/// A job ends only for one of two reasons. A stream has ended: then all that came in on
/// both was mixed and sent before, and the unpaired rest of the longer is not. Or nobody
/// took what was mixed. Either way the last step has put nothing more into the channel.
pub proof fn law_job_ends_with_a_stream(first: MixJob, before: MixJob, after: MixJob)
    requires
        before.mixer@.wf(),
        accounts_for(first, before),
        stepped(before, after, false),
    ensures
        after.mixer@.wf(),
        crate::channel::all_taken(crate::channel::handed(after.tx)) == crate::channel::all_taken(
            crate::channel::handed(before.tx),
        ),
        ({
            let looks_a = crate::channel::looks(after.rx_a);
            let looks_b = crate::channel::looks(after.rx_b);
            let handed = crate::channel::handed(after.tx);
            ||| {
                &&& looks_a.last() is Disconnected || looks_b.last() is Disconnected
                &&& accounts_for(first, after)
                &&& after.mixer@.output.len() == common_len(after.mixer@.a, after.mixer@.b)
            }
            ||| handed.len() == crate::channel::handed(before.tx).len() + 1 && !handed.last().1
        }),
{
    let (mid, pa, pb) = choose|mid: MixJob, polled_a: Polled, polled_b: Polled|
        stepped_by(before, mid, after, false, polled_a, polled_b);
    let mix = before.mixer@.heard(pa, pb).next_mix();
    lemma_both_looked(first, before, mid, pa, pb);
    if mix.len() > 0 {
        let c = choose|c: AudioChunk|
            c.pcm@ == mix && #[trigger] crate::channel::handed_to(mid.tx, after.tx, c, false);
        crate::channel::lemma_one_more_chunk(crate::channel::handed(mid.tx), c, false);
    } else {
        let (ready, polled) = choose|ready: usize, polled: Polled|
            awoken_by(mid, after, false, ready, polled);
        lemma_resumed(mid.mixer@, side_of(ready), polled);
        match side_of(ready) {
            Side::A => lemma_looked(first.rx_a, mid.rx_a, after.rx_a, mid.mixer@.a, polled),
            Side::B => lemma_looked(first.rx_b, mid.rx_b, after.rx_b, mid.mixer@.b, polled),
        }
        assert(after.mixer@.a =~= mid.mixer@.a);
        assert(after.mixer@.b =~= mid.mixer@.b);
    }
}

/// Each sample of a mix is the sum of the two samples of the streams, cut off at the
/// largest and at the least 16-bit number; behind the end of the shorter stream it is the
/// sample of the longer one.
pub proof fn law_mix_is_the_cut_off_sum(a: Seq<i16>, b: Seq<i16>, i: int)
    requires
        0 <= i < a.len() || 0 <= i < b.len(),
    ensures
        i < mixed(a, b).len(),
        mixed(a, b).len() == a.len() || mixed(a, b).len() == b.len(),
        i < a.len() && i < b.len() && a[i] + b[i] > 32767 ==> mixed(a, b)[i] == 32767,
        i < a.len() && i < b.len() && a[i] + b[i] < -32768 ==> mixed(a, b)[i] == -32768,
        i < a.len() && i < b.len() && -32768 <= a[i] + b[i] <= 32767 ==> mixed(a, b)[i] == a[i]
            + b[i],
        i >= b.len() ==> mixed(a, b)[i] == a[i],
        i >= a.len() ==> mixed(a, b)[i] == b[i],
{
}

/// What is common to two streams is as long as the shorter of them.
pub proof fn law_common_length(a: Seq<i16>, b: Seq<i16>)
    ensures
        common_len(a, b) <= a.len(),
        common_len(a, b) <= b.len(),
        common_len(a, b) == a.len() || common_len(a, b) == b.len(),
{
}

/// What a look at the first stream brings comes in on the first stream and what one at
/// the second brings on the second, behind what had come before; and what is mixed then
/// are the samples that have come in on both sides and were not mixed before.
pub proof fn law_mixer_takes_in_what_came(m: MixerView, chunk_a: AudioChunk, chunk_b: AudioChunk)
    requires
        m.wf(),
    ensures
        ({
            let after = m.advanced(Polled::Chunk(chunk_a), Polled::Chunk(chunk_b));
            &&& after.a == m.a + chunk_a.pcm@
            &&& after.b == m.b + chunk_b.pcm@
            &&& after.output.len() == after.a.len() || after.output.len() == after.b.len()
            &&& after.output.take(m.output.len() as int) == m.output
            &&& after.output == mixed(
                after.a.take(after.output.len() as int),
                after.b.take(after.output.len() as int),
            )
        }),
        m.resumed(Side::A, Polled::Chunk(chunk_a)) == (MixerView { a: m.a + chunk_a.pcm@, ..m }),
        m.resumed(Side::B, Polled::Chunk(chunk_b)) == (MixerView { b: m.b + chunk_b.pcm@, ..m }),
        m.resumed(Side::A, Polled::Empty) == m,
        m.resumed(Side::B, Polled::Disconnected) == m,
{
    lemma_advanced(m, Polled::Chunk(chunk_a), Polled::Chunk(chunk_b));
    let after = m.advanced(Polled::Chunk(chunk_a), Polled::Chunk(chunk_b));
    assert(after.output.take(m.output.len() as int) =~= m.output);
    assert(m.resumed(Side::A, Polled::Empty) =~= m);
    assert(m.resumed(Side::B, Polled::Disconnected) =~= m);
}

/// A step goes on only where it has sent something on that was taken, or where it has
/// found no end of the stream that it waited for.
pub proof fn law_job_goes_on_while_streams_do(before: MixJob, after: MixJob)
    requires
        stepped(before, after, true),
    ensures
        ({
            let handed = crate::channel::handed(after.tx);
            let a = crate::channel::looks(after.rx_a);
            let b = crate::channel::looks(after.rx_b);
            ||| handed.len() == crate::channel::handed(before.tx).len() + 1 && handed.last().1
            ||| a.len() == crate::channel::looks(before.rx_a).len() + 2 && !(a.last()
                is Disconnected)
            ||| b.len() == crate::channel::looks(before.rx_b).len() + 2 && !(b.last()
                is Disconnected)
        }),
{
    let (mid, pa, pb) = choose|mid: MixJob, polled_a: Polled, polled_b: Polled|
        stepped_by(before, mid, after, true, polled_a, polled_b);
    let mix = before.mixer@.heard(pa, pb).next_mix();
    if mix.len() > 0 {
        let c = choose|c: AudioChunk|
            c.pcm@ == mix && #[trigger] crate::channel::handed_to(mid.tx, after.tx, c, true);
        assert(crate::channel::handed_to(mid.tx, after.tx, c, true));
    } else {
        let (ready, polled) = choose|ready: usize, polled: Polled|
            awoken_by(mid, after, true, ready, polled);
        assert(awoken_by(mid, after, true, ready, polled));
    }
}

/// Of the two streams that are waited for the one with the index 0 is the first.
pub proof fn law_streams_have_their_index()
    ensures
        side_of(0) == Side::A,
        side_of(1) == Side::B,
{
}

/// A look that brings nothing changes nothing on its side, and what comes in on the other
/// side comes in all the same.
pub proof fn law_mixer_takes_in_one_side(m: MixerView, chunk: AudioChunk, none: Polled)
    requires
        m.wf(),
        !(none is Chunk),
    ensures
        m.advanced(Polled::Chunk(chunk), none).a == m.a + chunk.pcm@,
        m.advanced(Polled::Chunk(chunk), none).b == m.b,
        m.advanced(none, Polled::Chunk(chunk)).a == m.a,
        m.advanced(none, Polled::Chunk(chunk)).b == m.b + chunk.pcm@,
        m.advanced(none, none).a == m.a,
        m.advanced(none, none).b == m.b,
        m.resumed(Side::A, none) == m,
        m.resumed(Side::B, none) == m,
{
    assert(m.a + Seq::empty() =~= m.a);
    assert(m.b + Seq::empty() =~= m.b);
}

} // verus!
