//! Channels that carry audio from the capture callbacks to those who consume it.
use vstd::prelude::*;

verus! {

/// A piece of a mono 16-bit PCM stream.
#[derive(Debug, Clone, PartialEq, Eq)]
pub struct AudioChunk {
    pub pcm: Vec<i16>,
}

/// `crossbeam_channel::Sender`: the end of a channel that chunks go into.
#[verifier::external_type_specification]
#[verifier::external_body]
#[verifier::reject_recursive_types(T)]
pub struct ExSender<T>(crossbeam_channel::Sender<T>);

/// `crossbeam_channel::Receiver`: the end of a channel that chunks come out of.
#[verifier::external_type_specification]
#[verifier::external_body]
#[verifier::reject_recursive_types(T)]
pub struct ExReceiver<T>(crossbeam_channel::Receiver<T>);

/// How many chunks a channel holds before it is full.
pub const CHANNEL_CAPACITY: usize = 64;

/// How many chunks the channel of a receiver holds before it is full: what
/// `Receiver::capacity` gives.
pub uninterp spec fn capacity(rx: crossbeam_channel::Receiver<AudioChunk>) -> Option<usize>;

/// The sender puts chunks into the very channel that the receiver takes them out
/// of.
pub uninterp spec fn connected(
    tx: crossbeam_channel::Sender<AudioChunk>,
    rx: crossbeam_channel::Receiver<AudioChunk>,
) -> bool;

/// What has come of each look at the receiver and of each wait at it, in order: of the
/// calls of `Receiver::try_recv` and `Receiver::recv` that were made on it here.
pub uninterp spec fn looks(rx: crossbeam_channel::Receiver<AudioChunk>) -> Seq<Polled>;

/// The chunks that were handed to the sender, in order, each with whether the channel
/// took it: in the calls of `Sender::send` and `Sender::try_send` that were made on it
/// here.
pub uninterp spec fn handed(tx: crossbeam_channel::Sender<AudioChunk>) -> Seq<
    (AudioChunk, bool),
>;

/// Of the two receivers the one with this index was found ready, with
/// `Select::ready`, after a wait for either.
pub uninterp spec fn found_ready(
    a: crossbeam_channel::Receiver<AudioChunk>,
    b: crossbeam_channel::Receiver<AudioChunk>,
    ready: usize,
) -> bool;

/// `crossbeam_channel::bounded`: makes a channel that holds up to `cap` chunks,
/// and returns its two ends, on which nothing has been called yet.
#[verifier::external_body]
pub(crate) fn bounded_channel(cap: usize) -> (ends: (
    crossbeam_channel::Sender<AudioChunk>,
    crossbeam_channel::Receiver<AudioChunk>,
))
    requires
        cap <= 0x10000,
    ensures
        capacity(ends.1) == Some(cap),
        connected(ends.0, ends.1),
        handed(ends.0) == Seq::<(AudioChunk, bool)>::empty(),
        looks(ends.1) == Seq::<Polled>::empty(),
{
    crossbeam_channel::bounded(cap)
}

/// What came of looking for a chunk without waiting.
#[derive(Debug, Clone, PartialEq, Eq)]
pub enum Polled {
    Chunk(AudioChunk),
    /// There is none at the moment.
    Empty,
    /// There is none, and there will be no more.
    Disconnected,
}

/// What came of offering a chunk without waiting.
#[derive(Debug, Clone, PartialEq, Eq)]
pub enum Offered {
    Sent,
    /// The channel was full; the chunk comes back.
    Full(AudioChunk),
    /// Nobody listens any more; the chunk comes back.
    Disconnected(AudioChunk),
}

/// `Receiver::try_recv`: the next chunk, if there is one. What comes depends on
/// what the sending threads have done; claimed is that this receiver was looked at
/// once more and that this came of it. It stays the receiver of its channel.
#[verifier::external_body]
pub(crate) fn poll_chunk(rx: &mut crossbeam_channel::Receiver<AudioChunk>) -> (polled: Polled)
    ensures
        looks(*final(rx)) == looks(*old(rx)).push(polled),
        capacity(*final(rx)) == capacity(*old(rx)),
        forall|tx: crossbeam_channel::Sender<AudioChunk>| #[trigger]
            connected(tx, *final(rx)) == connected(tx, *old(rx)),
{
    match rx.try_recv() {
        Ok(chunk) => Polled::Chunk(chunk),
        Err(crossbeam_channel::TryRecvError::Empty) => Polled::Empty,
        Err(crossbeam_channel::TryRecvError::Disconnected) => Polled::Disconnected,
    }
}

/// What a wait for a chunk has come to.
pub open spec fn outcome(chunk: Option<AudioChunk>) -> Polled {
    match chunk {
        Some(c) => Polled::Chunk(c),
        None => Polled::Disconnected,
    }
}

/// `Receiver::recv`: waits for the next chunk; none means that there will be no
/// more. What comes depends on what the sending threads do; claimed is that this
/// receiver was waited at once more and that this came of it. It stays the receiver of
/// its channel.
#[verifier::external_body]
pub(crate) fn next_chunk(rx: &mut crossbeam_channel::Receiver<AudioChunk>) -> (chunk: Option<
    AudioChunk,
>)
    ensures
        looks(*final(rx)) == looks(*old(rx)).push(outcome(chunk)),
        capacity(*final(rx)) == capacity(*old(rx)),
        forall|tx: crossbeam_channel::Sender<AudioChunk>| #[trigger]
            connected(tx, *final(rx)) == connected(tx, *old(rx)),
{
    rx.recv().ok()
}

/// `Sender::send`: puts a chunk into the channel, waiting while it is full. Where
/// nobody listens any more the chunk comes back as it was; whether anybody does
/// depends on the receiving threads. Claimed is that this chunk, and no other, was
/// handed to this sender, and whether it was taken. It stays a sender of its channel.
#[verifier::external_body]
pub(crate) fn send_chunk(
    tx: &mut crossbeam_channel::Sender<AudioChunk>,
    chunk: AudioChunk,
) -> (result: Result<(), AudioChunk>)
    ensures
        handed(*final(tx)) == handed(*old(tx)).push((chunk, result is Ok)),
        result matches Err(back) ==> back == chunk,
        forall|rx: crossbeam_channel::Receiver<AudioChunk>| #[trigger]
            connected(*final(tx), rx) == connected(*old(tx), rx),
{
    tx.send(chunk).map_err(|e| e.into_inner())
}

/// `Sender::try_send`: puts a chunk into the channel if there is room. Where it
/// cannot, the chunk comes back as it was; whether it can depends on the receiving
/// threads. Claimed is that this chunk, and no other, was handed to this sender, and
/// whether it was taken. It stays a sender of its channel.
#[verifier::external_body]
pub(crate) fn offer_chunk(
    tx: &mut crossbeam_channel::Sender<AudioChunk>,
    chunk: AudioChunk,
) -> (answer: Offered)
    ensures
        handed(*final(tx)) == handed(*old(tx)).push((chunk, answer is Sent)),
        answer matches Offered::Full(back) ==> back == chunk,
        answer matches Offered::Disconnected(back) ==> back == chunk,
        forall|rx: crossbeam_channel::Receiver<AudioChunk>| #[trigger]
            connected(*final(tx), rx) == connected(*old(tx), rx),
{
    match tx.try_send(chunk) {
        Ok(_) => Offered::Sent,
        Err(crossbeam_channel::TrySendError::Full(back)) => Offered::Full(back),
        Err(crossbeam_channel::TrySendError::Disconnected(back)) => Offered::Disconnected(back),
    }
}

/// `crossbeam_channel::Select::ready`, with a receive operation on each of the two
/// receivers added in order: waits until one of them has a chunk or has been
/// disconnected, and returns its index. Which one depends on the sending threads,
/// and on chance where both are ready; claimed is that these two were waited for and
/// that this one was found ready.
#[verifier::external_body]
pub(crate) fn wait_for_either(
    a: &crossbeam_channel::Receiver<AudioChunk>,
    b: &crossbeam_channel::Receiver<AudioChunk>,
) -> (ready: usize)
    ensures
        ready < 2,
        found_ready(*a, *b, ready),
{
    let mut select = crossbeam_channel::Select::new();
    select.recv(a);
    select.recv(b);
    select.ready()
}

/// A channel for captured audio.
pub fn audio_channel() -> (ends: (
    crossbeam_channel::Sender<AudioChunk>,
    crossbeam_channel::Receiver<AudioChunk>,
))
    ensures
        capacity(ends.1) == Some(CHANNEL_CAPACITY),
        connected(ends.0, ends.1),
        handed(ends.0) == Seq::<(AudioChunk, bool)>::empty(),
        looks(ends.1) == Seq::<Polled>::empty(),
{
    bounded_channel(CHANNEL_CAPACITY)
}

/// The samples of a chunk that may have come.
pub open spec fn samples_of(chunk: Option<AudioChunk>) -> Seq<i16> {
    match chunk {
        Some(c) => c.pcm@,
        None => Seq::empty(),
    }
}

/// Adds the next chunk of a stream to what has come of it so far. Returns whether
/// there may be more.
pub fn collect(pcm: &mut Vec<i16>, chunk: Option<AudioChunk>) -> (more: bool)
    ensures
        final(pcm)@ == old(pcm)@ + samples_of(chunk),
        chunk matches Some(c) ==> final(pcm)@ == old(pcm)@ + c.pcm@,
        chunk is None ==> final(pcm)@ == old(pcm)@,
        more == chunk is Some,
{
    match chunk {
        Some(c) => {
            let mut c: AudioChunk = c;
            pcm.append(&mut c.pcm);
            true
        },
        None => {
            proof {
                assert(pcm@ =~= old(pcm)@ + Seq::<i16>::empty());
            }
            false
        },
    }
}

/// The receiver was looked at, or waited at, once more, and this came of it; it is the
/// receiver of the same channel.
pub open spec fn looked_at(
    before: crossbeam_channel::Receiver<AudioChunk>,
    after: crossbeam_channel::Receiver<AudioChunk>,
    polled: Polled,
) -> bool {
    &&& looks(after) == looks(before).push(polled)
    &&& capacity(after) == capacity(before)
    &&& forall|tx: crossbeam_channel::Sender<AudioChunk>| #[trigger]
        connected(tx, after) == connected(tx, before)
}

/// The sender was handed one more chunk, and it was taken or not; it is a sender of the
/// same channel.
pub open spec fn handed_to(
    before: crossbeam_channel::Sender<AudioChunk>,
    after: crossbeam_channel::Sender<AudioChunk>,
    chunk: AudioChunk,
    taken: bool,
) -> bool {
    &&& handed(after) == handed(before).push((chunk, taken))
    &&& forall|rx: crossbeam_channel::Receiver<AudioChunk>| #[trigger]
        connected(after, rx) == connected(before, rx)
}

/// The samples that a look at a stream has brought.
pub open spec fn brought(polled: Polled) -> Seq<i16> {
    match polled {
        Polled::Chunk(c) => c.pcm@,
        _ => Seq::empty(),
    }
}

/// The samples that looks at a stream have brought, in order.
pub open spec fn all_brought(looks: Seq<Polled>) -> Seq<i16>
    decreases looks.len(),
{
    if looks.len() == 0 {
        Seq::empty()
    } else {
        all_brought(looks.drop_last()) + brought(looks.last())
    }
}

/// The samples of the chunks that were taken, in order.
pub open spec fn all_taken(handed: Seq<(AudioChunk, bool)>) -> Seq<i16>
    decreases handed.len(),
{
    if handed.len() == 0 {
        Seq::empty()
    } else if handed.last().1 {
        all_taken(handed.drop_last()) + handed.last().0.pcm@
    } else {
        all_taken(handed.drop_last())
    }
}

/// One more look brings what it brings after all that came before.
pub proof fn lemma_one_more_look(looks: Seq<Polled>, polled: Polled)
    ensures
        all_brought(looks.push(polled)) == all_brought(looks) + brought(polled),
{
    assert(looks.push(polled).drop_last() =~= looks);
}

/// One more chunk comes after all that were taken before, if it is taken.
pub proof fn lemma_one_more_chunk(handed: Seq<(AudioChunk, bool)>, chunk: AudioChunk, taken: bool)
    ensures
        all_taken(handed.push((chunk, taken))) == if taken {
            all_taken(handed) + chunk.pcm@
        } else {
            all_taken(handed)
        },
{
    assert(handed.push((chunk, taken)).drop_last() =~= handed);
}

/// Waits for the next chunk of a stream and adds it to what has come of it so far.
/// Returns whether there may be more; where there is none, nothing is added.
pub fn collect_next(
    rx: &mut crossbeam_channel::Receiver<AudioChunk>,
    pcm: &mut Vec<i16>,
) -> (more: bool)
    ensures
        exists|chunk: Option<AudioChunk>|
            {
                &&& looked_at(*old(rx), *final(rx), #[trigger] outcome(chunk))
                &&& final(pcm)@ == old(pcm)@ + samples_of(chunk)
                &&& more == chunk is Some
            },
{
    let chunk: Option<AudioChunk> = next_chunk(rx);
    proof {
        assert(looked_at(*old(rx), *rx, outcome(chunk)));
    }
    collect(pcm, chunk)
}

/// What is collected of a stream is all that came out of its receiver: whatever waits at
/// it bring, what was collected grows by just that.
pub proof fn law_collected_is_what_came(
    before: crossbeam_channel::Receiver<AudioChunk>,
    after: crossbeam_channel::Receiver<AudioChunk>,
    start: Seq<i16>,
    pcm: Seq<i16>,
    chunk: Option<AudioChunk>,
)
    requires
        start + pcm == all_brought(looks(before)),
        looked_at(before, after, outcome(chunk)),
    ensures
        start + (pcm + samples_of(chunk)) == all_brought(looks(after)),
{
    lemma_one_more_look(looks(before), outcome(chunk));
    assert(start + (pcm + samples_of(chunk)) =~= (start + pcm) + samples_of(chunk));
}

/// A look brings the samples of the chunk that came, all of them, and none where no chunk
/// came; so does a wait.
pub proof fn law_look_brings_the_chunk(chunk: AudioChunk)
    ensures
        brought(Polled::Chunk(chunk)) == chunk.pcm@,
        brought(Polled::Empty).len() == 0,
        brought(Polled::Disconnected).len() == 0,
        samples_of(Some(chunk)) == chunk.pcm@,
        samples_of(None).len() == 0,
        outcome(Some(chunk)) == Polled::Chunk(chunk),
        outcome(None) == Polled::Disconnected,
{
}

/// What came of two courses of looks, one after the other, is what came of the first and
/// then what came of the second; and so it is with what was taken of chunks.
pub proof fn law_streams_add_up(
    first: Seq<Polled>,
    second: Seq<Polled>,
    before: Seq<(AudioChunk, bool)>,
    after: Seq<(AudioChunk, bool)>,
)
    ensures
        all_brought(first + second) == all_brought(first) + all_brought(second),
        all_taken(before + after) == all_taken(before) + all_taken(after),
    decreases second.len() + after.len(),
{
    if second.len() > 0 {
        law_streams_add_up(first, second.drop_last(), before, after);
        assert((first + second).drop_last() =~= first + second.drop_last());
        assert(all_brought(first + second) =~= all_brought(first) + all_brought(second));
    } else {
        assert(first + second =~= first);
        assert(all_brought(first) + all_brought(second) =~= all_brought(first));
    }
    if after.len() > 0 {
        law_streams_add_up(first, second, before, after.drop_last());
        assert((before + after).drop_last() =~= before + after.drop_last());
        assert(all_taken(before + after) =~= all_taken(before) + all_taken(after));
    } else {
        assert(before + after =~= before);
        assert(all_taken(before) + all_taken(after) =~= all_taken(before));
    }
}

} // verus!
