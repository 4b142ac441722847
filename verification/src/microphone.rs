//! Capturing the microphone: permissions, setting up the audio engine, and cutting
//! what it delivers into chunks.
use vstd::prelude::*;
use vstd::string::*;

use crate::channel::AudioChunk;
use crate::event::{Error, PermissionGranted};

verus! {

/// What a status code of the system's microphone authorization says; none where it
/// could not be looked up.
pub open spec fn authorization(code: Option<i64>) -> PermissionGranted {
    if code == Some(3i64) {
        PermissionGranted::Granted
    } else if code == Some(1i64) || code == Some(2i64) {
        PermissionGranted::Denied
    } else {
        PermissionGranted::NotRequested
    }
}

/// The microphone permission by the system's status code: 3 is authorized, 1 is
/// restricted and 2 denied; anything else, or no code at all, means that nobody has
/// been asked.
pub fn check_microphone(code: Option<i64>) -> (status: PermissionGranted)
    ensures
        status == authorization(code),
{
    match code {
        Some(c) => {
            if c == 3 {
                PermissionGranted::Granted
            } else if c == 1 || c == 2 {
                PermissionGranted::Denied
            } else {
                PermissionGranted::NotRequested
            }
        },
        None => PermissionGranted::NotRequested,
    }
}

/// The Screen Recording permission. The system does not tell whether it was denied
/// or never asked for; either way nothing can be captured.
pub fn check_screen_capture(allowed: bool) -> (status: PermissionGranted)
    ensures
        allowed ==> status == PermissionGranted::Granted,
        !allowed ==> status == PermissionGranted::Denied,
{
    if allowed {
        PermissionGranted::Granted
    } else {
        PermissionGranted::Denied
    }
}

/// What came of the dialog that asks for the microphone; none where it could not be
/// shown.
pub fn request_microphone_access(answer: Option<bool>) -> (status: PermissionGranted)
    ensures
        answer == Some(true) ==> status == PermissionGranted::Granted,
        answer == Some(false) ==> status == PermissionGranted::Denied,
        answer is None ==> status == PermissionGranted::NotRequested,
{
    match answer {
        Some(granted) => {
            if granted {
                PermissionGranted::Granted
            } else {
                PermissionGranted::Denied
            }
        },
        None => PermissionGranted::NotRequested,
    }
}

/// What setting up the microphone needs next.
#[derive(Debug, Clone, Copy, PartialEq, Eq, Structural)]
pub enum MicStage {
    FindMessenger,
    FindEngineClass,
    CreateEngine,
    GetInputNode,
    GetInputFormat,
    FindBlockClass,
    StartEngine,
    Running,
}

/// The stage after one that has succeeded.
pub open spec fn stage_after(stage: MicStage) -> MicStage {
    match stage {
        MicStage::FindMessenger => MicStage::FindEngineClass,
        MicStage::FindEngineClass => MicStage::CreateEngine,
        MicStage::CreateEngine => MicStage::GetInputNode,
        MicStage::GetInputNode => MicStage::GetInputFormat,
        MicStage::GetInputFormat => MicStage::FindBlockClass,
        MicStage::FindBlockClass => MicStage::StartEngine,
        MicStage::StartEngine => MicStage::Running,
        MicStage::Running => MicStage::Running,
    }
}

/// Why a stage has failed; `detail` is what the engine says.
pub open spec fn failure_reason(stage: MicStage, detail: Seq<char>) -> Seq<char> {
    match stage {
        MicStage::FindMessenger => "objc_msgSend not found"@,
        MicStage::FindEngineClass => "AVAudioEngine class not found — AVFoundation not loaded"@,
        MicStage::CreateEngine => "AVAudioEngine alloc/init failed"@,
        MicStage::GetInputNode => "AVAudioEngine.inputNode is nil"@,
        MicStage::GetInputFormat => "could not get input format from AVAudioEngine"@,
        MicStage::FindBlockClass => "_NSConcreteStackBlock not found"@,
        MicStage::StartEngine => "AVAudioEngine start failed: "@ + detail,
        MicStage::Running => detail,
    }
}

/// What came of what setting up the microphone needed.
#[derive(Debug, Clone, PartialEq, Eq)]
pub enum MicReply {
    Ready,
    /// It is not there, or has failed; the engine may say why.
    Failed { detail: String },
}

/// Takes in what came of what was needed. Returns what is needed next, or the
/// error.
pub fn mic_setup(stage: MicStage, reply: MicReply) -> (result: Result<MicStage, Error>)
    ensures
        match reply {
            MicReply::Ready => result == Ok::<MicStage, Error>(stage_after(stage)),
            MicReply::Failed { detail } => result matches Err(e) && e is RecordingFailed
                && crate::event::error_text(e) == "recording failed: "@ + failure_reason(
                stage,
                detail@,
            ),
        },
{
    match reply {
        MicReply::Ready => Ok(
            match stage {
                MicStage::FindMessenger => MicStage::FindEngineClass,
                MicStage::FindEngineClass => MicStage::CreateEngine,
                MicStage::CreateEngine => MicStage::GetInputNode,
                MicStage::GetInputNode => MicStage::GetInputFormat,
                MicStage::GetInputFormat => MicStage::FindBlockClass,
                MicStage::FindBlockClass => MicStage::StartEngine,
                MicStage::StartEngine => MicStage::Running,
                MicStage::Running => MicStage::Running,
            },
        ),
        MicReply::Failed { detail } => Err(
            Error::RecordingFailed(
                match stage {
                    MicStage::FindMessenger => "objc_msgSend not found".to_owned(),
                    MicStage::FindEngineClass =>
                        "AVAudioEngine class not found — AVFoundation not loaded".to_owned(),
                    MicStage::CreateEngine => "AVAudioEngine alloc/init failed".to_owned(),
                    MicStage::GetInputNode => "AVAudioEngine.inputNode is nil".to_owned(),
                    MicStage::GetInputFormat =>
                        "could not get input format from AVAudioEngine".to_owned(),
                    MicStage::FindBlockClass => "_NSConcreteStackBlock not found".to_owned(),
                    MicStage::StartEngine => {
                        let mut text: String = "AVAudioEngine start failed: ".to_owned();
                        text.append(detail.as_str());
                        text
                    },
                    MicStage::Running => detail,
                },
            ),
        ),
    }
}

/// What the engine says of an error: its description, if there is an error that has
/// one.
pub fn error_description(failed: bool, description: Option<String>) -> (text: String)
    ensures
        text@ == if !failed {
            "unknown error"@
        } else {
            match description {
                Some(d) => d@,
                None => "?"@,
            }
        },
{
    if !failed {
        return "unknown error".to_owned();
    }
    match description {
        Some(d) => d,
        None => "?".to_owned(),
    }
}

/// The number of channels of the microphone; one where it tells none.
pub fn native_channels(told: u32) -> (channels: u32)
    ensures
        channels == if told > 0 {
            told
        } else {
            1
        },
{
    if told > 0 {
        told
    } else {
        1
    }
}

/// How many samples `chunk_ms` milliseconds are.
pub fn target_frames(sample_rate: u32, chunk_ms: u32) -> (frames: usize)
    requires
        sample_rate * chunk_ms <= u32::MAX,
    ensures
        frames == (sample_rate * chunk_ms) / 1000,
{
    (sample_rate * chunk_ms / 1000) as usize
}

/// The sample of `native` that is nearest before position `at`; the last one where
/// that lies behind the end.
pub open spec fn sample_at(native: Seq<i16>, at: int) -> i16 {
    if at < native.len() {
        native[at]
    } else {
        native.last()
    }
}

/// The samples of `native` at the given positions.
pub open spec fn picked(native: Seq<i16>, positions: Seq<usize>) -> Seq<i16> {
    Seq::new(positions.len(), |i: int| sample_at(native, positions[i] as int))
}

/// What becomes of a piece of the stream: where the rates differ the samples at the
/// given positions, otherwise all of it.
pub open spec fn resampled(native: Seq<i16>, positions: Option<Seq<usize>>) -> Seq<i16> {
    match positions {
        Some(p) => picked(native, p),
        None => native,
    }
}

/// The piece at position `k` of a stream that is cut into pieces of `n`.
pub open spec fn piece(stream: Seq<i16>, n: int, k: int) -> Seq<i16> {
    stream.subrange(k * n, (k + 1) * n)
}

/// How many whole pieces of `n` there are in a stream.
pub open spec fn piece_count(stream: Seq<i16>, n: int) -> int {
    stream.len() as int / n
}

/// Cuts what the microphone delivers into chunks.
///
/// Where the microphone has another sample rate than the recording, `positions`
/// tells which of its samples to keep of each piece.
#[derive(Debug)]
pub struct MicBuffer {
    buf: Vec<i16>,
    piece: usize,
    positions: Option<Vec<usize>>,
}

/// The state of a buffer.
pub struct MicBufferView {
    /// What was delivered and is not in a chunk yet.
    pub waiting: Seq<i16>,
    /// How many samples make up a chunk.
    pub piece: nat,
    pub positions: Option<Seq<usize>>,
}

impl MicBufferView {
    /// Less than a chunk is waiting.
    pub open spec fn wf(self) -> bool {
        self.waiting.len() < self.piece
    }
}

impl View for MicBuffer {
    type V = MicBufferView;

    closed spec fn view(&self) -> MicBufferView {
        MicBufferView {
            waiting: self.buf@,
            piece: self.piece as nat,
            positions: match self.positions {
                Some(p) => Some(p@),
                None => None,
            },
        }
    }
}

/// What follows the first `k` pieces is cut as the rest of the whole.
proof fn lemma_pieces_of_rest(stream: Seq<i16>, n: int)
    requires
        n > 0,
        stream.len() >= n,
    ensures
        piece_count(stream.skip(n), n) == piece_count(stream, n) - 1,
        forall|k: int|
            0 <= k < piece_count(stream, n) - 1 ==> #[trigger] piece(stream.skip(n), n, k) == piece(
                stream,
                n,
                k + 1,
            ),
        stream.skip(n).skip(n * (piece_count(stream, n) - 1)) == stream.skip(
            n * piece_count(stream, n),
        ),
{
    let len = stream.len() as int;
    assert((len - n) / n == len / n - 1) by (nonlinear_arith)
        requires
            n > 0,
            len >= n,
    ;
    let count = len / n;
    assert(count * n <= len && n * count == count * n && n * (count - 1) == count * n - n
        && count >= 1) by (nonlinear_arith)
        requires
            n > 0,
            len >= n,
            count == len / n,
    ;
    assert forall|k: int| 0 <= k < count - 1 implies #[trigger] piece(stream.skip(n), n, k) == piece(
        stream,
        n,
        k + 1,
    ) by {
        assert(k * n >= 0 && (k + 1) * n == k * n + n && (k + 2) * n == k * n + 2 * n && (k + 2) * n
            <= count * n) by (nonlinear_arith)
            requires
                0 <= k,
                k + 2 <= count,
                n > 0,
        ;
        assert(piece(stream.skip(n), n, k) =~= piece(stream, n, k + 1));
    }
    assert(stream.skip(n).skip(n * (count - 1)) =~= stream.skip(n * count));
}

impl MicBuffer {
    /// A buffer for chunks of `piece` samples.
    pub fn new(piece: usize, positions: Option<Vec<usize>>) -> (buffer: MicBuffer)
        requires
            piece > 0,
        ensures
            buffer@.wf(),
            buffer@.waiting == Seq::<i16>::empty(),
            buffer@.piece == piece,
            buffer@.positions == match positions {
                Some(p) => Some(p@),
                None => None,
            },
    {
        MicBuffer { buf: Vec::new(), piece, positions }
    }

    /// The first `piece` samples that are waiting, as they go into a chunk.
    fn first_chunk(&self) -> (chunk: AudioChunk)
        requires
            0 < self@.piece <= self@.waiting.len(),
        ensures
            chunk.pcm@ == resampled(self@.waiting.take(self@.piece as int), self@.positions),
    {
        let n: usize = self.piece;
        let mut pcm: Vec<i16> = Vec::new();
        let ghost native = self@.waiting.take(n as int);
        match &self.positions {
            Some(positions) => {
                let mut i: usize = 0;
                while i < positions.len()
                    invariant
                        i <= positions@.len(),
                        0 < n <= self.buf@.len(),
                        native == self.buf@.take(n as int),
                        pcm@.len() == i,
                        forall|k: int|
                            0 <= k < i ==> #[trigger] pcm@[k] == sample_at(
                                native,
                                positions@[k] as int,
                            ),
                    decreases positions@.len() - i,
                {
                    let at: usize = if positions[i] < n {
                        positions[i]
                    } else {
                        n - 1
                    };
                    pcm.push(self.buf[at]);
                    i = i + 1;
                }
                proof {
                    assert(pcm@ =~= picked(native, positions@));
                }
            },
            None => {
                let mut i: usize = 0;
                while i < n
                    invariant
                        i <= n,
                        n <= self.buf@.len(),
                        pcm@ == self.buf@.take(i as int),
                    decreases n - i,
                {
                    pcm.push(self.buf[i]);
                    i = i + 1;
                    proof {
                        assert(pcm@ =~= self.buf@.take(i as int));
                    }
                }
            },
        }
        AudioChunk { pcm }
    }

    /// Takes in samples. Returns the chunks that are full by then; the rest waits.
    pub fn feed(&mut self, samples: Vec<i16>) -> (chunks: Vec<AudioChunk>)
        requires
            old(self)@.wf(),
        ensures
            final(self)@.wf(),
            ({
                let n = old(self)@.piece as int;
                let stream = old(self)@.waiting + samples@;
                let count = piece_count(stream, n);
                &&& final(self)@ == (MicBufferView {
                    waiting: stream.skip(n * count),
                    ..old(self)@
                })
                &&& chunks@.len() == count
                &&& forall|k: int|
                    0 <= k < count ==> (#[trigger] chunks@[k]).pcm@ == resampled(
                        piece(stream, n, k),
                        old(self)@.positions,
                    )
            }),
    {
        let mut samples: Vec<i16> = samples;
        let ghost stream = self@.waiting + samples@;
        let ghost positions = self@.positions;
        self.buf.append(&mut samples);
        let n: usize = self.piece;
        let ghost count = piece_count(stream, n as int);
        let mut chunks: Vec<AudioChunk> = Vec::new();
        proof {
            assert(stream.skip(0) =~= stream);
            assert(n * 0 == 0) by (nonlinear_arith);
        }
        while self.buf.len() >= n
            invariant
                n == self.piece,
                n > 0,
                self@.piece == n,
                self@.positions == positions,
                count == piece_count(stream, n as int),
                chunks@.len() <= count,
                self.buf@ == stream.skip(n * chunks@.len()),
                n * chunks@.len() <= stream.len(),
                count - chunks@.len() == piece_count(self.buf@, n as int),
                forall|k: int|
                    0 <= k < chunks@.len() ==> (#[trigger] chunks@[k]).pcm@ == resampled(
                        piece(stream, n as int, k),
                        positions,
                    ),
            decreases self.buf@.len(),
        {
            let ghost done = chunks@.len() as int;
            let ghost waiting = self.buf@;
            let chunk: AudioChunk = self.first_chunk();
            chunks.push(chunk);
            let mut rest: Vec<i16> = Vec::new();
            let mut i: usize = n;
            while i < self.buf.len()
                invariant
                    n <= i <= self.buf@.len(),
                    rest@ == self.buf@.subrange(n as int, i as int),
                decreases self.buf@.len() - i,
            {
                rest.push(self.buf[i]);
                i = i + 1;
                proof {
                    assert(rest@ =~= self.buf@.subrange(n as int, i as int));
                }
            }
            self.buf = rest;
            proof {
                lemma_pieces_of_rest(waiting, n as int);
                assert(self.buf@ =~= waiting.skip(n as int));
                assert(n * (done + 1) == n * done + n && (done + 1) * n == n * done + n && done * n
                    == n * done) by (nonlinear_arith);
                assert(self.buf@ =~= stream.skip(n * (done + 1)));
                assert(waiting.take(n as int) =~= piece(stream, n as int, done));
            }
        }
        proof {
            let len = self.buf@.len() as int;
            assert(len / (n as int) == 0) by (nonlinear_arith)
                requires
                    0 <= len < n,
            ;
        }
        chunks
    }
}

/// Nothing of what the microphone delivers is lost or doubled: the pieces that the
/// chunks are made of and the rest that waits are, one after the other, everything
/// that was delivered.
pub proof fn law_pieces_cover_stream(stream: Seq<i16>, n: int, i: int)
    requires
        n > 0,
        0 <= i < stream.len(),
    ensures
        i / n < piece_count(stream, n) ==> piece(stream, n, i / n)[i % n] == stream[i],
        i / n >= piece_count(stream, n) ==> stream.skip(n * piece_count(stream, n))[i - n
            * piece_count(stream, n)] == stream[i],
{
    let len = stream.len() as int;
    let k = i / n;
    let count = piece_count(stream, n);
    assert(i == k * n + i % n && 0 <= i % n < n && k >= 0) by (nonlinear_arith)
        requires
            n > 0,
            i >= 0,
            k == i / n,
    ;
    assert(count * n <= len && count >= 0) by (nonlinear_arith)
        requires
            n > 0,
            len >= 0,
            count == len / n,
    ;
    if k < count {
        assert((k + 1) * n <= count * n && (k + 1) * n == k * n + n && k * n >= 0)
            by (nonlinear_arith)
            requires
                0 <= k,
                k + 1 <= count,
                n > 0,
        ;
    } else {
        assert(count * n <= k * n && n * count == count * n && n * count >= 0) by (nonlinear_arith)
            requires
                count <= k,
                count >= 0,
                n > 0,
        ;
    }
}

/// Where the rates are the same every chunk has the asked-for length.
pub proof fn law_chunks_have_target_length(stream: Seq<i16>, n: int, k: int)
    requires
        n > 0,
        0 <= k < piece_count(stream, n),
    ensures
        resampled(piece(stream, n, k), None).len() == n,
{
    let len = stream.len() as int;
    let count = piece_count(stream, n);
    assert((k + 1) * n <= len && k * n >= 0 && (k + 1) * n == k * n + n) by (nonlinear_arith)
        requires
            n > 0,
            0 <= k,
            k + 1 <= count,
            count == len / n,
            len >= 0,
    ;
}

/// The microphone is granted by the code 3 alone, denied by 1 and 2, and otherwise nobody
/// has been asked.
pub proof fn law_authorization_codes(code: Option<i64>)
    ensures
        authorization(code) == PermissionGranted::Granted <==> code == Some(3i64),
        authorization(code) == PermissionGranted::Denied <==> code == Some(1i64) || code == Some(
            2i64,
        ),
{
}

/// A chunk is made of the samples that were delivered, in their order: the chunk at
/// position `k` of a stream cut into pieces of `n` begins with sample `k * n`. As many
/// pieces are cut as there are whole ones.
pub proof fn law_pieces_follow_each_other(stream: Seq<i16>, n: int, k: int, j: int)
    requires
        n > 0,
        0 <= k < piece_count(stream, n),
        0 <= j < n,
    ensures
        piece_count(stream, n) * n <= stream.len() < (piece_count(stream, n) + 1) * n,
        piece(stream, n, k).len() == n,
        piece(stream, n, k)[j] == stream[k * n + j],
        resampled(piece(stream, n, k), None) == piece(stream, n, k),
{
    let len = stream.len() as int;
    let count = piece_count(stream, n);
    assert(count * n <= len < (count + 1) * n && (k + 1) * n <= len && k * n >= 0 && (k + 1) * n
        == k * n + n) by (nonlinear_arith)
        requires
            n > 0,
            0 <= k,
            k + 1 <= count,
            count == len / n,
            len >= 0,
    ;
}

/// Where the rates differ a chunk has the sample at each of the given positions, in their
/// order, and the last one for a position behind the end.
pub proof fn law_resampling_picks_positions(native: Seq<i16>, positions: Seq<usize>, i: int)
    requires
        native.len() > 0,
        0 <= i < positions.len(),
    ensures
        resampled(native, Some(positions)).len() == positions.len(),
        positions[i] < native.len() ==> resampled(native, Some(positions))[i] == native[positions[i]
            as int],
        positions[i] >= native.len() ==> resampled(native, Some(positions))[i] == native[native.len()
            - 1],
{
}

/// Setting up the microphone goes through its stages in their order, and each says why it
/// has failed.
pub proof fn law_microphone_stages(detail: Seq<char>)
    ensures
        stage_after(MicStage::FindMessenger) == MicStage::FindEngineClass,
        stage_after(MicStage::FindEngineClass) == MicStage::CreateEngine,
        stage_after(MicStage::CreateEngine) == MicStage::GetInputNode,
        stage_after(MicStage::GetInputNode) == MicStage::GetInputFormat,
        stage_after(MicStage::GetInputFormat) == MicStage::FindBlockClass,
        stage_after(MicStage::FindBlockClass) == MicStage::StartEngine,
        stage_after(MicStage::StartEngine) == MicStage::Running,
        failure_reason(MicStage::FindMessenger, detail) == "objc_msgSend not found"@,
        failure_reason(MicStage::FindEngineClass, detail)
            == "AVAudioEngine class not found — AVFoundation not loaded"@,
        failure_reason(MicStage::CreateEngine, detail) == "AVAudioEngine alloc/init failed"@,
        failure_reason(MicStage::GetInputNode, detail) == "AVAudioEngine.inputNode is nil"@,
        failure_reason(MicStage::GetInputFormat, detail)
            == "could not get input format from AVAudioEngine"@,
        failure_reason(MicStage::FindBlockClass, detail) == "_NSConcreteStackBlock not found"@,
        failure_reason(MicStage::StartEngine, detail) == "AVAudioEngine start failed: "@ + detail,
{
}

} // verus!
