//! Capturing what the system plays: setting up the audio tap step by step, and
//! passing on what it delivers.
use vstd::prelude::*;
use vstd::string::*;

use crate::channel::{offer_chunk, AudioChunk, Offered};
use crate::event::Error;
use crate::text::{parse_u32, signed_text, to_chars};

verus! {

/// The first position, from `i` on, of a dot in `s`; the end of `s` where there is
/// none.
pub open spec fn dot_from(s: Seq<char>, i: int) -> int
    decreases s.len() - i,
{
    if i >= s.len() {
        s.len() as int
    } else if s[i] == '.' {
        i
    } else {
        dot_from(s, i + 1)
    }
}

/// The number that a part of a version stands for; 0 where it is none.
pub open spec fn version_part(s: Seq<char>) -> u32 {
    match crate::text::parsed_u32(s) {
        Some(n) => n,
        None => 0,
    }
}

/// The major and the minor number of a version: what stands before the first dot,
/// and what stands between it and the next.
pub open spec fn version_of(s: Seq<char>) -> (u32, u32) {
    let first = dot_from(s, 0);
    let minor = if first < s.len() {
        version_part(s.subrange(first + 1, dot_from(s, first + 1)))
    } else {
        0
    };
    (version_part(s.subrange(0, first)), minor)
}

/// The first position, from `from` on, of a dot in `s`.
fn find_dot(s: &Vec<char>, from: usize) -> (at: usize)
    requires
        from <= s@.len(),
    ensures
        at == dot_from(s@, from as int),
        from <= at <= s@.len(),
{
    let mut i: usize = from;
    while i < s.len() && s[i] != '.'
        invariant
            from <= i <= s@.len(),
            dot_from(s@, from as int) == dot_from(s@, i as int),
        decreases s@.len() - i,
    {
        i = i + 1;
    }
    i
}

/// The major and the minor number of a version of macOS; 0 for what is not there.
pub fn macos_version(text: &str) -> (version: (u32, u32))
    ensures
        version == version_of(text@),
{
    let s: Vec<char> = to_chars(text);
    let first: usize = find_dot(&s, 0);
    let major: u32 = match parse_u32(&s, 0, first) {
        Some(n) => n,
        None => 0,
    };
    let minor: u32 = if first < s.len() {
        let second: usize = find_dot(&s, first + 1);
        match parse_u32(&s, first + 1, second) {
            Some(n) => n,
            None => 0,
        }
    } else {
        0
    };
    (major, minor)
}

/// System audio taps are there: from macOS 14.2 on.
pub open spec fn tap_supported(version: (u32, u32)) -> bool {
    version.0 > 14 || (version.0 == 14 && version.1 >= 2)
}

/// Whether system audio taps are there in the given version of macOS.
pub fn check_version(text: &str) -> (result: Result<(), Error>)
    ensures
        match result {
            Ok(_) => tap_supported(version_of(text@)),
            Err(e) => !tap_supported(version_of(text@)) && e == (Error::MacOSVersionTooOld {
                major: version_of(text@).0,
                minor: version_of(text@).1,
            }),
        },
{
    let (major, minor) = macos_version(text);
    if major < 14 || (major == 14 && minor < 2) {
        return Err(Error::MacOSVersionTooOld { major, minor });
    }
    Ok(())
}

/// A row of digits stands before a dot up to its end.
proof fn lemma_dot_after_digits(s: Seq<char>, i: int, n: int)
    requires
        0 <= i <= n <= s.len(),
        forall|k: int| i <= k < n ==> crate::text::is_digit(#[trigger] s[k]),
        n == s.len() || s[n] == '.',
    ensures
        dot_from(s, i) == n,
    decreases n - i,
{
    if i < n {
        assert(crate::text::is_digit(s[i]));
        lemma_dot_after_digits(s, i + 1, n);
    }
}

/// A number below 2^32 reads back from its decimal form.
proof fn lemma_part_reads_back(n: u32)
    ensures
        version_part(crate::text::decimal(n as nat)) == n,
{
    let d = crate::text::decimal(n as nat);
    crate::text::lemma_decimal_reads_back(n as nat);
    assert(crate::text::is_digit(d[0]));
    assert(crate::text::digits_u32(d) == Some(n));
}

/// A version is read as it is written: the major and the minor number come back,
/// whatever further parts follow.
pub proof fn law_version_reads_back(major: u32, minor: u32, rest: Seq<char>)
    requires
        rest.len() == 0 || rest[0] == '.',
    ensures
        version_of(
            crate::text::decimal(major as nat) + seq!['.'] + crate::text::decimal(minor as nat)
                + rest,
        ) == (major, minor),
{
    let a = crate::text::decimal(major as nat);
    let b = crate::text::decimal(minor as nat);
    let s = a + seq!['.'] + b + rest;
    crate::text::lemma_decimal_reads_back(major as nat);
    crate::text::lemma_decimal_reads_back(minor as nat);
    let n = a.len() as int;
    let m = n + 1 + b.len();
    assert forall|k: int| 0 <= k < n implies crate::text::is_digit(#[trigger] s[k]) by {
        assert(s[k] == a[k]);
    }
    assert forall|k: int| n + 1 <= k < m implies crate::text::is_digit(#[trigger] s[k]) by {
        assert(s[k] == b[k - n - 1]);
    }
    assert(s[n] == '.');
    if rest.len() > 0 {
        assert(s[m] == rest[0]);
    }
    lemma_dot_after_digits(s, 0, n);
    lemma_dot_after_digits(s, n + 1, m);
    assert(s.subrange(0, n) =~= a);
    assert(s.subrange(n + 1, m) =~= b);
    lemma_part_reads_back(major);
    lemma_part_reads_back(minor);
}

/// The error where the platform has no system audio tap.
pub fn tap_unsupported() -> (e: Error)
    ensures
        crate::event::error_text(e)
            == "system audio tap not yet implemented on this platform"@,
        e is Other,
{
    Error::Other("system audio tap not yet implemented on this platform".to_owned())
}

/// The error where the platform has no microphone capture.
pub fn mic_unsupported() -> (e: Error)
    ensures
        crate::event::error_text(e) == "mic recording not yet implemented on this platform"@,
        e is Other,
{
    Error::Other("mic recording not yet implemented on this platform".to_owned())
}

/// How often the aggregate device is asked whether it is alive.
pub const ALIVE_ATTEMPTS: u32 = 20;

/// Time between two such questions.
pub const ALIVE_PAUSE_MS: u64 = 100;

/// How long the device may go on delivering after the tap has been told to stop.
pub const STOP_PAUSE_MS: u64 = 20;

/// What the tap is made of.
#[derive(Debug, Clone, Copy, PartialEq, Eq, Structural)]
pub enum Resource {
    /// The process tap.
    Tap,
    /// The aggregate device around the tap.
    Aggregate,
    /// The converter of the samples.
    Converter,
    /// What the callback works with.
    Context,
    /// The registration of the callback.
    IoProc,
}

/// What the tap tells of its format, as far as it matters whether the samples have
/// to be converted.
#[derive(Debug, Clone, Copy, PartialEq, Eq, Structural)]
pub struct TapFormat {
    /// The sample rate is the one asked for.
    pub rate_matches: bool,
    pub channels: u32,
    pub bytes_per_frame: u32,
    pub signed_integer: bool,
    pub bits: u32,
}

impl TapFormat {
    /// The number of channels; two where it is not told.
    pub open spec fn channel_count(self) -> int {
        if self.channels > 0 {
            self.channels as int
        } else {
            2
        }
    }

    /// The size of a frame; four bytes for each channel where it is not told.
    pub open spec fn frame_size(self) -> int {
        if self.bytes_per_frame > 0 {
            self.bytes_per_frame as int
        } else {
            self.channel_count() * 4
        }
    }

    /// The samples are not mono, 16-bit and at the right rate already.
    pub open spec fn must_convert(self) -> bool {
        !self.rate_matches || self.channel_count() != 1 || !self.signed_integer || self.bits != 16
    }

    /// The number of channels; two where it is not told.
    pub fn source_channels(&self) -> (n: u32)
        ensures
            n == self.channel_count(),
    {
        if self.channels > 0 {
            self.channels
        } else {
            2
        }
    }

    /// The size of a frame; four bytes for each channel where it is not told.
    pub fn source_bpf(&self) -> (n: u32)
        requires
            self.frame_size() <= u32::MAX,
        ensures
            n == self.frame_size(),
    {
        if self.bytes_per_frame > 0 {
            self.bytes_per_frame
        } else {
            self.source_channels() * 4
        }
    }

    /// Whether the samples have to be converted.
    pub fn needs_conversion(&self) -> (yes: bool)
        ensures
            yes == self.must_convert(),
    {
        !self.rate_matches || self.source_channels() != 1 || !self.signed_integer || self.bits != 16
    }
}

/// What setting up the tap needs next.
#[derive(Debug, Clone, Copy, PartialEq, Eq, Structural)]
pub enum TapStage {
    CreateTap,
    GetUid,
    GetFormat,
    CreateAggregate,
    /// Ask whether the device is alive; it has been asked `asked` times before.
    CheckAlive { asked: u32 },
    CreateConverter,
    CreateIoProc,
    StartDevice,
    Running,
    /// The tap could not be set up, or has been stopped.
    Over,
}

/// What came of what setting up the tap needed.
#[derive(Debug, Clone, Copy, PartialEq, Eq, Structural)]
pub enum TapReply {
    /// The system's status code; 0 is success.
    Status(i32),
    /// Whether the tap has told its uid.
    Uid(bool),
    /// The format, if the tap has told it.
    Format(Option<TapFormat>),
    Alive(bool),
}

/// The next turn of setting up the tap.
#[derive(Debug, Clone, PartialEq, Eq)]
pub enum TapTurn {
    Need(TapStage),
    /// The tap cannot be set up; these have to be released, in order.
    Failed { error: Error, release: Vec<Resource> },
}

/// The next turn of setting up the tap.
pub enum TapTurnView {
    Need(TapStage),
    Failed { error: Seq<char>, release: Seq<Resource> },
}

impl View for TapTurn {
    type V = TapTurnView;

    open spec fn view(&self) -> TapTurnView {
        match *self {
            TapTurn::Need(stage) => TapTurnView::Need(stage),
            TapTurn::Failed { error, release } => TapTurnView::Failed {
                error: crate::event::error_text(error),
                release: release@,
            },
        }
    }
}

/// A tap while it is set up and while it runs.
#[derive(Debug)]
pub struct TapSetup {
    stage: TapStage,
    convert: bool,
    converter: bool,
}

/// The state of a tap.
pub struct TapView {
    pub stage: TapStage,
    /// The samples have to be converted.
    pub convert: bool,
    /// There is a converter.
    pub converter: bool,
}

impl View for TapSetup {
    type V = TapView;

    closed spec fn view(&self) -> TapView {
        TapView { stage: self.stage, convert: self.convert, converter: self.converter }
    }
}

/// The text of a failure with the system's status code.
pub open spec fn status_text(call: Seq<char>, status: int) -> Seq<char> {
    "recording failed: "@ + (call + ": "@ + crate::text::signed_decimal(status))
}

/// The text of a failure.
pub open spec fn failure_text(reason: Seq<char>) -> Seq<char> {
    "recording failed: "@ + reason
}

impl TapView {
    /// A tap of which nothing is set up yet.
    pub open spec fn fresh() -> TapView {
        TapView { stage: TapStage::CreateTap, convert: false, converter: false }
    }

    /// A converter is there only where one is needed, and from its making on. The
    /// device has not been asked too often.
    pub open spec fn wf(self) -> bool {
        &&& self.converter ==> self.convert && (self.stage is CreateIoProc
            || self.stage is StartDevice || self.stage is Running)
        &&& self.stage is CreateConverter ==> self.convert
        &&& self.stage matches TapStage::CheckAlive { asked } ==> asked < ALIVE_ATTEMPTS
    }

    /// The reply answers what is needed.
    pub open spec fn answered_by(self, reply: TapReply) -> bool {
        match self.stage {
            TapStage::CreateTap => reply is Status,
            TapStage::GetUid => reply is Uid,
            TapStage::GetFormat => reply is Format,
            TapStage::CreateAggregate => reply is Status,
            TapStage::CheckAlive { asked } => reply is Alive,
            TapStage::CreateConverter => reply is Status,
            TapStage::CreateIoProc => reply is Status,
            TapStage::StartDevice => reply is Status,
            TapStage::Running => false,
            TapStage::Over => false,
        }
    }

    /// The converter, where there is one.
    pub open spec fn converter_part(self) -> Seq<Resource> {
        if self.converter {
            seq![Resource::Converter]
        } else {
            Seq::empty()
        }
    }

    /// What has been made so far, in the order in which it was made.
    pub open spec fn held(self) -> Seq<Resource> {
        match self.stage {
            TapStage::CreateTap => Seq::empty(),
            TapStage::GetUid => seq![Resource::Tap],
            TapStage::GetFormat => seq![Resource::Tap],
            TapStage::CreateAggregate => seq![Resource::Tap],
            TapStage::CheckAlive { asked } => seq![Resource::Tap, Resource::Aggregate],
            TapStage::CreateConverter => seq![Resource::Tap, Resource::Aggregate],
            TapStage::CreateIoProc => seq![Resource::Tap, Resource::Aggregate]
                + self.converter_part() + seq![Resource::Context],
            TapStage::StartDevice => seq![Resource::Tap, Resource::Aggregate]
                + self.converter_part() + seq![Resource::Context, Resource::IoProc],
            TapStage::Running => seq![Resource::Tap, Resource::Aggregate] + self.converter_part()
                + seq![Resource::Context, Resource::IoProc],
            TapStage::Over => Seq::empty(),
        }
    }

    /// The stage after a reply that is no failure.
    pub open spec fn stage_after(self, reply: TapReply) -> TapStage {
        match self.stage {
            TapStage::CreateTap => TapStage::GetUid,
            TapStage::GetUid => TapStage::GetFormat,
            TapStage::GetFormat => TapStage::CreateAggregate,
            TapStage::CreateAggregate => TapStage::CheckAlive { asked: 0 },
            TapStage::CheckAlive { asked } => if reply == TapReply::Alive(true) {
                if self.convert {
                    TapStage::CreateConverter
                } else {
                    TapStage::CreateIoProc
                }
            } else {
                TapStage::CheckAlive { asked: (asked + 1) as u32 }
            },
            TapStage::CreateConverter => TapStage::CreateIoProc,
            TapStage::CreateIoProc => TapStage::StartDevice,
            TapStage::StartDevice => TapStage::Running,
            TapStage::Running => TapStage::Running,
            TapStage::Over => TapStage::Over,
        }
    }

    /// The text of the failure that a reply is, where it is one. A converter that
    /// cannot be made is none: the samples are passed on as they come.
    pub open spec fn failure(self, reply: TapReply) -> Option<Seq<char>> {
        let status = match reply {
            TapReply::Status(s) => s as int,
            _ => 0,
        };
        match self.stage {
            TapStage::CreateTap => if status != 0 {
                Some(status_text("AudioHardwareCreateProcessTap"@, status))
            } else {
                None
            },
            TapStage::GetUid => if reply == TapReply::Uid(false) {
                Some(failure_text("failed to get tap UID"@))
            } else {
                None
            },
            TapStage::GetFormat => if reply == TapReply::Format(None) {
                Some(failure_text("failed to get tap format"@))
            } else {
                None
            },
            TapStage::CreateAggregate => if status != 0 {
                Some(status_text("AudioHardwareCreateAggregateDevice"@, status))
            } else {
                None
            },
            TapStage::CheckAlive { asked } => if reply == TapReply::Alive(false) && asked + 1
                == ALIVE_ATTEMPTS {
                Some(failure_text("aggregate device never became alive"@))
            } else {
                None
            },
            TapStage::CreateIoProc => if status != 0 {
                Some(status_text("AudioDeviceCreateIOProcID"@, status))
            } else {
                None
            },
            TapStage::StartDevice => if status != 0 {
                Some(
                    status_text("AudioDeviceStart"@, status)
                        + " — check Screen Recording permission in System Settings"@,
                )
            } else {
                None
            },
            _ => None,
        }
    }

    /// What is released when the tap cannot be set up. Where the tap does not tell
    /// its uid or its format nothing is.
    pub open spec fn released(self) -> Seq<Resource> {
        match self.stage {
            TapStage::CreateAggregate => seq![Resource::Tap],
            TapStage::CheckAlive { asked } => seq![Resource::Aggregate, Resource::Tap],
            TapStage::CreateIoProc => seq![Resource::Context] + self.converter_part() + seq![
                Resource::Aggregate,
                Resource::Tap,
            ],
            TapStage::StartDevice => seq![Resource::Context, Resource::IoProc]
                + self.converter_part() + seq![Resource::Aggregate, Resource::Tap],
            _ => Seq::empty(),
        }
    }

    /// What is released when a running tap is stopped.
    pub open spec fn stop_order(self) -> Seq<Resource> {
        seq![Resource::IoProc] + self.converter_part() + seq![
            Resource::Context,
            Resource::Aggregate,
            Resource::Tap,
        ]
    }

    /// The state after a reply.
    pub open spec fn after(self, reply: TapReply) -> TapView {
        if self.failure(reply) is Some {
            TapView { stage: TapStage::Over, convert: self.convert, converter: false }
        } else {
            TapView {
                stage: self.stage_after(reply),
                convert: match reply {
                    TapReply::Format(Some(format)) => format.must_convert(),
                    _ => self.convert,
                },
                converter: if self.stage is CreateConverter {
                    reply == TapReply::Status(0)
                } else {
                    self.converter
                },
            }
        }
    }

    /// The turn after a reply.
    pub open spec fn turn(self, reply: TapReply) -> TapTurnView {
        match self.failure(reply) {
            Some(error) => TapTurnView::Failed { error, release: self.released() },
            None => TapTurnView::Need(self.stage_after(reply)),
        }
    }
}

/// The error of a call that has failed with this status code.
fn status_error(call: &str, status: i32, hint: &str) -> (e: Error)
    ensures
        crate::event::error_text(e) == status_text(call@, status as int) + hint@,
        e is RecordingFailed,
{
    let mut text: String = call.to_owned();
    text.append(": ");
    text.append(signed_text(status).as_str());
    text.append(hint);
    let ghost reason = text@;
    proof {
        assert("recording failed: "@ + reason =~= status_text(call@, status as int) + hint@);
    }
    Error::RecordingFailed(text)
}

impl TapSetup {
    /// A tap of which nothing is set up yet, where the given version of macOS has
    /// taps; the process tap is needed first.
    pub fn start(version: &str) -> (result: Result<TapSetup, Error>)
        ensures
            match result {
                Ok(setup) => tap_supported(version_of(version@)) && setup@ == TapView::fresh()
                    && setup@.wf(),
                Err(e) => !tap_supported(version_of(version@)) && e == (
                Error::MacOSVersionTooOld {
                    major: version_of(version@).0,
                    minor: version_of(version@).1,
                }),
            },
    {
        match check_version(version) {
            Ok(_) => Ok(
                TapSetup { stage: TapStage::CreateTap, convert: false, converter: false },
            ),
            Err(e) => Err(e),
        }
    }

    /// What is needed next.
    pub fn stage(&self) -> (stage: TapStage)
        ensures
            stage == self@.stage,
    {
        self.stage
    }

    /// Whether there is a converter.
    pub fn has_converter(&self) -> (yes: bool)
        ensures
            yes == self@.converter,
    {
        self.converter
    }

    /// Ends the set-up.
    fn fail(&mut self, error: Error, release: Vec<Resource>) -> (turn: TapTurn)
        ensures
            turn == (TapTurn::Failed { error, release }),
            final(self)@ == (TapView {
                stage: TapStage::Over,
                convert: old(self)@.convert,
                converter: false,
            }),
            turn@ == (TapTurnView::Failed {
                error: crate::event::error_text(error),
                release: release@,
            }),
    {
        self.stage = TapStage::Over;
        self.converter = false;
        TapTurn::Failed { error, release }
    }

    /// Goes on to the next stage.
    fn go_on(&mut self, stage: TapStage) -> (turn: TapTurn)
        ensures
            final(self)@ == (TapView { stage, ..old(self)@ }),
            turn@ == TapTurnView::Need(stage),
    {
        self.stage = stage;
        TapTurn::Need(stage)
    }

    /// What is released when the tap cannot be set up.
    fn to_release(&self) -> (list: Vec<Resource>)
        ensures
            list@ == self@.released(),
    {
        let mut list: Vec<Resource> = Vec::new();
        match self.stage {
            TapStage::CreateAggregate => {
                list.push(Resource::Tap);
            },
            TapStage::CheckAlive { asked: _ } => {
                list.push(Resource::Aggregate);
                list.push(Resource::Tap);
            },
            TapStage::CreateIoProc => {
                list.push(Resource::Context);
                if self.converter {
                    list.push(Resource::Converter);
                }
                list.push(Resource::Aggregate);
                list.push(Resource::Tap);
            },
            TapStage::StartDevice => {
                list.push(Resource::Context);
                list.push(Resource::IoProc);
                if self.converter {
                    list.push(Resource::Converter);
                }
                list.push(Resource::Aggregate);
                list.push(Resource::Tap);
            },
            _ => {},
        }
        proof {
            assert(list@ =~= self@.released());
        }
        list
    }

    /// Takes in what came of what was needed. Returns what is needed next, or the
    /// error and what has to be released.
    pub fn next(&mut self, reply: TapReply) -> (turn: TapTurn)
        requires
            old(self)@.wf(),
            old(self)@.answered_by(reply),
        ensures
            final(self)@.wf(),
            final(self)@ == old(self)@.after(reply),
            turn@ == old(self)@.turn(reply),
            turn matches TapTurn::Failed { error, release } ==> error is RecordingFailed,
    {
        let release: Vec<Resource> = self.to_release();
        let status: i32 = match reply {
            TapReply::Status(s) => s,
            _ => 0,
        };
        proof {
            reveal_strlit("");
            assert(forall|s: Seq<char>| #[trigger] (s + ""@) =~= s);
        }
        match self.stage {
            TapStage::CreateTap => {
                if status != 0 {
                    return self.fail(
                        status_error("AudioHardwareCreateProcessTap", status, ""),
                        release,
                    );
                }
                self.go_on(TapStage::GetUid)
            },
            TapStage::GetUid => {
                if reply == TapReply::Uid(false) {
                    return self.fail(
                        Error::RecordingFailed("failed to get tap UID".to_owned()),
                        release,
                    );
                }
                self.go_on(TapStage::GetFormat)
            },
            TapStage::GetFormat => {
                match reply {
                    TapReply::Format(Some(format)) => {
                        self.convert = format.needs_conversion();
                    },
                    _ => {
                        return self.fail(
                            Error::RecordingFailed("failed to get tap format".to_owned()),
                            release,
                        );
                    },
                }
                self.go_on(TapStage::CreateAggregate)
            },
            TapStage::CreateAggregate => {
                if status != 0 {
                    return self.fail(
                        status_error("AudioHardwareCreateAggregateDevice", status, ""),
                        release,
                    );
                }
                self.go_on(TapStage::CheckAlive { asked: 0 })
            },
            TapStage::CheckAlive { asked } => {
                if reply == TapReply::Alive(true) {
                    if self.convert {
                        self.go_on(TapStage::CreateConverter)
                    } else {
                        self.go_on(TapStage::CreateIoProc)
                    }
                } else if asked + 1 == ALIVE_ATTEMPTS {
                    self.fail(
                        Error::RecordingFailed("aggregate device never became alive".to_owned()),
                        release,
                    )
                } else {
                    self.go_on(TapStage::CheckAlive { asked: asked + 1 })
                }
            },
            TapStage::CreateConverter => {
                self.converter = status == 0;
                self.go_on(TapStage::CreateIoProc)
            },
            TapStage::CreateIoProc => {
                if status != 0 {
                    return self.fail(
                        status_error("AudioDeviceCreateIOProcID", status, ""),
                        release,
                    );
                }
                self.go_on(TapStage::StartDevice)
            },
            TapStage::StartDevice => {
                if status != 0 {
                    return self.fail(
                        status_error(
                            "AudioDeviceStart",
                            status,
                            " — check Screen Recording permission in System Settings",
                        ),
                        release,
                    );
                }
                self.go_on(TapStage::Running)
            },
            TapStage::Running => TapTurn::Need(TapStage::Running),
            TapStage::Over => TapTurn::Need(TapStage::Over),
        }
    }

    /// Stops a running tap. Returns what has to be released, in order, after the
    /// device has been stopped.
    pub fn stop(&mut self) -> (release: Vec<Resource>)
        requires
            old(self)@.wf(),
            old(self)@.stage is Running,
        ensures
            final(self)@.wf(),
            final(self)@ == (TapView {
                stage: TapStage::Over,
                convert: old(self)@.convert,
                converter: false,
            }),
            release@ == old(self)@.stop_order(),
    {
        let mut release: Vec<Resource> = Vec::new();
        release.push(Resource::IoProc);
        if self.converter {
            release.push(Resource::Converter);
        }
        release.push(Resource::Context);
        release.push(Resource::Aggregate);
        release.push(Resource::Tap);
        proof {
            assert(release@ =~= self@.stop_order());
        }
        self.stage = TapStage::Over;
        self.converter = false;
        release
    }
}

/// The two lists hold the same, each thing once.
pub open spec fn same_once(a: Seq<Resource>, b: Seq<Resource>) -> bool {
    &&& a.no_duplicates()
    &&& b.no_duplicates()
    &&& forall|r: Resource| #[trigger] a.contains(r) <==> b.contains(r)
}

/// What is released is what is held, at the stages at which anything is released.
proof fn lemma_membership(t: TapView)
    requires
        t.stage is CheckAlive || t.stage is CreateIoProc || t.stage is StartDevice
            || t.stage is Running || t.stage is CreateAggregate || t.stage is CreateTap,
    ensures
        t.stage is Running ==> same_once(t.stop_order(), t.held()),
        !(t.stage is Running) ==> same_once(t.released(), t.held()),
{
    let a = if t.stage is Running {
        t.stop_order()
    } else {
        t.released()
    };
    let b = t.held();
    assert forall|r: Resource| #[trigger] a.contains(r) <==> b.contains(r) by {
        lemma_finds(a, r);
        lemma_finds(b, r);
    }
}

/// A thing that stands at one of the first five places of a list is in it.
proof fn lemma_finds(list: Seq<Resource>, r: Resource)
    ensures
        list.len() > 0 && list[0] == r ==> list.contains(r),
        list.len() > 1 && list[1] == r ==> list.contains(r),
        list.len() > 2 && list[2] == r ==> list.contains(r),
        list.len() > 3 && list[3] == r ==> list.contains(r),
        list.len() > 4 && list[4] == r ==> list.contains(r),
{
}

/// A tap that cannot be set up leaves nothing behind, and neither does one that is
/// stopped: everything that was made is released, and once. The tap that does not
/// tell its uid or its format stays.
pub proof fn law_tap_is_released(t: TapView, reply: TapReply)
    requires
        t.wf(),
        !(t.stage is GetUid),
        !(t.stage is GetFormat),
    ensures
        t.turn(reply) matches TapTurnView::Failed { error, release } ==> same_once(
            release,
            t.held(),
        ),
        t.stage is Running ==> same_once(t.stop_order(), t.held()),
{
    if t.failure(reply) is Some || t.stage is Running {
        lemma_membership(t);
    }
}

/// How many more turns setting up the tap can take at most.
pub open spec fn tap_turns_left(stage: TapStage) -> int {
    match stage {
        TapStage::CreateTap => 27,
        TapStage::GetUid => 26,
        TapStage::GetFormat => 25,
        TapStage::CreateAggregate => 24,
        TapStage::CheckAlive { asked } => 3 + ALIVE_ATTEMPTS - asked,
        TapStage::CreateConverter => 3,
        TapStage::CreateIoProc => 2,
        TapStage::StartDevice => 1,
        TapStage::Running => 0,
        TapStage::Over => 0,
    }
}

/// Setting up the tap comes to an end: every reply takes it further.
pub proof fn law_tap_setup_ends(t: TapView, reply: TapReply)
    requires
        t.wf(),
        t.answered_by(reply),
    ensures
        t.after(reply).wf(),
        0 <= tap_turns_left(t.after(reply).stage) < tap_turns_left(t.stage),
{
}

/// Where the tap delivers mono 16-bit samples at the right rate already, no
/// converter is made of them.
pub proof fn law_no_needless_converter(t: TapView, format: TapFormat)
    requires
        t.wf(),
        t.stage is GetFormat,
        format.rate_matches,
        format.channels == 1,
        format.signed_integer,
        format.bits == 16,
    ensures
        !t.after(TapReply::Format(Some(format))).convert,
{
}

/// What the callback of the device does with what came in.
#[derive(Debug, Clone, Copy, PartialEq, Eq, Structural)]
pub enum IoStep {
    Nothing,
    /// Pass on so many samples as they are.
    Direct { samples: u32 },
    /// Have so many frames, of so many bytes, converted.
    Convert { frames: u32, bytes: u32 },
}

/// What came in at the callback of the device.
#[derive(Debug, Clone, Copy, PartialEq, Eq, Structural)]
pub struct IoInput {
    /// The tap has been told to stop.
    pub stopping: bool,
    /// How many buffers there are.
    pub buffers: u32,
    /// The first buffer has data.
    pub has_data: bool,
    /// The size of the data in the first buffer.
    pub bytes: u32,
}

/// What the callback of the device does: nothing after the tap has been told to
/// stop or where no data came; otherwise it passes the samples on or, where there
/// is a converter, has them converted.
pub open spec fn io_step(input: IoInput, converter: bool, frame_size: u32) -> IoStep {
    let size = if frame_size > 0 {
        frame_size as int
    } else {
        1
    };
    if input.stopping || input.buffers == 0 || !input.has_data || input.bytes == 0 {
        IoStep::Nothing
    } else if !converter {
        IoStep::Direct { samples: (input.bytes as int / 2) as u32 }
    } else if input.bytes as int / size == 0 {
        IoStep::Nothing
    } else {
        IoStep::Convert { frames: (input.bytes as int / size) as u32, bytes: input.bytes }
    }
}

/// What the callback of the device does with what came in.
pub fn audio_io_step(input: IoInput, converter: bool, frame_size: u32) -> (step: IoStep)
    ensures
        step == io_step(input, converter, frame_size),
{
    if input.stopping || input.buffers == 0 || !input.has_data || input.bytes == 0 {
        return IoStep::Nothing;
    }
    if !converter {
        return IoStep::Direct { samples: input.bytes / 2 };
    }
    let size: u32 = if frame_size > 0 {
        frame_size
    } else {
        1
    };
    let frames: u32 = input.bytes / size;
    proof {
        assert(input.bytes as int / size as int <= input.bytes) by (nonlinear_arith)
            requires
                size >= 1,
        ;
    }
    if frames == 0 {
        return IoStep::Nothing;
    }
    IoStep::Convert { frames, bytes: input.bytes }
}

/// The samples that a conversion has left in `buffer`: `actual` of them, if it has
/// succeeded and there are any.
pub fn converted(status: i32, actual: u32, buffer: Vec<i16>) -> (chunk: Option<AudioChunk>)
    ensures
        match chunk {
            Some(c) => status == 0 && actual > 0 && c.pcm@ == if actual < buffer@.len() {
                buffer@.take(actual as int)
            } else {
                buffer@
            },
            None => status != 0 || actual == 0,
        },
{
    if status == 0 && actual > 0 {
        let mut pcm: Vec<i16> = buffer;
        if (actual as usize) < pcm.len() {
            pcm.truncate(actual as usize);
        }
        Some(AudioChunk { pcm })
    } else {
        None
    }
}

/// Passes a chunk on without waiting, as the audio thread must not: one that cannot
/// be taken is dropped and comes back as it was.
pub fn deliver(
    tx: &mut crossbeam_channel::Sender<AudioChunk>,
    chunk: AudioChunk,
) -> (dropped: Option<AudioChunk>)
    ensures
        crate::channel::handed_to(*old(tx), *final(tx), chunk, dropped is None),
        exists|answer: Offered| #[trigger]
            answers_offer(answer, chunk) && dropped == given_back(answer),
{
    let ghost given = chunk;
    let answer: Offered = offer_chunk(tx, chunk);
    proof {
        assert(answers_offer(answer, given));
    }
    undelivered(answer)
}

/// What a channel may answer to the offer of a chunk: it takes the chunk, or it is
/// full or nobody listens any more, and the very chunk comes back.
pub open spec fn answers_offer(answer: Offered, chunk: AudioChunk) -> bool {
    match answer {
        Offered::Sent => true,
        Offered::Full(back) => back == chunk,
        Offered::Disconnected(back) => back == chunk,
    }
}

/// The chunk that came back from an offer; none where it was taken.
pub open spec fn given_back(answer: Offered) -> Option<AudioChunk> {
    match answer {
        Offered::Sent => None,
        Offered::Full(back) => Some(back),
        Offered::Disconnected(back) => Some(back),
    }
}

/// The chunk that came back from an offer; none where it was taken.
pub fn undelivered(answer: Offered) -> (dropped: Option<AudioChunk>)
    ensures
        dropped == given_back(answer),
{
    match answer {
        Offered::Sent => None,
        Offered::Full(back) => Some(back),
        Offered::Disconnected(back) => Some(back),
    }
}

/// What waits to be read by the converter.
#[derive(Debug, Clone, Copy, PartialEq, Eq, Structural)]
pub struct Staged {
    pub frames: u32,
    pub bytes: u32,
}

/// The input of the converter: what came in is staged, and the converter takes it
/// once.
#[derive(Debug)]
pub struct ConverterInput {
    staged: Option<Staged>,
}

impl View for ConverterInput {
    type V = Option<Staged>;

    closed spec fn view(&self) -> Option<Staged> {
        self.staged
    }
}

impl ConverterInput {
    /// Nothing is staged.
    pub fn new() -> (input: ConverterInput)
        ensures
            input@ == None::<Staged>,
    {
        ConverterInput { staged: None }
    }

    /// Stages what came in, in place of what was staged before.
    pub fn stage(&mut self, frames: u32, bytes: u32)
        ensures
            final(self)@ == Some(Staged { frames, bytes }),
    {
        self.staged = Some(Staged { frames, bytes });
    }

    /// Takes what is staged, if there are frames in it. It is staged no longer.
    pub fn take(&mut self) -> (taken: Option<Staged>)
        ensures
            final(self)@ == None::<Staged>,
            taken == match old(self)@ {
                Some(s) => if s.frames > 0 {
                    Some(s)
                } else {
                    None
                },
                None => None,
            },
    {
        let staged: Option<Staged> = self.staged.take();
        match staged {
            Some(s) => {
                if s.frames > 0 {
                    Some(s)
                } else {
                    None
                }
            },
            None => None,
        }
    }
}

/// What the uid of every aggregate device begins with.
pub open spec fn aggregate_uid(id: Seq<char>) -> Seq<char> {
    "com.side-huddle.agg."@ + id
}

/// A lowercase hexadecimal digit.
pub open spec fn hex_digit(c: char) -> bool {
    '0' <= c <= '9' || 'a' <= c <= 'f'
}

/// The text of a random UUID: 32 lowercase hexadecimal digits in groups of 8, 4, 4, 4
/// and 12 with hyphens between them, with the version digit 4 and a variant digit
/// from 8 to b.
pub open spec fn uuid_v4_text(s: Seq<char>) -> bool {
    &&& s.len() == 36
    &&& forall|i: int|
        0 <= i < 36 ==> if i == 8 || i == 13 || i == 18 || i == 23 {
            #[trigger] s[i] == '-'
        } else {
            hex_digit(s[i])
        }
    &&& s[14] == '4'
    &&& s[19] == '8' || s[19] == '9' || s[19] == 'a' || s[19] == 'b'
}

/// The text is that of a UUID that was drawn by `Uuid::new_v4`.
pub uninterp spec fn drawn(id: Seq<char>) -> bool;

/// `uuid::Uuid::new_v4`, written out by its `Display`: a new random UUID of version
/// 4, in its hyphenated lowercase form. Which one it is is left to chance; claimed is
/// its form, and that it was drawn. It panics where the system gives no random numbers.
#[verifier::external_body]
fn random_uuid() -> (id: String)
    ensures
        drawn(id@),
        uuid_v4_text(id@),
{
    uuid::Uuid::new_v4().to_string()
}

/// The uid of the aggregate device with this id.
pub fn aggregate_uid_of(id: &str) -> (uid: String)
    ensures
        uid@ == aggregate_uid(id@),
{
    let mut uid: String = "com.side-huddle.agg.".to_owned();
    uid.append(id);
    uid
}

/// A uid for a new aggregate device. Its last part is left to chance.
pub fn new_aggregate_uid() -> (uid: String)
    ensures
        exists|id: Seq<char>| #[trigger]
            drawn(id) && uuid_v4_text(id) && uid@ == aggregate_uid(id),
{
    let id: String = random_uuid();
    proof {
        assert(drawn(id@));
    }
    aggregate_uid_of(id.as_str())
}

/// Taps are there from macOS 14.2 on: in no earlier version and in every later one.
pub proof fn law_taps_from_14_2_on(major: u32, minor: u32)
    ensures
        major < 14 ==> !tap_supported((major, minor)),
        major == 14 && minor < 2 ==> !tap_supported((major, minor)),
        major == 14 && minor >= 2 ==> tap_supported((major, minor)),
        major > 14 ==> tap_supported((major, minor)),
{
}

/// A tap is left as it is exactly where it delivers one channel of signed 16-bit integers
/// at the right rate. Where it tells no channels it has two, and where it tells no size of
/// a frame that is four bytes for each channel.
pub proof fn law_format_of_the_tap(f: TapFormat)
    ensures
        !f.must_convert() <==> f.rate_matches && f.channels == 1 && f.signed_integer && f.bits == 16,
        f.channels > 0 ==> f.channel_count() == f.channels,
        f.channels == 0 ==> f.channel_count() == 2,
        f.bytes_per_frame > 0 ==> f.frame_size() == f.bytes_per_frame,
        f.bytes_per_frame == 0 && f.channels > 0 ==> f.frame_size() == 4 * f.channels,
        f.bytes_per_frame == 0 && f.channels == 0 ==> f.frame_size() == 8,
{
}

/// Setting up the tap goes through its stages in their order, as long as nothing fails: a
/// status other than 0, a uid or a format that is not told, or a device that is not alive
/// the twentieth time. The converter is made where it is needed, and one that cannot be
/// made holds nothing up.
pub proof fn law_tap_stages(t: TapView, reply: TapReply)
    requires
        t.wf(),
        t.answered_by(reply),
    ensures
        ({
            let after = t.after(reply).stage;
            let ok = reply == TapReply::Status(0i32);
            &&& t.stage is CreateTap ==> after == if ok {
                TapStage::GetUid
            } else {
                TapStage::Over
            }
            &&& t.stage is GetUid ==> after == if reply == TapReply::Uid(true) {
                TapStage::GetFormat
            } else {
                TapStage::Over
            }
            &&& t.stage is GetFormat ==> after == if reply is Format && reply->Format_0 is Some {
                TapStage::CreateAggregate
            } else {
                TapStage::Over
            }
            &&& t.stage is CreateAggregate ==> after == if ok {
                TapStage::CheckAlive { asked: 0 }
            } else {
                TapStage::Over
            }
            &&& t.stage matches TapStage::CheckAlive { asked } ==> after == if reply
                == TapReply::Alive(true) {
                if t.convert {
                    TapStage::CreateConverter
                } else {
                    TapStage::CreateIoProc
                }
            } else if asked < 19 {
                TapStage::CheckAlive { asked: (asked + 1) as u32 }
            } else {
                TapStage::Over
            }
            &&& t.stage is CreateConverter ==> after == TapStage::CreateIoProc && t.after(
                reply,
            ).converter == ok
            &&& t.stage is CreateIoProc ==> after == if ok {
                TapStage::StartDevice
            } else {
                TapStage::Over
            }
            &&& t.stage is StartDevice ==> after == if ok {
                TapStage::Running
            } else {
                TapStage::Over
            }
            &&& t.turn(reply) is Failed <==> after == TapStage::Over
            &&& after != TapStage::Over ==> t.turn(reply) == TapTurnView::Need(after)
            &&& t.stage is GetFormat && reply is Format && reply->Format_0 is Some ==> t.after(
                reply,
            ).convert == reply->Format_0->0.must_convert()
        }),
{
}

/// Why setting up the tap has failed is told with the call that has failed and its status.
pub proof fn law_tap_failures_have_their_texts(t: TapView, status: i32)
    requires
        status != 0,
    ensures
        ({
            let failed = t.failure(TapReply::Status(status));
            let code = crate::text::signed_decimal(status as int);
            &&& t.stage is CreateTap ==> failed == Some(
                "recording failed: "@ + ("AudioHardwareCreateProcessTap"@ + ": "@ + code),
            )
            &&& t.stage is CreateAggregate ==> failed == Some(
                "recording failed: "@ + ("AudioHardwareCreateAggregateDevice"@ + ": "@ + code),
            )
            &&& t.stage is CreateIoProc ==> failed == Some(
                "recording failed: "@ + ("AudioDeviceCreateIOProcID"@ + ": "@ + code),
            )
            &&& t.stage is StartDevice ==> failed == Some(
                "recording failed: "@ + ("AudioDeviceStart"@ + ": "@ + code)
                    + " — check Screen Recording permission in System Settings"@,
            )
        }),
        t.stage is GetUid ==> t.failure(TapReply::Uid(false)) == Some(
            "recording failed: "@ + "failed to get tap UID"@,
        ),
        t.stage is GetFormat ==> t.failure(TapReply::Format(None)) == Some(
            "recording failed: "@ + "failed to get tap format"@,
        ),
        t.stage == (TapStage::CheckAlive { asked: 19 }) ==> t.failure(TapReply::Alive(false))
            == Some("recording failed: "@ + "aggregate device never became alive"@),
        status > 0 ==> crate::text::signed_decimal(status as int) == crate::text::decimal(
            status as nat,
        ),
        status < 0 ==> crate::text::signed_decimal(status as int) == "-"@ + crate::text::decimal(
            (-status) as nat,
        ),
{
}

/// What a tap is made of is released in an order in which nothing outlives what it rests
/// on: what the device calls goes before the device, and the device before the tap.
pub proof fn law_tap_is_released_in_order(t: TapView, reply: TapReply)
    requires
        t.wf(),
        t.answered_by(reply),
    ensures
        t.turn(reply) matches TapTurnView::Failed { error, release } ==> {
            &&& release.len() >= 1 ==> release.last() == Resource::Tap
            &&& release.len() >= 2 ==> release[release.len() - 2] == Resource::Aggregate
            &&& release.len() >= 3 ==> release[0] == Resource::Context
        },
        t.turn(reply) matches TapTurnView::Failed { error, release } ==> release == t.released(),
{
}

/// A running tap that is stopped is taken down from the callback to the tap.
pub proof fn law_stop_takes_down_in_order(t: TapView)
    ensures
        t.converter ==> t.stop_order() == seq![
            Resource::IoProc,
            Resource::Converter,
            Resource::Context,
            Resource::Aggregate,
            Resource::Tap,
        ],
        !t.converter ==> t.stop_order() == seq![
            Resource::IoProc,
            Resource::Context,
            Resource::Aggregate,
            Resource::Tap,
        ],
{
    if t.converter {
        assert(t.stop_order() =~= seq![
            Resource::IoProc,
            Resource::Converter,
            Resource::Context,
            Resource::Aggregate,
            Resource::Tap,
        ]);
    } else {
        assert(t.stop_order() =~= seq![
            Resource::IoProc,
            Resource::Context,
            Resource::Aggregate,
            Resource::Tap,
        ]);
    }
}

/// The callback of the device lets nothing go that came in before the tap was told to
/// stop: without a converter all whole samples are passed on, with one all whole frames
/// are converted; and it does nothing where nothing came in.
pub proof fn law_callback_passes_everything_on(input: IoInput, converter: bool, frame_size: u32)
    ensures
        ({
            let step = io_step(input, converter, frame_size);
            let size = if frame_size == 0 {
                1
            } else {
                frame_size as int
            };
            let idle = input.stopping || input.buffers == 0 || !input.has_data || input.bytes == 0;
            &&& idle ==> step == IoStep::Nothing
            &&& !idle && !converter ==> {
                &&& step is Direct
                &&& 2 * step->samples <= input.bytes < 2 * step->samples + 2
            }
            &&& !idle && converter && input.bytes < size ==> step == IoStep::Nothing
            &&& !idle && converter && input.bytes >= size ==> {
                &&& step is Convert
                &&& step->frames * size <= input.bytes < (step->frames + 1) * size
                &&& step->Convert_bytes == input.bytes
            }
        }),
{
    let size = if frame_size == 0 {
        1
    } else {
        frame_size as int
    };
    let bytes = input.bytes as int;
    let frames = bytes / size;
    assert(frames * size <= bytes < (frames + 1) * size && 0 <= frames <= bytes) by (nonlinear_arith)
        requires
            size >= 1,
            bytes >= 0,
            frames == bytes / size,
    ;
    assert(frames == 0 <==> bytes < size) by (nonlinear_arith)
        requires
            size >= 1,
            bytes >= 0,
            frames == bytes / size,
    ;
}

/// The answer to an offer gives back the chunk that was offered unless it was taken.
pub proof fn law_offer_gives_back(chunk: AudioChunk)
    ensures
        given_back(Offered::Sent) is None,
        given_back(Offered::Full(chunk)) == Some(chunk),
        given_back(Offered::Disconnected(chunk)) == Some(chunk),
        aggregate_uid(Seq::empty()) == "com.side-huddle.agg."@,
{
    assert(aggregate_uid(Seq::empty()) =~= "com.side-huddle.agg."@);
}

/// The uid of an aggregate device ends with its id, so devices with different ids have
/// different uids.
pub proof fn law_uids_differ(a: Seq<char>, b: Seq<char>)
    ensures
        aggregate_uid(a) == "com.side-huddle.agg."@ + a,
        aggregate_uid(a) == aggregate_uid(b) ==> a == b,
{
    let n = "com.side-huddle.agg."@.len() as int;
    assert(aggregate_uid(a).skip(n) =~= a);
    assert(aggregate_uid(b).skip(n) =~= b);
}

/// The parts of a version are read one by one: the first stands before the first dot, the
/// second between it and the next. A part that is no number counts as 0, and so does one
/// that is not there.
pub proof fn law_version_by_parts(first: Seq<char>, second: Seq<char>, rest: Seq<char>)
    requires
        forall|i: int| 0 <= i < first.len() ==> #[trigger] first[i] != '.',
        forall|i: int| 0 <= i < second.len() ==> #[trigger] second[i] != '.',
        rest.len() == 0 || rest[0] == '.',
    ensures
        ({
            let major = crate::text::parsed_u32(first);
            let minor = crate::text::parsed_u32(second);
            let version = version_of(first + seq!['.'] + second + rest);
            &&& major is Some ==> version.0 == major->0
            &&& major is None ==> version.0 == 0
            &&& minor is Some ==> version.1 == minor->0
            &&& minor is None ==> version.1 == 0
            &&& version_of(first) == (version.0, 0u32)
        }),
{
    let s = first + seq!['.'] + second + rest;
    let n = first.len() as int;
    let m = n + 1 + second.len();
    assert forall|k: int| 0 <= k < n implies #[trigger] s[k] != '.' by {
        assert(s[k] == first[k]);
    }
    assert forall|k: int| n + 1 <= k < m implies #[trigger] s[k] != '.' by {
        assert(s[k] == second[k - n - 1]);
    }
    assert(s[n] == '.');
    if rest.len() > 0 {
        assert(s[m] == rest[0]);
    }
    lemma_next_dot(s, 0, n);
    lemma_next_dot(s, n + 1, m);
    lemma_next_dot(first, 0, n);
    assert(s.subrange(0, n) =~= first);
    assert(s.subrange(n + 1, m) =~= second);
    assert(first.subrange(0, n) =~= first);
}

/// The next dot is the first one.
proof fn lemma_next_dot(s: Seq<char>, i: int, n: int)
    requires
        0 <= i <= n <= s.len(),
        forall|k: int| i <= k < n ==> #[trigger] s[k] != '.',
        n == s.len() || s[n] == '.',
    ensures
        dot_from(s, i) == n,
    decreases n - i,
{
    if i < n {
        lemma_next_dot(s, i + 1, n);
    }
}

/// Where a chunk comes back from an offer it is the very chunk that was offered.
pub proof fn law_same_chunk_comes_back(answer: Offered, chunk: AudioChunk)
    requires
        answers_offer(answer, chunk),
    ensures
        answer is Sent <==> given_back(answer) is None,
        given_back(answer) is Some ==> given_back(answer) == Some(chunk),
{
}

} // verus!
