//! The meeting listener: what it emits, when it records, and what it makes of a
//! recording.
//!
//! The listener decides; a host performs. The host polls the microphone, runs
//! timers, watches windows, asks the system for permissions and captures audio,
//! and hands each outcome to the listener, which returns what to do next.
use vstd::prelude::*;
use vstd::string::*;

use crate::event::{
    Detection, DetectionKind, Error, Event, Permission, PermissionGranted, Platform,
};
use crate::mix::mix_pcm;
use crate::monitor::{Monitor, Outcome, TimerRequest, Watch};
use crate::paths::{recording_paths, RecordingPaths};
use crate::wav::wav_bytes;

verus! {

/// The sample rate of a new listener.
pub const DEFAULT_SAMPLE_RATE: u32 = 16000;

/// How many milliseconds of audio are captured at a time.
pub const DEFAULT_CHUNK_MS: u32 = 200;

/// What the host has to do, in the order given.
#[derive(Debug, Clone, PartialEq, Eq)]
pub enum Action {
    /// Hand the event to every handler.
    Emit(Event),
    /// Ask `auto_record_due` whether to record.
    AutoRecord,
    /// End the capture of the running recording.
    StopCapture,
}

/// What the host has to do.
pub enum ActionView {
    Emit(crate::event::EventView),
    AutoRecord,
    StopCapture,
}

impl View for Action {
    type V = ActionView;

    open spec fn view(&self) -> ActionView {
        match *self {
            Action::Emit(event) => ActionView::Emit(event@),
            Action::AutoRecord => ActionView::AutoRecord,
            Action::StopCapture => ActionView::StopCapture,
        }
    }
}

/// What each of a list of actions says.
pub open spec fn action_views(actions: Seq<Action>) -> Seq<ActionView> {
    actions.map_values(|a: Action| a@)
}

/// What a change in the listener leads to: first the watchers, then the actions.
#[derive(Debug, Clone, PartialEq, Eq)]
pub struct Turn {
    pub watch: Watch,
    pub actions: Vec<Action>,
}

/// A recording that is being captured.
#[derive(Debug, Clone, PartialEq, Eq)]
pub struct RecordingPlan {
    pub app: String,
    pub sample_rate: u32,
    pub paths: RecordingPaths,
}

/// A recording that is being captured.
pub struct PlanView {
    pub app: Seq<char>,
    pub sample_rate: u32,
    pub paths: crate::paths::PathsView,
}

impl View for RecordingPlan {
    type V = PlanView;

    open spec fn view(&self) -> PlanView {
        PlanView { app: self.app@, sample_rate: self.sample_rate, paths: self.paths@ }
    }
}

/// What a request to record needs next.
#[derive(Debug, Clone, PartialEq, Eq)]
pub enum RecordNext {
    /// Nothing: the request is over.
    Done,
    /// Nothing, but the system audio tap that was started has to be stopped.
    StopTap,
    /// Look up the Screen Recording permission.
    CheckScreen,
    /// Look up the microphone permission.
    CheckMicrophone,
    /// Show the system dialog that asks for the microphone.
    RequestMicrophone,
    /// Start the system audio tap.
    StartTap { sample_rate: u32, chunk_ms: u32 },
    /// Start the microphone.
    StartMic { sample_rate: u32, chunk_ms: u32 },
    /// Collect both streams until they end; the request is over.
    Capture(RecordingPlan),
}

/// What a request to record needs next.
pub enum RecordNextView {
    Done,
    StopTap,
    CheckScreen,
    CheckMicrophone,
    RequestMicrophone,
    StartTap { sample_rate: u32, chunk_ms: u32 },
    StartMic { sample_rate: u32, chunk_ms: u32 },
    Capture(PlanView),
}

impl View for RecordNext {
    type V = RecordNextView;

    open spec fn view(&self) -> RecordNextView {
        match *self {
            RecordNext::Done => RecordNextView::Done,
            RecordNext::StopTap => RecordNextView::StopTap,
            RecordNext::CheckScreen => RecordNextView::CheckScreen,
            RecordNext::CheckMicrophone => RecordNextView::CheckMicrophone,
            RecordNext::RequestMicrophone => RecordNextView::RequestMicrophone,
            RecordNext::StartTap { sample_rate, chunk_ms } => RecordNextView::StartTap {
                sample_rate,
                chunk_ms,
            },
            RecordNext::StartMic { sample_rate, chunk_ms } => RecordNextView::StartMic {
                sample_rate,
                chunk_ms,
            },
            RecordNext::Capture(plan) => RecordNextView::Capture(plan@),
        }
    }
}

/// What came of what a request to record needed.
#[derive(Debug, Clone, PartialEq, Eq)]
pub enum RecordReply {
    ScreenChecked(PermissionGranted),
    MicrophoneChecked(PermissionGranted),
    MicrophoneAnswered(PermissionGranted),
    TapStarted,
    TapFailed(Error),
    /// The microphone was started at `secs` seconds of Unix time.
    MicStarted { secs: u64 },
    MicFailed(Error),
}

/// The next turn of a request to record: first the events, then what it needs.
#[derive(Debug, Clone, PartialEq, Eq)]
pub struct RecordTurn {
    pub events: Vec<Event>,
    pub next: RecordNext,
}

/// What has to be ended after the listener has been stopped.
#[derive(Debug, Clone, Copy, PartialEq, Eq, Structural)]
pub struct Stopped {
    /// The watchers of the meeting.
    pub watchers: bool,
    /// The capture of a recording.
    pub capture: bool,
}

/// How to record.
#[derive(Debug)]
struct Settings {
    sample_rate: u32,
    chunk_ms: u32,
    output_dir: String,
    auto_record: bool,
}

/// How to record.
pub struct SettingsView {
    pub sample_rate: u32,
    /// How many milliseconds of audio are captured at a time.
    pub chunk_ms: u32,
    /// Where the WAV files go.
    pub output_dir: Seq<char>,
    /// Every detected meeting is recorded.
    pub auto_record: bool,
}

impl View for Settings {
    type V = SettingsView;

    closed spec fn view(&self) -> SettingsView {
        SettingsView {
            sample_rate: self.sample_rate,
            chunk_ms: self.chunk_ms,
            output_dir: self.output_dir@,
            auto_record: self.auto_record,
        }
    }
}

impl Settings {
    /// A copy of the settings.
    fn copy(&self) -> (settings: Settings)
        ensures
            settings@ == self@,
    {
        Settings {
            sample_rate: self.sample_rate,
            chunk_ms: self.chunk_ms,
            output_dir: self.output_dir.clone(),
            auto_record: self.auto_record,
        }
    }
}

/// Detects meetings and emits lifecycle events.
///
/// `H` is the type of the event handlers. Settings that are made while the listener
/// is started take effect with the next start.
#[derive(Debug)]
pub struct MeetingListener<H> {
    platform: Platform,
    settings: Settings,
    running: Settings,
    handlers: Vec<H>,
    in_meeting: bool,
    app: String,
    recording: bool,
    monitor: Option<Monitor>,
    session: u64,
}

/// The state of a listener.
pub struct ListenerView<H> {
    pub platform: Platform,
    /// The settings as they were made last.
    pub settings: SettingsView,
    /// The settings as they were at the last start.
    pub running: SettingsView,
    /// The handlers, in the order in which they were registered.
    pub handlers: Seq<H>,
    pub in_meeting: bool,
    /// The application of the last meeting that was detected.
    pub app: Seq<char>,
    pub recording: bool,
    /// The monitor, while the listener is started.
    pub monitor: Option<crate::monitor::MonitorView>,
    /// The number of the last start.
    pub session: u64,
}

/// The text of the error where Screen Recording is not granted.
pub open spec fn screen_denied_text() -> Seq<char> {
    "Screen Recording access required — call request_permissions() to open System Settings, grant access, then restart the listener"@
}

/// The text of the error where the microphone is not granted.
pub open spec fn microphone_denied_text() -> Seq<char> {
    "Microphone access denied — grant permission in System Settings > Privacy > Microphone"@
}

/// The text of the error where a file could not be written.
pub open spec fn write_failed_text() -> Seq<char> {
    "failed to write WAV files"@
}

/// The events that tell the status of each permission. Only macOS has any.
pub open spec fn status_report(
    platform: Platform,
    screen: PermissionGranted,
    microphone: PermissionGranted,
) -> Seq<crate::event::EventView> {
    match platform {
        Platform::MacOs => seq![
            status_event(Permission::ScreenCapture, screen),
            status_event(Permission::Microphone, microphone),
        ],
        Platform::Other => Seq::empty(),
    }
}

/// All permissions that recording requires are granted: it can proceed.
pub open spec fn all_granted(
    platform: Platform,
    screen: PermissionGranted,
    microphone: PermissionGranted,
) -> bool {
    platform == Platform::MacOs ==> screen == PermissionGranted::Granted && microphone
        == PermissionGranted::Granted
}

/// The events that tell the state of the permissions when the listener is started:
/// the status of each, and that all are granted where they are.
pub open spec fn start_report(
    platform: Platform,
    screen: PermissionGranted,
    microphone: PermissionGranted,
) -> Seq<crate::event::EventView> {
    let status = status_report(platform, screen, microphone);
    if all_granted(platform, screen, microphone) {
        status.push(crate::event::EventView::PermissionsGranted)
    } else {
        status
    }
}

/// The events that tell the state of the permissions when they have been asked for:
/// the status of each, and that what had to be granted is granted. On macOS that is
/// Screen Recording; the microphone is asked for when the first recording begins.
pub open spec fn request_report(
    platform: Platform,
    screen: PermissionGranted,
    microphone: PermissionGranted,
) -> Seq<crate::event::EventView> {
    let status = status_report(platform, screen, microphone);
    if platform == Platform::MacOs ==> screen == PermissionGranted::Granted {
        status.push(crate::event::EventView::PermissionsGranted)
    } else {
        status
    }
}

/// The event for an error with this text.
pub open spec fn error_event(message: Seq<char>) -> crate::event::EventView {
    crate::event::EventView::Error { message }
}

/// The event for a permission that is not granted.
pub open spec fn status_event(permission: Permission, status: PermissionGranted) ->
    crate::event::EventView {
    crate::event::EventView::PermissionStatus { permission, status }
}

impl SettingsView {
    /// The default settings: 16 kHz, no automatic recording.
    pub open spec fn defaults(dir: Seq<char>) -> SettingsView {
        SettingsView {
            sample_rate: DEFAULT_SAMPLE_RATE,
            chunk_ms: DEFAULT_CHUNK_MS,
            output_dir: dir,
            auto_record: false,
        }
    }
}

impl<H> ListenerView<H> {
    /// A listener with default settings and no handlers.
    pub open spec fn idle(platform: Platform, dir: Seq<char>) -> ListenerView<H> {
        ListenerView {
            platform,
            settings: SettingsView::defaults(dir),
            running: SettingsView::defaults(dir),
            handlers: Seq::empty(),
            in_meeting: false,
            app: Seq::empty(),
            recording: false,
            monitor: None,
            session: 0,
        }
    }

    /// A recording runs only in a meeting. How much audio is captured at a time is
    /// fixed. The monitor runs on the listener's platform, and the listener knows of
    /// the meeting that it has noticed.
    pub open spec fn wf(self) -> bool {
        &&& self.recording ==> self.in_meeting
        &&& self.settings.chunk_ms == DEFAULT_CHUNK_MS
        &&& self.running.chunk_ms == DEFAULT_CHUNK_MS
        &&& self.monitor matches Some(m) ==> {
            &&& m.wf()
            &&& m.started
            &&& m.platform == self.platform
            &&& m.in_meeting ==> self.in_meeting && self.app == m.current_app
        }
    }

    /// The listener is started, and it is the start with this number.
    pub open spec fn active(self, session: u64) -> bool {
        self.monitor is Some && self.session == session
    }

    /// The settings in effect: while the listener is started those that it was
    /// started with.
    pub open spec fn in_effect(self) -> SettingsView {
        if self.monitor is Some {
            self.running
        } else {
            self.settings
        }
    }

    /// A recording of the current meeting can be started.
    pub open spec fn can_record(self) -> bool {
        self.in_meeting && !self.recording
    }

    /// The state after the monitor has noticed something.
    pub open spec fn detected(self, det: Option<crate::event::DetectionView>) -> ListenerView<H> {
        match det {
            Some(d) => match d.kind {
                DetectionKind::Started => ListenerView { in_meeting: true, app: d.app, ..self },
                DetectionKind::Ended => ListenerView {
                    in_meeting: false,
                    recording: false,
                    ..self
                },
                _ => self,
            },
            None => self,
        }
    }

    /// What the host has to do after the monitor has noticed something.
    pub open spec fn detected_actions(self, det: Option<crate::event::DetectionView>) -> Seq<
        ActionView,
    > {
        match det {
            Some(d) => match d.kind {
                DetectionKind::Started => seq![
                    ActionView::Emit(
                        crate::event::EventView::MeetingDetected { app: d.app, pid: d.pid },
                    ),
                    ActionView::AutoRecord,
                ],
                DetectionKind::Updated => match d.title {
                    Some(title) => seq![
                        ActionView::Emit(
                            crate::event::EventView::MeetingUpdated { app: d.app, title },
                        ),
                    ],
                    None => Seq::empty(),
                },
                DetectionKind::Ended => {
                    let told = seq![
                        ActionView::Emit(crate::event::EventView::MeetingEnded { app: d.app }),
                    ];
                    if self.recording {
                        told.push(ActionView::StopCapture)
                    } else {
                        told
                    }
                },
                DetectionKind::SpeakerChanged => seq![
                    ActionView::Emit(
                        crate::event::EventView::SpeakerChanged {
                            speakers: d.speakers,
                            app: d.app,
                        },
                    ),
                ],
            },
            None => Seq::empty(),
        }
    }

    /// What a request to record needs once the permissions are there.
    pub open spec fn begin_capture(self) -> RecordNextView {
        if self.can_record() {
            RecordNextView::StartTap {
                sample_rate: self.in_effect().sample_rate,
                chunk_ms: self.in_effect().chunk_ms,
            }
        } else {
            RecordNextView::Done
        }
    }

    /// What a request to record needs first: nothing where no meeting is active or
    /// a recording is running.
    pub open spec fn record_first(self) -> RecordNextView {
        if !self.can_record() {
            RecordNextView::Done
        } else {
            match self.platform {
                Platform::MacOs => RecordNextView::CheckScreen,
                Platform::Other => self.begin_capture(),
            }
        }
    }

    /// The recording that starts at `secs` seconds of Unix time.
    pub open spec fn plan(self, secs: nat) -> PlanView {
        PlanView {
            app: self.app,
            sample_rate: self.in_effect().sample_rate,
            paths: crate::paths::paths_of(self.in_effect().output_dir, secs),
        }
    }

    /// The events that follow a reply to a request to record.
    pub open spec fn record_events(self, reply: RecordReply) -> Seq<crate::event::EventView> {
        match reply {
            RecordReply::ScreenChecked(status) => if status == PermissionGranted::Denied {
                seq![
                    status_event(Permission::ScreenCapture, status),
                    error_event(screen_denied_text()),
                ]
            } else {
                Seq::empty()
            },
            RecordReply::MicrophoneChecked(status) => if status == PermissionGranted::Denied {
                seq![
                    status_event(Permission::Microphone, status),
                    error_event(microphone_denied_text()),
                ]
            } else {
                Seq::empty()
            },
            RecordReply::MicrophoneAnswered(status) => if status == PermissionGranted::Granted {
                seq![status_event(Permission::Microphone, status)]
            } else {
                seq![
                    status_event(Permission::Microphone, status),
                    error_event(microphone_denied_text()),
                ]
            },
            RecordReply::TapStarted => Seq::empty(),
            RecordReply::TapFailed(e) => seq![error_event(crate::event::error_text(e))],
            RecordReply::MicStarted { secs } => seq![
                crate::event::EventView::RecordingStarted { app: self.app },
            ],
            RecordReply::MicFailed(e) => seq![error_event(crate::event::error_text(e))],
        }
    }

    /// What a request to record needs after a reply.
    pub open spec fn record_then(self, reply: RecordReply) -> RecordNextView {
        match reply {
            RecordReply::ScreenChecked(status) => if status == PermissionGranted::Denied {
                RecordNextView::Done
            } else {
                RecordNextView::CheckMicrophone
            },
            RecordReply::MicrophoneChecked(status) => match status {
                PermissionGranted::Granted => self.begin_capture(),
                PermissionGranted::NotRequested => RecordNextView::RequestMicrophone,
                PermissionGranted::Denied => RecordNextView::Done,
            },
            RecordReply::MicrophoneAnswered(status) => if status == PermissionGranted::Granted {
                self.begin_capture()
            } else {
                RecordNextView::Done
            },
            RecordReply::TapStarted => RecordNextView::StartMic {
                sample_rate: self.in_effect().sample_rate,
                chunk_ms: self.in_effect().chunk_ms,
            },
            RecordReply::TapFailed(e) => RecordNextView::Done,
            RecordReply::MicStarted { secs } => RecordNextView::Capture(self.plan(secs as nat)),
            RecordReply::MicFailed(e) => RecordNextView::StopTap,
        }
    }

    /// The state after a reply to a request to record.
    pub open spec fn replied(self, reply: RecordReply) -> ListenerView<H> {
        if reply is MicStarted {
            ListenerView { recording: true, ..self }
        } else {
            self
        }
    }
}

/// What can happen to a started listener.
pub enum ListenerInput {
    Poll { pid: u32, app: Seq<char> },
    SustainExpired { token: u64 },
    GraceExpired { token: u64 },
    WindowClosed,
    WindowIdentified { app: Seq<char>, title: Seq<char> },
    SpeakersChanged { app: Seq<char>, speakers: Seq<Seq<char>> },
    Reply(RecordReply),
}

impl<H> ListenerView<H> {
    /// What the monitor notices when something happens.
    pub open spec fn noticed(self, input: ListenerInput) -> Option<crate::event::DetectionView> {
        let m = self.monitor->0;
        match input {
            ListenerInput::Poll { pid, app } => None,
            ListenerInput::SustainExpired { token } => m.sustained_detection(token),
            ListenerInput::GraceExpired { token } => if m.grace_due(token) {
                m.ended_detection()
            } else {
                None
            },
            ListenerInput::WindowClosed => m.ended_detection(),
            ListenerInput::WindowIdentified { app, title } => m.updated_detection(app, title),
            ListenerInput::SpeakersChanged { app, speakers } => m.speakers_detection(
                app,
                speakers,
            ),
            ListenerInput::Reply(reply) => None,
        }
    }

    /// The state of the monitor after something has happened.
    pub open spec fn monitor_after(self, input: ListenerInput) -> crate::monitor::MonitorView {
        let m = self.monitor->0;
        match input {
            ListenerInput::Poll { pid, app } => m.polled(pid, app),
            ListenerInput::SustainExpired { token } => m.sustained(token),
            ListenerInput::GraceExpired { token } => if m.grace_due(token) {
                m.ended()
            } else {
                m
            },
            ListenerInput::WindowClosed => m.ended(),
            _ => m,
        }
    }

    /// The state after something has happened.
    pub open spec fn after(self, input: ListenerInput) -> ListenerView<H> {
        match input {
            ListenerInput::Reply(reply) => self.replied(reply),
            _ => (ListenerView { monitor: Some(self.monitor_after(input)), ..self }).detected(
                self.noticed(input),
            ),
        }
    }

    /// What becomes of the watchers when something happens.
    pub open spec fn watch_after(self, input: ListenerInput) -> crate::monitor::WatchView {
        let m = self.monitor->0;
        match input {
            ListenerInput::SustainExpired { token } => m.sustained_watch(token),
            ListenerInput::GraceExpired { token } => if m.grace_due(token) {
                m.ended_watch()
            } else {
                crate::monitor::WatchView::Unchanged
            },
            ListenerInput::WindowClosed => m.ended_watch(),
            _ => crate::monitor::WatchView::Unchanged,
        }
    }

    /// What the host has to do when something happens.
    pub open spec fn actions_after(self, input: ListenerInput) -> Seq<ActionView> {
        self.detected_actions(self.noticed(input))
    }
}

impl<H> View for MeetingListener<H> {
    type V = ListenerView<H>;

    closed spec fn view(&self) -> ListenerView<H> {
        ListenerView {
            platform: self.platform,
            settings: self.settings@,
            running: self.running@,
            handlers: self.handlers@,
            in_meeting: self.in_meeting,
            app: self.app@,
            recording: self.recording,
            monitor: match self.monitor {
                Some(m) => Some(m@),
                None => None,
            },
            session: self.session,
        }
    }
}

/// The events that tell the status of each permission.
fn status_events(
    platform: Platform,
    screen: PermissionGranted,
    microphone: PermissionGranted,
) -> (events: Vec<Event>)
    ensures
        crate::event::event_views(events@) == status_report(platform, screen, microphone),
{
    let mut events: Vec<Event> = Vec::new();
    if platform == Platform::MacOs {
        events.push(
            Event::PermissionStatus { permission: Permission::ScreenCapture, status: screen },
        );
        events.push(
            Event::PermissionStatus { permission: Permission::Microphone, status: microphone },
        );
    }
    proof {
        assert(crate::event::event_views(events@) =~= status_report(platform, screen, microphone));
    }
    events
}

/// Hands an event to every handler, in the order in which they were registered.
pub fn emit<F: Fn(&Event)>(handlers: &Vec<F>, event: &Event)
    requires
        forall|i: int| 0 <= i < handlers@.len() ==> call_requires(#[trigger] handlers@[i], (event,)),
    ensures
        forall|i: int|
            0 <= i < handlers@.len() ==> call_ensures(#[trigger] handlers@[i], (event,), ()),
{
    let mut i: usize = 0;
    while i < handlers.len()
        invariant
            i <= handlers@.len(),
            forall|k: int|
                0 <= k < handlers@.len() ==> call_requires(#[trigger] handlers@[k], (event,)),
            forall|k: int| 0 <= k < i ==> call_ensures(#[trigger] handlers@[k], (event,), ()),
        decreases handlers@.len() - i,
    {
        let handler: &F = &handlers[i];
        handler(event);
        i = i + 1;
    }
}

impl<H> MeetingListener<H> {
    /// A listener with default settings. Files go to the current directory, or to
    /// `.` where that is not known.
    pub fn new(platform: Platform, current_dir: Option<String>) -> (listener: MeetingListener<H>)
        ensures
            listener@.wf(),
            listener@ == ListenerView::<H>::idle(
                platform,
                match current_dir {
                    Some(dir) => dir@,
                    None => "."@,
                },
            ),
    {
        let output_dir: String = match current_dir {
            Some(dir) => dir,
            None => ".".to_owned(),
        };
        let settings: Settings = Settings {
            sample_rate: DEFAULT_SAMPLE_RATE,
            chunk_ms: DEFAULT_CHUNK_MS,
            output_dir,
            auto_record: false,
        };
        let running: Settings = settings.copy();
        MeetingListener {
            platform,
            settings,
            running,
            handlers: Vec::new(),
            in_meeting: false,
            app: String::new(),
            recording: false,
            monitor: None,
            session: 0,
        }
    }

    /// Sets the PCM sample rate, from the next start on.
    pub fn sample_rate(&mut self, hz: u32) -> (listener: &mut Self)
        ensures
            listener@ == (ListenerView {
                settings: SettingsView { sample_rate: hz, ..old(self)@.settings },
                ..old(self)@
            }),
            *final(self) == *final(listener),
    {
        self.settings.sample_rate = hz;
        self
    }

    /// Sets the directory for the WAV files, from the next start on.
    pub fn output_dir(&mut self, dir: String) -> (listener: &mut Self)
        ensures
            listener@ == (ListenerView {
                settings: SettingsView { output_dir: dir@, ..old(self)@.settings },
                ..old(self)@
            }),
            *final(self) == *final(listener),
    {
        self.settings.output_dir = dir;
        self
    }

    /// Registers an event handler. All handlers receive every event, in the order
    /// in which they were registered.
    pub fn on(&mut self, handler: H) -> (listener: &mut Self)
        ensures
            listener@ == (ListenerView { handlers: old(self)@.handlers.push(handler), ..old(self)@
            }),
            *final(self) == *final(listener),
    {
        self.handlers.push(handler);
        self
    }

    /// Records every detected meeting, from the next start on.
    pub fn auto_record(&mut self) -> (listener: &mut Self)
        ensures
            listener@ == (ListenerView {
                settings: SettingsView { auto_record: true, ..old(self)@.settings },
                ..old(self)@
            }),
            *final(self) == *final(listener),
    {
        self.settings.auto_record = true;
        self
    }

    /// The handlers, in the order in which they were registered.
    pub fn handlers(&self) -> (handlers: &Vec<H>)
        ensures
            handlers@ == self@.handlers,
    {
        &self.handlers
    }

    /// The events that tell the state of the permissions, after the host has opened
    /// the system settings where Screen Recording is granted.
    pub fn request_permissions(
        &self,
        screen: PermissionGranted,
        microphone: PermissionGranted,
    ) -> (events: Vec<Event>)
        ensures
            crate::event::event_views(events@) == request_report(
                self@.platform,
                screen,
                microphone,
            ),
    {
        let mut events: Vec<Event> = status_events(self.platform, screen, microphone);
        if self.platform != Platform::MacOs || screen == PermissionGranted::Granted {
            events.push(Event::PermissionsGranted);
        }
        proof {
            assert(crate::event::event_views(events@) =~= request_report(
                self@.platform,
                screen,
                microphone,
            ));
        }
        events
    }

    /// Starts monitoring. Returns the events to emit, before anything else happens,
    /// and whether the listener was started; one that is started already stays as
    /// it is.
    pub fn start(
        &mut self,
        screen: PermissionGranted,
        microphone: PermissionGranted,
    ) -> (result: (Vec<Event>, Result<u64, Error>))
        requires
            old(self)@.wf(),
        ensures
            final(self)@.wf(),
            crate::event::event_views(result.0@) == start_report(
                old(self)@.platform,
                screen,
                microphone,
            ),
            match result.1 {
                Ok(session) => {
                    &&& old(self)@.monitor is None
                    &&& session == crate::monitor::token_after(old(self)@.session)
                    &&& final(self)@ == (ListenerView {
                        monitor: Some(
                            crate::monitor::MonitorView {
                                started: true,
                                ..crate::monitor::MonitorView::idle(old(self)@.platform)
                            },
                        ),
                        session,
                        running: old(self)@.settings,
                        ..old(self)@
                    })
                },
                Err(e) => {
                    &&& old(self)@.monitor is Some
                    &&& e == Error::AlreadyStarted
                    &&& final(self)@ == old(self)@
                },
            },
    {
        let mut events: Vec<Event> = status_events(self.platform, screen, microphone);
        if self.platform != Platform::MacOs || (screen == PermissionGranted::Granted && microphone
            == PermissionGranted::Granted) {
            events.push(Event::PermissionsGranted);
        }
        proof {
            assert(crate::event::event_views(events@) =~= start_report(
                self@.platform,
                screen,
                microphone,
            ));
        }
        if self.monitor.is_some() {
            return (events, Err(Error::AlreadyStarted));
        }
        let mut monitor: Monitor = Monitor::new(self.platform);
        match monitor.start() {
            Ok(_) => {
                let session: u64 = if self.session == u64::MAX {
                    0
                } else {
                    self.session + 1
                };
                self.session = session;
                self.running = self.settings.copy();
                self.monitor = Some(monitor);
                (events, Ok(session))
            },
            Err(e) => (events, Err(e)),
        }
    }

    /// Stops monitoring and cancels any active recording. Returns what the host has
    /// to end.
    pub fn stop(&mut self) -> (stopped: Stopped)
        requires
            old(self)@.wf(),
        ensures
            final(self)@.wf(),
            final(self)@ == (ListenerView { monitor: None, recording: false, ..old(self)@ }),
            stopped.capture == old(self)@.recording,
            stopped.watchers == (old(self)@.monitor matches Some(m) && m.watching),
    {
        let capture: bool = self.recording;
        self.recording = false;
        let taken: Option<Monitor> = self.monitor.take();
        let watchers: bool = match taken {
            Some(m) => {
                let mut m: Monitor = m;
                m.stop()
            },
            None => false,
        };
        Stopped { watchers, capture }
    }

    /// Whether the listener is still started by the start with this number.
    pub fn is_active(&self, session: u64) -> (active: bool)
        ensures
            active == self@.active(session),
    {
        self.monitor.is_some() && self.session == session
    }

    /// Takes in what the monitor has noticed.
    fn on_detection(&mut self, detection: Option<Detection>) -> (actions: Vec<Action>)
        ensures
            final(self)@ == old(self)@.detected(crate::event::opt_detection(detection)),
            action_views(actions@) == old(self)@.detected_actions(
                crate::event::opt_detection(detection),
            ),
    {
        let mut actions: Vec<Action> = Vec::new();
        let ghost before = self@;
        let ghost det = crate::event::opt_detection(detection);
        match detection {
            Some(d) => match d.kind {
                DetectionKind::Started => {
                    self.in_meeting = true;
                    self.app = d.app.clone();
                    actions.push(Action::Emit(Event::MeetingDetected { app: d.app, pid: d.pid }));
                    actions.push(Action::AutoRecord);
                },
                DetectionKind::Updated => match d.title {
                    Some(title) => {
                        actions.push(Action::Emit(Event::MeetingUpdated { app: d.app, title }));
                    },
                    None => {},
                },
                DetectionKind::Ended => {
                    let capture: bool = self.recording;
                    self.recording = false;
                    self.in_meeting = false;
                    actions.push(Action::Emit(Event::MeetingEnded { app: d.app }));
                    if capture {
                        actions.push(Action::StopCapture);
                    }
                },
                DetectionKind::SpeakerChanged => {
                    actions.push(
                        Action::Emit(Event::SpeakerChanged { speakers: d.speakers, app: d.app }),
                    );
                },
            },
            None => {},
        }
        proof {
            assert(action_views(actions@) =~= before.detected_actions(det));
        }
        actions
    }

    /// Takes in one poll of the microphone. Returns the timer to start.
    pub fn poll(&mut self, session: u64, pid: u32, app: String) -> (timer: Option<TimerRequest>)
        requires
            old(self)@.wf(),
        ensures
            final(self)@.wf(),
            old(self)@.active(session) ==> {
                &&& final(self)@ == old(self)@.after(ListenerInput::Poll { pid, app: app@ })
                &&& timer == old(self)@.monitor->0.poll_timer(pid)
            },
            !old(self)@.active(session) ==> final(self)@ == old(self)@ && timer is None,
    {
        if self.session != session {
            return None;
        }
        let taken: Option<Monitor> = self.monitor.take();
        match taken {
            Some(m) => {
                let mut m: Monitor = m;
                let timer: Option<TimerRequest> = m.poll(pid, app);
                self.monitor = Some(m);
                timer
            },
            None => None,
        }
    }

    /// Takes in that the sustain timer with this token has run out.
    pub fn sustain_expired(&mut self, session: u64, token: u64) -> (turn: Turn)
        requires
            old(self)@.wf(),
        ensures
            final(self)@.wf(),
            old(self)@.active(session) ==> {
                let input = ListenerInput::SustainExpired { token };
                &&& final(self)@ == old(self)@.after(input)
                &&& action_views(turn.actions@) == old(self)@.actions_after(input)
                &&& turn.watch@ == old(self)@.watch_after(input)
            },
            !old(self)@.active(session) ==> {
                &&& final(self)@ == old(self)@
                &&& turn.actions@.len() == 0
                &&& turn.watch@ == crate::monitor::WatchView::Unchanged
            },
    {
        if self.session != session {
            return Turn { watch: Watch::Unchanged, actions: Vec::new() };
        }
        let taken: Option<Monitor> = self.monitor.take();
        match taken {
            Some(m) => {
                let mut m: Monitor = m;
                let outcome: Outcome = m.fire_started(token);
                self.monitor = Some(m);
                let actions: Vec<Action> = self.on_detection(outcome.detection);
                Turn { watch: outcome.watch, actions }
            },
            None => Turn { watch: Watch::Unchanged, actions: Vec::new() },
        }
    }

    /// Takes in that the grace timer with this token has run out.
    pub fn grace_expired(&mut self, session: u64, token: u64) -> (turn: Turn)
        requires
            old(self)@.wf(),
        ensures
            final(self)@.wf(),
            old(self)@.active(session) ==> {
                let input = ListenerInput::GraceExpired { token };
                &&& final(self)@ == old(self)@.after(input)
                &&& action_views(turn.actions@) == old(self)@.actions_after(input)
                &&& turn.watch@ == old(self)@.watch_after(input)
            },
            !old(self)@.active(session) ==> {
                &&& final(self)@ == old(self)@
                &&& turn.actions@.len() == 0
                &&& turn.watch@ == crate::monitor::WatchView::Unchanged
            },
    {
        if self.session != session {
            return Turn { watch: Watch::Unchanged, actions: Vec::new() };
        }
        let taken: Option<Monitor> = self.monitor.take();
        match taken {
            Some(m) => {
                let mut m: Monitor = m;
                let outcome: Outcome = m.grace_expired(token);
                self.monitor = Some(m);
                let actions: Vec<Action> = self.on_detection(outcome.detection);
                Turn { watch: outcome.watch, actions }
            },
            None => Turn { watch: Watch::Unchanged, actions: Vec::new() },
        }
    }

    /// Takes in that the window of the meeting was closed.
    pub fn window_closed(&mut self, session: u64) -> (turn: Turn)
        requires
            old(self)@.wf(),
        ensures
            final(self)@.wf(),
            old(self)@.active(session) ==> {
                let input = ListenerInput::WindowClosed;
                &&& final(self)@ == old(self)@.after(input)
                &&& action_views(turn.actions@) == old(self)@.actions_after(input)
                &&& turn.watch@ == old(self)@.watch_after(input)
            },
            !old(self)@.active(session) ==> {
                &&& final(self)@ == old(self)@
                &&& turn.actions@.len() == 0
                &&& turn.watch@ == crate::monitor::WatchView::Unchanged
            },
    {
        if self.session != session {
            return Turn { watch: Watch::Unchanged, actions: Vec::new() };
        }
        let taken: Option<Monitor> = self.monitor.take();
        match taken {
            Some(m) => {
                let mut m: Monitor = m;
                let outcome: Outcome = m.fire_ended();
                self.monitor = Some(m);
                let actions: Vec<Action> = self.on_detection(outcome.detection);
                Turn { watch: outcome.watch, actions }
            },
            None => Turn { watch: Watch::Unchanged, actions: Vec::new() },
        }
    }

    /// Takes in that the window of the meeting of `app` was identified by its
    /// title.
    pub fn window_identified(&mut self, session: u64, app: String, title: String) -> (actions: Vec<
        Action,
    >)
        requires
            old(self)@.wf(),
        ensures
            final(self)@.wf(),
            final(self)@ == old(self)@,
            old(self)@.active(session) ==> {
                let input = ListenerInput::WindowIdentified { app: app@, title: title@ };
                &&& final(self)@ == old(self)@.after(input)
                &&& action_views(actions@) == old(self)@.actions_after(input)
            },
            !old(self)@.active(session) ==> actions@.len() == 0,
    {
        let mut detection: Option<Detection> = None;
        if self.session == session {
            if let Some(m) = &self.monitor {
                detection = m.fire_updated(app, title);
            }
        }
        let actions: Vec<Action> = self.on_detection(detection);
        proof {
            assert(action_views(actions@).len() == actions@.len());
        }
        actions
    }

    /// Takes in that other participants of the meeting of `app` are speaking than
    /// before.
    pub fn speakers_changed(&mut self, session: u64, app: String, speakers: Vec<String>) -> (
    actions: Vec<Action>)
        requires
            old(self)@.wf(),
        ensures
            final(self)@.wf(),
            final(self)@ == old(self)@,
            old(self)@.active(session) ==> {
                let input = ListenerInput::SpeakersChanged {
                app: app@,
                speakers: crate::text::texts(speakers@),
            };
                &&& final(self)@ == old(self)@.after(input)
                &&& action_views(actions@) == old(self)@.actions_after(input)
            },
            !old(self)@.active(session) ==> actions@.len() == 0,
    {
        let mut detection: Option<Detection> = None;
        if self.session == session {
            if let Some(m) = &self.monitor {
                detection = m.fire_speakers(app, speakers);
            }
        }
        let actions: Vec<Action> = self.on_detection(detection);
        proof {
            assert(action_views(actions@).len() == actions@.len());
        }
        actions
    }

    /// The settings in effect.
    fn effective(&self) -> (settings: &Settings)
        ensures
            settings@ == self@.in_effect(),
    {
        if self.monitor.is_some() {
            &self.running
        } else {
            &self.settings
        }
    }

    /// What a request to record needs once the permissions are there.
    fn begin_capture(&self) -> (next: RecordNext)
        ensures
            next@ == self@.begin_capture(),
    {
        if self.in_meeting && !self.recording {
            let settings: &Settings = self.effective();
            RecordNext::StartTap {
                sample_rate: settings.sample_rate,
                chunk_ms: settings.chunk_ms,
            }
        } else {
            RecordNext::Done
        }
    }

    /// Asks for a recording of the current meeting. Returns what that needs first:
    /// nothing where no meeting is active or a recording is already running.
    pub fn record(&self) -> (next: RecordNext)
        ensures
            next@ == self@.record_first(),
    {
        if !self.in_meeting || self.recording {
            return RecordNext::Done;
        }
        if self.platform == Platform::MacOs {
            RecordNext::CheckScreen
        } else {
            self.begin_capture()
        }
    }

    /// Asks for a recording of the current meeting if every meeting is to be
    /// recorded.
    pub fn auto_record_due(&self) -> (next: RecordNext)
        ensures
            next@ == if self@.in_effect().auto_record {
                self@.record_first()
            } else {
                RecordNextView::Done
            },
    {
        if self.effective().auto_record {
            self.record()
        } else {
            RecordNext::Done
        }
    }

    /// Takes in what came of what a request to record needed. Returns the events to
    /// emit and what it needs next.
    pub fn record_next(&mut self, reply: RecordReply) -> (turn: RecordTurn)
        requires
            old(self)@.wf(),
            reply is MicStarted ==> old(self)@.can_record(),
        ensures
            final(self)@.wf(),
            final(self)@ == old(self)@.replied(reply),
            crate::event::event_views(turn.events@) == old(self)@.record_events(reply),
            turn.next@ == old(self)@.record_then(reply),
    {
        let mut events: Vec<Event> = Vec::new();
        let ghost before = self@;
        let ghost answer = reply;
        let next: RecordNext = match reply {
            RecordReply::ScreenChecked(status) => {
                if status == PermissionGranted::Denied {
                    events.push(
                        Event::PermissionStatus { permission: Permission::ScreenCapture, status },
                    );
                    events.push(
                        Event::Error {
                            message:
                                "Screen Recording access required — call request_permissions() to open System Settings, grant access, then restart the listener".to_owned(),
                        },
                    );
                    RecordNext::Done
                } else {
                    RecordNext::CheckMicrophone
                }
            },
            RecordReply::MicrophoneChecked(status) => match status {
                PermissionGranted::Granted => self.begin_capture(),
                PermissionGranted::NotRequested => RecordNext::RequestMicrophone,
                PermissionGranted::Denied => {
                    events.push(
                        Event::PermissionStatus { permission: Permission::Microphone, status },
                    );
                    events.push(
                        Event::Error {
                            message:
                                "Microphone access denied — grant permission in System Settings > Privacy > Microphone".to_owned(),
                        },
                    );
                    RecordNext::Done
                },
            },
            RecordReply::MicrophoneAnswered(status) => {
                events.push(Event::PermissionStatus { permission: Permission::Microphone, status });
                if status == PermissionGranted::Granted {
                    self.begin_capture()
                } else {
                    events.push(
                        Event::Error {
                            message:
                                "Microphone access denied — grant permission in System Settings > Privacy > Microphone".to_owned(),
                        },
                    );
                    RecordNext::Done
                }
            },
            RecordReply::TapStarted => {
                let settings: &Settings = self.effective();
                RecordNext::StartMic {
                    sample_rate: settings.sample_rate,
                    chunk_ms: settings.chunk_ms,
                }
            },
            RecordReply::TapFailed(e) => {
                events.push(Event::Error { message: e.message() });
                RecordNext::Done
            },
            RecordReply::MicStarted { secs } => {
                self.recording = true;
                events.push(Event::RecordingStarted { app: self.app.clone() });
                let settings: &Settings = self.effective();
                RecordNext::Capture(
                    RecordingPlan {
                        app: self.app.clone(),
                        sample_rate: settings.sample_rate,
                        paths: recording_paths(settings.output_dir.as_str(), secs),
                    },
                )
            },
            RecordReply::MicFailed(e) => {
                events.push(Event::Error { message: e.message() });
                RecordNext::StopTap
            },
        };
        proof {
            assert(crate::event::event_views(events@) =~= before.record_events(answer));
        }
        RecordTurn { events, next }
    }
}

/// The event that tells that the capture of a recording has ended.
pub open spec fn ended_event(plan: PlanView) -> crate::event::EventView {
    crate::event::EventView::RecordingEnded { app: plan.app }
}

/// The event that tells whether the files of a recording were written.
pub open spec fn written_event(plan: PlanView, written: bool) -> crate::event::EventView {
    if written {
        crate::event::EventView::RecordingReady {
            mixed_path: plan.paths.mixed_path,
            others_path: plan.paths.others_path,
            self_path: plan.paths.self_path,
            app: plan.app,
        }
    } else {
        error_event(write_failed_text())
    }
}

/// A file to write.
#[derive(Debug, Clone, PartialEq, Eq)]
pub struct WavFile {
    pub path: String,
    pub bytes: Vec<u8>,
}

/// A recording whose capture has ended: the event to emit, and then the files to
/// write.
#[derive(Debug, Clone, PartialEq, Eq)]
pub struct Finished {
    pub event: Event,
    pub files: Vec<WavFile>,
}

/// The file holds these samples and goes there.
pub open spec fn holds(file: WavFile, path: Seq<char>, pcm: Seq<i16>, sample_rate: u32) -> bool {
    file.path@ == path && file.bytes@ == crate::wav::wav_file(pcm, sample_rate as nat)
}

/// Takes in the samples of the two streams of a recording after both have ended.
/// Where nothing was captured there is nothing to write; otherwise there are three
/// files, with what the others said, what the local user said, and everything.
pub fn finish_recording(plan: &RecordingPlan, others: &Vec<i16>, own: &Vec<i16>) -> (finished:
    Option<Finished>)
    requires
        crate::wav::encodable(others@.len(), plan.sample_rate as nat),
        crate::wav::encodable(own@.len(), plan.sample_rate as nat),
    ensures
        finished is None <==> others@.len() == 0 && own@.len() == 0,
        finished matches Some(f) ==> {
            let rate = plan.sample_rate;
            &&& f.event@ == ended_event(plan@)
            &&& f.files@.len() == 3
            &&& holds(f.files@[0], plan.paths.others_path@, others@, rate)
            &&& holds(f.files@[1], plan.paths.self_path@, own@, rate)
            &&& holds(
                f.files@[2],
                plan.paths.mixed_path@,
                crate::mix::mixed(others@, own@),
                rate,
            )
        },
{
    if others.len() == 0 && own.len() == 0 {
        return None;
    }
    let mixed: Vec<i16> = mix_pcm(others.as_slice(), own.as_slice());
    let mut files: Vec<WavFile> = Vec::new();
    files.push(
        WavFile {
            path: plan.paths.others_path.clone(),
            bytes: wav_bytes(others, plan.sample_rate),
        },
    );
    files.push(
        WavFile { path: plan.paths.self_path.clone(), bytes: wav_bytes(own, plan.sample_rate) },
    );
    files.push(
        WavFile { path: plan.paths.mixed_path.clone(), bytes: wav_bytes(&mixed, plan.sample_rate) },
    );
    Some(Finished { event: Event::RecordingEnded { app: plan.app.clone() }, files })
}

/// Takes in whether each of the three files of a recording was written. Returns
/// the event to emit.
pub fn files_written(
    plan: &RecordingPlan,
    others_ok: bool,
    self_ok: bool,
    mixed_ok: bool,
) -> (event: Event)
    ensures
        event@ == written_event(plan@, others_ok && self_ok && mixed_ok),
{
    if others_ok && self_ok && mixed_ok {
        Event::RecordingReady {
            mixed_path: plan.paths.mixed_path.clone(),
            others_path: plan.paths.others_path.clone(),
            self_path: plan.paths.self_path.clone(),
            app: plan.app.clone(),
        }
    } else {
        Event::Error { message: "failed to write WAV files".to_owned() }
    }
}

/// A file of a recording gives back the samples that it was made of: mono, 16 bits,
/// at the sample rate of the recording.
pub proof fn law_file_reads_back(file: WavFile, path: Seq<char>, pcm: Seq<i16>, sample_rate: u32)
    requires
        holds(file, path, pcm, sample_rate),
        2 * pcm.len() + 36 <= u32::MAX,
        sample_rate * 2 <= u32::MAX,
    ensures
        crate::wav::read_wav(file.bytes@) == Some(
            crate::wav::WavView {
                channels: 1,
                sample_rate: sample_rate as nat,
                byte_rate: sample_rate as nat * 2,
                block_align: 2,
                bits_per_sample: 16,
                samples: pcm,
            },
        ),
{
    crate::wav::law_wav_reads_back(pcm, sample_rate as nat);
}

/// A new listener records 16000 samples a second, takes in 200 milliseconds at a time, and
/// does neither record by itself nor anything else yet.
pub proof fn law_new_listener<H>(platform: Platform, dir: Seq<char>)
    ensures
        ({
            let l = ListenerView::<H>::idle(platform, dir);
            &&& l.platform == platform
            &&& l.settings.sample_rate == 16000
            &&& l.settings.chunk_ms == 200
            &&& l.settings.output_dir == dir
            &&& !l.settings.auto_record
            &&& l.running == l.settings
            &&& l.handlers.len() == 0
            &&& !l.in_meeting
            &&& l.app.len() == 0
            &&& !l.recording
            &&& l.monitor is None
            &&& l.session == 0
        }),
{
}

/// On macOS the status of Screen Recording is told, then that of the microphone, and
/// elsewhere neither. That all is granted comes last: at the start where both are, and after
/// a request where Screen Recording is.
pub proof fn law_permissions_are_told(screen: PermissionGranted, microphone: PermissionGranted)
    ensures
        ({
            let told = seq![
                crate::event::EventView::PermissionStatus {
                    permission: Permission::ScreenCapture,
                    status: screen,
                },
                crate::event::EventView::PermissionStatus {
                    permission: Permission::Microphone,
                    status: microphone,
                },
            ];
            let granted = seq![crate::event::EventView::PermissionsGranted];
            let screen_ok = screen == PermissionGranted::Granted;
            let microphone_ok = microphone == PermissionGranted::Granted;
            let at_start = start_report(Platform::MacOs, screen, microphone);
            let on_request = request_report(Platform::MacOs, screen, microphone);
            &&& screen_ok && microphone_ok ==> at_start == told + granted
            &&& !(screen_ok && microphone_ok) ==> at_start == told
            &&& screen_ok ==> on_request == told + granted
            &&& !screen_ok ==> on_request == told
            &&& start_report(Platform::Other, screen, microphone) == granted
            &&& request_report(Platform::Other, screen, microphone) == granted
        }),
{
    let told = seq![
        crate::event::EventView::PermissionStatus {
            permission: Permission::ScreenCapture,
            status: screen,
        },
        crate::event::EventView::PermissionStatus {
            permission: Permission::Microphone,
            status: microphone,
        },
    ];
    let granted = seq![crate::event::EventView::PermissionsGranted];
    assert(told.push(crate::event::EventView::PermissionsGranted) =~= told + granted);
    assert(Seq::<crate::event::EventView>::empty().push(crate::event::EventView::PermissionsGranted)
        =~= granted);
}

/// Each thing that is noticed is told as the event of its kind, with what was noticed. A new
/// meeting may be recorded after it was told, and the capture of one that is over is stopped
/// after that was told.
pub proof fn law_noticed_is_told<H>(l: ListenerView<H>, d: crate::event::DetectionView)
    ensures
        ({
            let actions = l.detected_actions(Some(d));
            &&& d.kind == DetectionKind::Started ==> {
                &&& actions.len() == 2
                &&& actions[0] == ActionView::Emit(
                    crate::event::EventView::MeetingDetected { app: d.app, pid: d.pid },
                )
                &&& actions[1] == ActionView::AutoRecord
            }
            &&& d.kind == DetectionKind::Updated && d.title is Some ==> {
                &&& actions.len() == 1
                &&& actions[0] == ActionView::Emit(
                    crate::event::EventView::MeetingUpdated { app: d.app, title: d.title->0 },
                )
            }
            &&& d.kind == DetectionKind::Updated && d.title is None ==> actions.len() == 0
            &&& d.kind == DetectionKind::Ended ==> {
                &&& actions.len() == if l.recording {
                    2nat
                } else {
                    1nat
                }
                &&& actions[0] == ActionView::Emit(
                    crate::event::EventView::MeetingEnded { app: d.app },
                )
                &&& l.recording ==> actions[1] == ActionView::StopCapture
            }
            &&& d.kind == DetectionKind::SpeakerChanged ==> {
                &&& actions.len() == 1
                &&& actions[0] == ActionView::Emit(
                    crate::event::EventView::SpeakerChanged { speakers: d.speakers, app: d.app },
                )
            }
        }),
        l.detected_actions(None).len() == 0,
{
}

/// The listener is in a meeting from when one was noticed until its end was, and in the one
/// that was noticed last. With the meeting a recording is over. Nothing else changes.
pub proof fn law_noticed_changes_the_meeting<H>(l: ListenerView<H>, d: crate::event::DetectionView)
    ensures
        ({
            let after = l.detected(Some(d));
            &&& d.kind == DetectionKind::Started ==> after.in_meeting && after.app == d.app
                && after.recording == l.recording
            &&& d.kind == DetectionKind::Ended ==> !after.in_meeting && !after.recording && after.app
                == l.app
            &&& d.kind == DetectionKind::Updated || d.kind == DetectionKind::SpeakerChanged
                ==> after == l
            &&& after.platform == l.platform
            &&& after.settings == l.settings
            &&& after.running == l.running
            &&& after.handlers == l.handlers
            &&& after.monitor == l.monitor
            &&& after.session == l.session
        }),
        l.detected(None) == l,
{
}

/// What happens to a started listener reaches its monitor: timers and a closed window
/// change it and its watchers, the title and the speakers only tell something.
pub proof fn law_monitor_is_told<H>(
    l: ListenerView<H>,
    pid: u32,
    token: u64,
    app: Seq<char>,
    title: Seq<char>,
    speakers: Seq<Seq<char>>,
)
    requires
        l.monitor is Some,
    ensures
        ({
            let m = l.monitor->0;
            let poll = ListenerInput::Poll { pid, app };
            let sustained = ListenerInput::SustainExpired { token };
            let silent = ListenerInput::GraceExpired { token };
            let closed = ListenerInput::WindowClosed;
            let identified = ListenerInput::WindowIdentified { app, title };
            let changed = ListenerInput::SpeakersChanged { app, speakers };
            &&& l.noticed(poll) is None
            &&& l.after(poll).monitor == Some(m.polled(pid, app))
            &&& l.watch_after(poll) is Unchanged
            &&& l.noticed(sustained) == m.sustained_detection(token)
            &&& l.after(sustained).monitor == Some(m.sustained(token))
            &&& l.watch_after(sustained) == m.sustained_watch(token)
            &&& m.end_timer == Some(token) ==> {
                &&& l.noticed(silent) == m.ended_detection()
                &&& l.after(silent).monitor == Some(m.ended())
                &&& l.watch_after(silent) == m.ended_watch()
            }
            &&& m.end_timer != Some(token) ==> {
                &&& l.noticed(silent) is None
                &&& l.after(silent).monitor == Some(m)
                &&& l.watch_after(silent) is Unchanged
            }
            &&& l.noticed(closed) == m.ended_detection()
            &&& l.after(closed).monitor == Some(m.ended())
            &&& l.watch_after(closed) == m.ended_watch()
            &&& l.noticed(identified) == m.updated_detection(app, title)
            &&& l.after(identified) == l
            &&& l.watch_after(identified) is Unchanged
            &&& l.noticed(changed) == m.speakers_detection(app, speakers)
            &&& l.after(changed) == l
            &&& l.watch_after(changed) is Unchanged
        }),
{
}

/// A request to record is answered where there is a meeting that is not being recorded: on
/// macOS it asks for the permissions first, elsewhere it starts the audio at once.
pub proof fn law_record_starts<H>(l: ListenerView<H>)
    ensures
        !l.in_meeting || l.recording ==> l.record_first() is Done,
        l.in_meeting && !l.recording && l.platform == Platform::MacOs ==> l.record_first()
            is CheckScreen,
        l.in_meeting && !l.recording && l.platform == Platform::Other ==> {
            &&& l.record_first() is StartTap
            &&& l.record_first()->StartTap_sample_rate == l.in_effect().sample_rate
            &&& l.record_first()->StartTap_chunk_ms == l.in_effect().chunk_ms
        },
{
}

/// The settings that count are those of the last start while the listener is started, and
/// those made last otherwise.
pub proof fn law_settings_in_effect<H>(l: ListenerView<H>, session: u64)
    ensures
        l.monitor is Some ==> l.in_effect() == l.running,
        l.monitor is None ==> l.in_effect() == l.settings,
        l.active(session) <==> l.monitor is Some && l.session == session,
{
}

/// Without Screen Recording nothing is recorded, and why is told; with it, or where nobody
/// was asked yet, the microphone comes next.
pub proof fn law_screen_permission<H>(l: ListenerView<H>, status: PermissionGranted)
    ensures
        ({
            let reply = RecordReply::ScreenChecked(status);
            let denied = status == PermissionGranted::Denied;
            &&& denied ==> l.record_then(reply) is Done && l.record_events(reply) == seq![
                crate::event::EventView::PermissionStatus {
                    permission: Permission::ScreenCapture,
                    status: PermissionGranted::Denied,
                },
                crate::event::EventView::Error {
                    message:
                        "Screen Recording access required — call request_permissions() to open System Settings, grant access, then restart the listener"@,
                },
            ]
            &&& !denied ==> l.record_then(reply) is CheckMicrophone && l.record_events(reply).len()
                == 0
            &&& l.replied(reply) == l
        }),
{
}

/// With the microphone granted the audio is started, where nobody was asked yet that is
/// asked for, and where it is denied nothing is recorded and why is told. The answer to the
/// dialog is told in any case.
pub proof fn law_microphone_permission<H>(l: ListenerView<H>, status: PermissionGranted)
    ensures
        ({
            let checked = RecordReply::MicrophoneChecked(status);
            let answered = RecordReply::MicrophoneAnswered(status);
            let told = crate::event::EventView::PermissionStatus {
                permission: Permission::Microphone,
                status,
            };
            let failed = crate::event::EventView::Error {
                message:
                    "Microphone access denied — grant permission in System Settings > Privacy > Microphone"@,
            };
            let granted = status == PermissionGranted::Granted;
            let starts = l.in_meeting && !l.recording;
            &&& granted && starts ==> l.record_then(checked) is StartTap && l.record_then(answered)
                is StartTap
            &&& granted && !starts ==> l.record_then(checked) is Done && l.record_then(answered)
                is Done
            &&& granted ==> l.record_events(checked).len() == 0 && l.record_events(answered)
                == seq![told]
            &&& status == PermissionGranted::NotRequested ==> {
                &&& l.record_then(checked) is RequestMicrophone
                &&& l.record_events(checked).len() == 0
            }
            &&& status == PermissionGranted::Denied ==> {
                &&& l.record_then(checked) is Done
                &&& l.record_events(checked) == seq![told, failed]
            }
            &&& !granted ==> {
                &&& l.record_then(answered) is Done
                &&& l.record_events(answered) == seq![told, failed]
            }
            &&& l.replied(checked) == l
            &&& l.replied(answered) == l
        }),
{
}

/// The microphone follows the system's audio, at the same rate; once both run the recording
/// is told as started and is captured. Where one of them fails that is told with its reason,
/// and the system's audio does not stay behind.
pub proof fn law_audio_is_started<H>(l: ListenerView<H>, secs: u64, e: Error)
    ensures
        ({
            let next = l.record_then(RecordReply::TapStarted);
            &&& next is StartMic
            &&& next->StartMic_sample_rate == l.in_effect().sample_rate
            &&& next->StartMic_chunk_ms == l.in_effect().chunk_ms
            &&& l.record_events(RecordReply::TapStarted).len() == 0
            &&& l.replied(RecordReply::TapStarted) == l
        }),
        ({
            let started = RecordReply::MicStarted { secs };
            let next = l.record_then(started);
            &&& next is Capture
            &&& next->Capture_0.app == l.app
            &&& next->Capture_0.sample_rate == l.in_effect().sample_rate
            &&& next->Capture_0.paths == crate::paths::paths_of(
                l.in_effect().output_dir,
                secs as nat,
            )
            &&& l.record_events(started) == seq![
                crate::event::EventView::RecordingStarted { app: l.app },
            ]
            &&& l.replied(started).recording
            &&& l.replied(started) == (ListenerView { recording: true, ..l })
        }),
        ({
            let failed = seq![crate::event::EventView::Error { message: crate::event::error_text(e) }];
            &&& l.record_then(RecordReply::TapFailed(e)) is Done
            &&& l.record_events(RecordReply::TapFailed(e)) == failed
            &&& l.replied(RecordReply::TapFailed(e)) == l
            &&& l.record_then(RecordReply::MicFailed(e)) is StopTap
            &&& l.record_events(RecordReply::MicFailed(e)) == failed
            &&& l.replied(RecordReply::MicFailed(e)) == l
        }),
{
}

/// The end of a capture is told with the application, and then where its files are, each
/// with what it holds; or else that they could not be written.
pub proof fn law_recording_is_told(plan: PlanView)
    ensures
        ended_event(plan) == (crate::event::EventView::RecordingEnded { app: plan.app }),
        ({
            let ready = written_event(plan, true);
            &&& ready is RecordingReady
            &&& ready->mixed_path == plan.paths.mixed_path
            &&& ready->others_path == plan.paths.others_path
            &&& ready->self_path == plan.paths.self_path
            &&& ready->RecordingReady_app == plan.app
        }),
        written_event(plan, false) == (crate::event::EventView::Error {
            message: "failed to write WAV files"@,
        }),
{
}

/// What is said of a plan, an action and what a request needs is what they hold.
pub proof fn law_requests_say_what_they_hold(
    plan: RecordingPlan,
    actions: Seq<Action>,
    next: RecordNext,
)
    ensures
        plan@.app == plan.app@,
        plan@.sample_rate == plan.sample_rate,
        plan@.paths == plan.paths@,
        action_views(actions).len() == actions.len(),
        forall|i: int|
            0 <= i < actions.len() ==> {
                let said = #[trigger] action_views(actions)[i];
                &&& actions[i] is Emit <==> said is Emit
                &&& actions[i] is Emit ==> said->0 == actions[i]->0@
                &&& actions[i] is AutoRecord <==> said is AutoRecord
                &&& actions[i] is StopCapture <==> said is StopCapture
            },
        next is Done <==> next@ is Done,
        next is StopTap <==> next@ is StopTap,
        next is CheckScreen <==> next@ is CheckScreen,
        next is CheckMicrophone <==> next@ is CheckMicrophone,
        next is RequestMicrophone <==> next@ is RequestMicrophone,
        next is StartTap <==> next@ is StartTap,
        next is StartTap ==> next@->StartTap_sample_rate == next->StartTap_sample_rate
            && next@->StartTap_chunk_ms == next->StartTap_chunk_ms,
        next is StartMic <==> next@ is StartMic,
        next is StartMic ==> next@->StartMic_sample_rate == next->StartMic_sample_rate
            && next@->StartMic_chunk_ms == next->StartMic_chunk_ms,
        next is Capture <==> next@ is Capture,
        next is Capture ==> next@->Capture_0 == next->Capture_0@,
{
}

/// A file that holds samples lies where it is said to, and holds nothing else: two files
/// that hold the same at the same rate are alike, and what is read of one are the samples.
pub proof fn law_file_is_where_it_is_said(
    file: WavFile,
    path: Seq<char>,
    pcm: Seq<i16>,
    sample_rate: u32,
)
    requires
        holds(file, path, pcm, sample_rate),
        2 * pcm.len() + 36 <= u32::MAX,
        sample_rate * 2 <= u32::MAX,
    ensures
        file.path@ == path,
        file.bytes@.len() == 44 + 2 * pcm.len(),
        crate::wav::header_bytes(file.bytes@, 2 * pcm.len(), sample_rate as nat),
{
    crate::wav::law_header_byte_by_byte(pcm, sample_rate as nat);
}

} // verus!
