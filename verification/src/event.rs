//! The events that a listener emits, the errors it reports, and the detections
//! that lead to events.
use vstd::prelude::*;
use vstd::string::*;

use crate::text::decimal_text;

verus! {

/// Which macOS system permission is being reported.
#[derive(Debug, Clone, Copy, PartialEq, Eq, Structural)]
pub enum Permission {
    /// Microphone access: required to capture local microphone audio.
    Microphone,
    /// Screen Recording: required for the system audio tap (macOS 14.2+).
    ScreenCapture,
    /// Accessibility: required by some meeting detection methods.
    Accessibility,
}

/// The current grant status of a permission.
#[derive(Debug, Clone, Copy, PartialEq, Eq, Structural)]
pub enum PermissionGranted {
    /// The permission has been explicitly granted.
    Granted,
    /// The user has not been prompted yet; the system dialog will appear.
    NotRequested,
    /// The user explicitly denied the permission.
    Denied,
}

/// Which media stream a capture status refers to.
#[derive(Debug, Clone, Copy, PartialEq, Eq, Structural)]
pub enum CaptureKind {
    Audio,
    Video,
}

/// All events emitted by a listener.
///
/// Lifecycle order for a recorded meeting:
/// ```text
/// PermissionStatus x N  (macOS only, on start)
/// PermissionsGranted
/// MeetingDetected       (meeting begins)
/// MeetingUpdated        (title becomes known via window scan)
/// RecordingStarted      (if recording was asked for)
/// MeetingEnded          (meeting stops)
/// RecordingEnded        (capture stopped, WAV files being written)
/// RecordingReady        (WAV files written to disk)
/// ```
#[derive(Debug, Clone, PartialEq, Eq)]
pub enum Event {
    /// Status of an individual permission. macOS only.
    PermissionStatus { permission: Permission, status: PermissionGranted },
    /// All required permissions are granted; recording can proceed.
    PermissionsGranted,
    /// A meeting was detected.
    MeetingDetected { app: String, pid: u32 },
    /// The window title of the meeting became known.
    MeetingUpdated { app: String, title: String },
    /// The meeting has ended.
    MeetingEnded { app: String },
    /// Audio capture has begun.
    RecordingStarted { app: String },
    /// Audio capture has stopped; the WAV files are being written.
    RecordingEnded { app: String },
    /// The three WAV files of a recording are on disk: everything, what the
    /// others said, and what the local user said.
    RecordingReady { mixed_path: String, others_path: String, self_path: String, app: String },
    /// The audio or video capture stream was interrupted or resumed.
    CaptureStatus { kind: CaptureKind, capturing: bool },
    /// Something went wrong.
    Error { message: String },
    /// The set of participants seen to be speaking changed; none means silence.
    SpeakerChanged { speakers: Vec<String>, app: String },
}

/// What an event says, its texts taken as sequences of characters.
pub enum EventView {
    PermissionStatus { permission: Permission, status: PermissionGranted },
    PermissionsGranted,
    MeetingDetected { app: Seq<char>, pid: u32 },
    MeetingUpdated { app: Seq<char>, title: Seq<char> },
    MeetingEnded { app: Seq<char> },
    RecordingStarted { app: Seq<char> },
    RecordingEnded { app: Seq<char> },
    RecordingReady {
        mixed_path: Seq<char>,
        others_path: Seq<char>,
        self_path: Seq<char>,
        app: Seq<char>,
    },
    CaptureStatus { kind: CaptureKind, capturing: bool },
    Error { message: Seq<char> },
    SpeakerChanged { speakers: Seq<Seq<char>>, app: Seq<char> },
}

impl View for Event {
    type V = EventView;

    open spec fn view(&self) -> EventView {
        match *self {
            Event::PermissionStatus { permission, status } => EventView::PermissionStatus {
                permission,
                status,
            },
            Event::PermissionsGranted => EventView::PermissionsGranted,
            Event::MeetingDetected { app, pid } => EventView::MeetingDetected { app: app@, pid },
            Event::MeetingUpdated { app, title } => EventView::MeetingUpdated {
                app: app@,
                title: title@,
            },
            Event::MeetingEnded { app } => EventView::MeetingEnded { app: app@ },
            Event::RecordingStarted { app } => EventView::RecordingStarted { app: app@ },
            Event::RecordingEnded { app } => EventView::RecordingEnded { app: app@ },
            Event::RecordingReady { mixed_path, others_path, self_path, app } =>
                EventView::RecordingReady {
                mixed_path: mixed_path@,
                others_path: others_path@,
                self_path: self_path@,
                app: app@,
            },
            Event::CaptureStatus { kind, capturing } => EventView::CaptureStatus {
                kind,
                capturing,
            },
            Event::Error { message } => EventView::Error { message: message@ },
            Event::SpeakerChanged { speakers, app } => EventView::SpeakerChanged {
                speakers: crate::text::texts(speakers@),
                app: app@,
            },
        }
    }
}

/// What each of a list of events says.
pub open spec fn event_views(events: Seq<Event>) -> Seq<EventView> {
    events.map_values(|e: Event| e@)
}

/// What goes wrong.
#[derive(Debug, Clone, PartialEq, Eq)]
pub enum Error {
    AlreadyStarted,
    PlatformInit(String),
    RecordingFailed(String),
    MacOSVersionTooOld { major: u32, minor: u32 },
    PermissionDenied,
    Other(String),
}

/// The text shown for an error.
pub open spec fn error_text(e: Error) -> Seq<char> {
    match e {
        Error::AlreadyStarted => "monitor already started"@,
        Error::PlatformInit(reason) => "platform init failed: "@ + reason@,
        Error::RecordingFailed(reason) => "recording failed: "@ + reason@,
        Error::MacOSVersionTooOld { major, minor } =>
            "macOS 14.2+ required for system audio tap (running "@ + crate::text::decimal(
            major as nat,
        ) + "."@ + crate::text::decimal(minor as nat) + ")"@,
        Error::PermissionDenied =>
            "permission denied — check Screen Recording / Microphone in System Settings"@,
        Error::Other(reason) => reason@,
    }
}

impl Error {
    /// The text shown for the error.
    pub fn message(&self) -> (out: String)
        ensures
            out@ == error_text(*self),
    {
        match self {
            Error::AlreadyStarted => "monitor already started".to_owned(),
            Error::PlatformInit(reason) => {
                let mut out: String = "platform init failed: ".to_owned();
                out.append(reason.as_str());
                out
            },
            Error::RecordingFailed(reason) => {
                let mut out: String = "recording failed: ".to_owned();
                out.append(reason.as_str());
                out
            },
            Error::MacOSVersionTooOld { major, minor } => {
                let mut out: String =
                    "macOS 14.2+ required for system audio tap (running ".to_owned();
                out.append(decimal_text(*major as u64).as_str());
                out.append(".");
                out.append(decimal_text(*minor as u64).as_str());
                out.append(")");
                out
            },
            Error::PermissionDenied =>
                "permission denied — check Screen Recording / Microphone in System Settings".to_owned(),
            Error::Other(reason) => reason.clone(),
        }
    }
}

/// What a monitor has noticed about the meeting.
#[derive(Debug, Clone, Copy, PartialEq, Eq, Structural)]
pub enum DetectionKind {
    Started,
    Updated,
    Ended,
    SpeakerChanged,
}

/// A notice from the monitor to the listener.
#[derive(Debug, Clone, PartialEq, Eq)]
pub struct Detection {
    pub kind: DetectionKind,
    pub app: String,
    /// The process that holds the microphone; set when `kind` is `Started`.
    pub pid: u32,
    /// The window title; set when `kind` is `Updated`.
    pub title: Option<String>,
    /// Who is speaking; set when `kind` is `SpeakerChanged`.
    pub speakers: Vec<String>,
}

/// What a detection says.
pub struct DetectionView {
    pub kind: DetectionKind,
    pub app: Seq<char>,
    pub pid: u32,
    pub title: Option<Seq<char>>,
    pub speakers: Seq<Seq<char>>,
}

impl View for Detection {
    type V = DetectionView;

    open spec fn view(&self) -> DetectionView {
        DetectionView {
            kind: self.kind,
            app: self.app@,
            pid: self.pid,
            title: crate::text::opt_string(self.title),
            speakers: crate::text::texts(self.speakers@),
        }
    }
}

/// What an optional detection says.
pub open spec fn opt_detection(d: Option<Detection>) -> Option<DetectionView> {
    match d {
        Some(d) => Some(d@),
        None => None,
    }
}

/// The platform that the listener runs on.
#[derive(Debug, Clone, Copy, PartialEq, Eq, Structural)]
pub enum Platform {
    MacOs,
    Other,
}

/// What is said of an event is what it holds.
pub proof fn law_event_says_what_it_holds(event: Event)
    ensures
        match event {
            Event::PermissionStatus { permission, status } => event@ == (
            EventView::PermissionStatus { permission, status }),
            Event::PermissionsGranted => event@ == EventView::PermissionsGranted,
            Event::MeetingDetected { app, pid } => event@ == (EventView::MeetingDetected {
                app: app@,
                pid,
            }),
            Event::MeetingUpdated { app, title } => event@ == (EventView::MeetingUpdated {
                app: app@,
                title: title@,
            }),
            Event::MeetingEnded { app } => event@ == (EventView::MeetingEnded { app: app@ }),
            Event::RecordingStarted { app } => event@ == (EventView::RecordingStarted {
                app: app@,
            }),
            Event::RecordingEnded { app } => event@ == (EventView::RecordingEnded { app: app@ }),
            Event::RecordingReady { mixed_path, others_path, self_path, app } => event@ == (
            EventView::RecordingReady {
                mixed_path: mixed_path@,
                others_path: others_path@,
                self_path: self_path@,
                app: app@,
            }),
            Event::CaptureStatus { kind, capturing } => event@ == (EventView::CaptureStatus {
                kind,
                capturing,
            }),
            Event::Error { message } => event@ == (EventView::Error { message: message@ }),
            Event::SpeakerChanged { speakers, app } => event@ == (EventView::SpeakerChanged {
                speakers: speakers@.map_values(|s: String| s@),
                app: app@,
            }),
        },
{
}

/// What is said of a list of events is what each of them says, in order; and what is said
/// of a detection is what it holds.
pub proof fn law_events_and_detections_say_what_they_hold(events: Seq<Event>, d: Detection)
    ensures
        event_views(events).len() == events.len(),
        forall|i: int| 0 <= i < events.len() ==> #[trigger] event_views(events)[i] == events[i]@,
        d@.kind == d.kind,
        d@.app == d.app@,
        d@.pid == d.pid,
        d.title matches Some(title) ==> d@.title == Some(title@),
        d.title is None ==> d@.title is None,
        d@.speakers == d.speakers@.map_values(|s: String| s@),
        opt_detection(Some(d)) == Some(d@),
        opt_detection(None) is None,
{
}

/// Each error has its own text, with what it tells in it.
pub proof fn law_errors_have_their_texts(e: Error)
    ensures
        e is AlreadyStarted ==> error_text(e) == "monitor already started"@,
        e matches Error::PlatformInit(reason) ==> error_text(e) == "platform init failed: "@
            + reason@,
        e matches Error::RecordingFailed(reason) ==> error_text(e) == "recording failed: "@
            + reason@,
        e matches Error::MacOSVersionTooOld { major, minor } ==> error_text(e)
            == "macOS 14.2+ required for system audio tap (running "@ + crate::text::decimal(
            major as nat,
        ) + "."@ + crate::text::decimal(minor as nat) + ")"@,
        e is PermissionDenied ==> error_text(e)
            == "permission denied — check Screen Recording / Microphone in System Settings"@,
        e matches Error::Other(reason) ==> error_text(e) == reason@,
{
}

} // verus!
