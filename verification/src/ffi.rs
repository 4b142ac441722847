//! Events for C: flat, with every field there whatever the kind.
//!
//! Fields that do not belong to a kind of event hold nothing, or the value with the
//! code 0.
use vstd::prelude::*;
use vstd::string::*;

use crate::event::{CaptureKind, Event, Permission, PermissionGranted};
use crate::text::to_chars;

verus! {

/// The kind of an event.
#[derive(Debug, Clone, Copy, PartialEq, Eq, Structural)]
pub enum SHEventKind {
    PermissionStatus,
    PermissionsGranted,
    MeetingDetected,
    MeetingUpdated,
    MeetingEnded,
    RecordingStarted,
    RecordingEnded,
    RecordingReady,
    CaptureStatus,
    Error,
    SpeakerChanged,
}

/// Which system permission is being reported.
#[derive(Debug, Clone, Copy, PartialEq, Eq, Structural)]
pub enum SHPermission {
    Microphone,
    ScreenCapture,
    Accessibility,
}

/// The grant status of a permission.
#[derive(Debug, Clone, Copy, PartialEq, Eq, Structural)]
pub enum SHPermissionStatus {
    Granted,
    NotRequested,
    Denied,
}

/// Which media stream a capture status refers to.
#[derive(Debug, Clone, Copy, PartialEq, Eq, Structural)]
pub enum SHCaptureKind {
    Audio,
    Video,
}

impl SHEventKind {
    /// The number of the kind.
    pub open spec fn number(self) -> i32 {
        match self {
            SHEventKind::PermissionStatus => 0,
            SHEventKind::PermissionsGranted => 1,
            SHEventKind::MeetingDetected => 2,
            SHEventKind::MeetingUpdated => 3,
            SHEventKind::MeetingEnded => 4,
            SHEventKind::RecordingStarted => 5,
            SHEventKind::RecordingEnded => 6,
            SHEventKind::RecordingReady => 7,
            SHEventKind::CaptureStatus => 8,
            SHEventKind::Error => 9,
            SHEventKind::SpeakerChanged => 10,
        }
    }

    /// The number of the kind.
    pub fn code(&self) -> (code: i32)
        ensures
            code == self.number(),
    {
        match self {
            SHEventKind::PermissionStatus => 0,
            SHEventKind::PermissionsGranted => 1,
            SHEventKind::MeetingDetected => 2,
            SHEventKind::MeetingUpdated => 3,
            SHEventKind::MeetingEnded => 4,
            SHEventKind::RecordingStarted => 5,
            SHEventKind::RecordingEnded => 6,
            SHEventKind::RecordingReady => 7,
            SHEventKind::CaptureStatus => 8,
            SHEventKind::Error => 9,
            SHEventKind::SpeakerChanged => 10,
        }
    }
}

impl SHPermission {
    /// The number of the permission.
    pub open spec fn number(self) -> i32 {
        match self {
            SHPermission::Microphone => 0,
            SHPermission::ScreenCapture => 1,
            SHPermission::Accessibility => 2,
        }
    }

    /// The number of the permission.
    pub fn code(&self) -> (code: i32)
        ensures
            code == self.number(),
    {
        match self {
            SHPermission::Microphone => 0,
            SHPermission::ScreenCapture => 1,
            SHPermission::Accessibility => 2,
        }
    }
}

impl SHPermissionStatus {
    /// The number of the status.
    pub open spec fn number(self) -> i32 {
        match self {
            SHPermissionStatus::Granted => 0,
            SHPermissionStatus::NotRequested => 1,
            SHPermissionStatus::Denied => 2,
        }
    }

    /// The number of the status.
    pub fn code(&self) -> (code: i32)
        ensures
            code == self.number(),
    {
        match self {
            SHPermissionStatus::Granted => 0,
            SHPermissionStatus::NotRequested => 1,
            SHPermissionStatus::Denied => 2,
        }
    }
}

impl SHCaptureKind {
    /// The number of the stream.
    pub open spec fn number(self) -> i32 {
        match self {
            SHCaptureKind::Audio => 0,
            SHCaptureKind::Video => 1,
        }
    }

    /// The number of the stream.
    pub fn code(&self) -> (code: i32)
        ensures
            code == self.number(),
    {
        match self {
            SHCaptureKind::Audio => 0,
            SHCaptureKind::Video => 1,
        }
    }
}

/// A flat event.
#[derive(Debug, Clone, PartialEq, Eq)]
pub struct SHEvent {
    pub kind: SHEventKind,
    /// The name of the meeting application.
    pub app: Option<String>,
    /// The window title.
    pub title: Option<String>,
    /// The path of the mixed recording.
    pub path: Option<String>,
    /// The path of the recording of the others.
    pub others_path: Option<String>,
    /// The path of the recording of the local user.
    pub self_path: Option<String>,
    /// The error message.
    pub message: Option<String>,
    /// The names of those who are speaking, with tabs between them.
    pub participant: Option<String>,
    pub permission: SHPermission,
    pub perm_status: SHPermissionStatus,
    pub capture_kind: SHCaptureKind,
    /// 1 while capturing, 0 while interrupted.
    pub capturing: i32,
}

/// What a flat event says.
pub struct SHEventView {
    pub kind: SHEventKind,
    pub app: Option<Seq<char>>,
    pub title: Option<Seq<char>>,
    pub path: Option<Seq<char>>,
    pub others_path: Option<Seq<char>>,
    pub self_path: Option<Seq<char>>,
    pub message: Option<Seq<char>>,
    pub participant: Option<Seq<char>>,
    pub permission: SHPermission,
    pub perm_status: SHPermissionStatus,
    pub capture_kind: SHCaptureKind,
    pub capturing: i32,
}

impl View for SHEvent {
    type V = SHEventView;

    open spec fn view(&self) -> SHEventView {
        SHEventView {
            kind: self.kind,
            app: crate::text::opt_string(self.app),
            title: crate::text::opt_string(self.title),
            path: crate::text::opt_string(self.path),
            others_path: crate::text::opt_string(self.others_path),
            self_path: crate::text::opt_string(self.self_path),
            message: crate::text::opt_string(self.message),
            participant: crate::text::opt_string(self.participant),
            permission: self.permission,
            perm_status: self.perm_status,
            capture_kind: self.capture_kind,
            capturing: self.capturing,
        }
    }
}

impl SHEventView {
    /// An event of this kind with nothing else set.
    pub open spec fn blank(kind: SHEventKind) -> SHEventView {
        SHEventView {
            kind,
            app: None,
            title: None,
            path: None,
            others_path: None,
            self_path: None,
            message: None,
            participant: None,
            permission: SHPermission::Microphone,
            perm_status: SHPermissionStatus::Granted,
            capture_kind: SHCaptureKind::Audio,
            capturing: 0,
        }
    }

    /// An event of this kind, of this application, with nothing else set.
    pub open spec fn of_app(kind: SHEventKind, app: Seq<char>) -> SHEventView {
        SHEventView { app: Some(c_text(app)), ..SHEventView::blank(kind) }
    }
}

/// A text as C can hold it. A text with a NUL in it would end early there: it
/// becomes empty.
pub open spec fn c_text(s: Seq<char>) -> Seq<char> {
    if s.contains('\0') {
        Seq::empty()
    } else {
        s
    }
}

/// The texts one after the other, with a tab between each two.
pub open spec fn tab_joined(list: Seq<Seq<char>>) -> Seq<char>
    decreases list.len(),
{
    if list.len() == 0 {
        Seq::empty()
    } else if list.len() == 1 {
        list[0]
    } else {
        tab_joined(list.drop_last()) + "\t"@ + list.last()
    }
}

/// The flat form of an event.
pub open spec fn flat(event: crate::event::EventView) -> SHEventView {
    match event {
        crate::event::EventView::PermissionStatus { permission, status } => SHEventView {
            permission: match permission {
                Permission::Microphone => SHPermission::Microphone,
                Permission::ScreenCapture => SHPermission::ScreenCapture,
                Permission::Accessibility => SHPermission::Accessibility,
            },
            perm_status: match status {
                PermissionGranted::Granted => SHPermissionStatus::Granted,
                PermissionGranted::NotRequested => SHPermissionStatus::NotRequested,
                PermissionGranted::Denied => SHPermissionStatus::Denied,
            },
            ..SHEventView::blank(SHEventKind::PermissionStatus)
        },
        crate::event::EventView::PermissionsGranted => SHEventView::blank(
            SHEventKind::PermissionsGranted,
        ),
        crate::event::EventView::MeetingDetected { app, pid } => SHEventView::of_app(
            SHEventKind::MeetingDetected,
            app,
        ),
        crate::event::EventView::MeetingUpdated { app, title } => SHEventView {
            title: Some(c_text(title)),
            ..SHEventView::of_app(SHEventKind::MeetingUpdated, app)
        },
        crate::event::EventView::MeetingEnded { app } => SHEventView::of_app(
            SHEventKind::MeetingEnded,
            app,
        ),
        crate::event::EventView::RecordingStarted { app } => SHEventView::of_app(
            SHEventKind::RecordingStarted,
            app,
        ),
        crate::event::EventView::RecordingEnded { app } => SHEventView::of_app(
            SHEventKind::RecordingEnded,
            app,
        ),
        crate::event::EventView::RecordingReady { mixed_path, others_path, self_path, app } =>
            SHEventView {
            path: Some(c_text(mixed_path)),
            others_path: Some(c_text(others_path)),
            self_path: Some(c_text(self_path)),
            ..SHEventView::of_app(SHEventKind::RecordingReady, app)
        },
        crate::event::EventView::CaptureStatus { kind, capturing } => SHEventView {
            capture_kind: match kind {
                CaptureKind::Audio => SHCaptureKind::Audio,
                CaptureKind::Video => SHCaptureKind::Video,
            },
            capturing: if capturing {
                1
            } else {
                0
            },
            ..SHEventView::blank(SHEventKind::CaptureStatus)
        },
        crate::event::EventView::Error { message } => SHEventView {
            message: Some(c_text(message)),
            ..SHEventView::blank(SHEventKind::Error)
        },
        crate::event::EventView::SpeakerChanged { speakers, app } => SHEventView {
            participant: Some(c_text(tab_joined(speakers))),
            ..SHEventView::of_app(SHEventKind::SpeakerChanged, app)
        },
    }
}

/// A text as C can hold it.
fn to_c_text(s: &String) -> (out: String)
    ensures
        out@ == c_text(s@),
{
    let chars: Vec<char> = to_chars(s.as_str());
    let mut i: usize = 0;
    while i < chars.len()
        invariant
            chars@ == s@,
            i <= chars@.len(),
            forall|k: int| 0 <= k < i ==> #[trigger] chars@[k] != '\0',
        decreases chars@.len() - i,
    {
        if chars[i] == '\0' {
            proof {
                assert(s@.contains('\0'));
            }
            return String::new();
        }
        i = i + 1;
    }
    s.clone()
}

/// The texts one after the other, with a tab between each two.
fn join_with_tabs(list: &Vec<String>) -> (out: String)
    ensures
        out@ == tab_joined(crate::text::texts(list@)),
{
    let mut out: String = String::new();
    let mut i: usize = 0;
    let ghost all = crate::text::texts(list@);
    while i < list.len()
        invariant
            i <= list@.len(),
            all == crate::text::texts(list@),
            out@ == tab_joined(all.take(i as int)),
        decreases list@.len() - i,
    {
        let ghost before = out@;
        if i > 0 {
            out.append("\t");
        }
        out.append(list[i].as_str());
        proof {
            let part = all.take(i + 1);
            assert(part.last() == list@[i as int]@);
            if i == 0 {
                assert(part[0] == list@[0]@);
                assert(out@ =~= part[0]);
            } else {
                assert(part.drop_last() =~= all.take(i as int));
                assert(out@ =~= before + "\t"@ + part.last());
            }
        }
        i = i + 1;
    }
    proof {
        assert(all.take(all.len() as int) =~= all);
    }
    out
}

impl SHEvent {
    /// An event of this kind with nothing else set.
    fn blank(kind: SHEventKind) -> (event: SHEvent)
        ensures
            event@ == SHEventView::blank(kind),
    {
        SHEvent {
            kind,
            app: None,
            title: None,
            path: None,
            others_path: None,
            self_path: None,
            message: None,
            participant: None,
            permission: SHPermission::Microphone,
            perm_status: SHPermissionStatus::Granted,
            capture_kind: SHCaptureKind::Audio,
            capturing: 0,
        }
    }

    /// An event of this kind, of this application, with nothing else set.
    fn of_app(kind: SHEventKind, app: &String) -> (event: SHEvent)
        ensures
            event@ == SHEventView::of_app(kind, app@),
    {
        let mut event: SHEvent = SHEvent::blank(kind);
        event.app = Some(to_c_text(app));
        event
    }
}

/// The flat form of an event.
pub fn flatten(event: &Event) -> (out: SHEvent)
    ensures
        out@ == flat(event@),
{
    match event {
        Event::PermissionStatus { permission, status } => {
            let mut out: SHEvent = SHEvent::blank(SHEventKind::PermissionStatus);
            out.permission = match permission {
                Permission::Microphone => SHPermission::Microphone,
                Permission::ScreenCapture => SHPermission::ScreenCapture,
                Permission::Accessibility => SHPermission::Accessibility,
            };
            out.perm_status = match status {
                PermissionGranted::Granted => SHPermissionStatus::Granted,
                PermissionGranted::NotRequested => SHPermissionStatus::NotRequested,
                PermissionGranted::Denied => SHPermissionStatus::Denied,
            };
            out
        },
        Event::PermissionsGranted => SHEvent::blank(SHEventKind::PermissionsGranted),
        Event::MeetingDetected { app, pid: _ } => SHEvent::of_app(
            SHEventKind::MeetingDetected,
            app,
        ),
        Event::MeetingUpdated { app, title } => {
            let mut out: SHEvent = SHEvent::of_app(SHEventKind::MeetingUpdated, app);
            out.title = Some(to_c_text(title));
            out
        },
        Event::MeetingEnded { app } => SHEvent::of_app(SHEventKind::MeetingEnded, app),
        Event::RecordingStarted { app } => SHEvent::of_app(SHEventKind::RecordingStarted, app),
        Event::RecordingEnded { app } => SHEvent::of_app(SHEventKind::RecordingEnded, app),
        Event::RecordingReady { mixed_path, others_path, self_path, app } => {
            let mut out: SHEvent = SHEvent::of_app(SHEventKind::RecordingReady, app);
            out.path = Some(to_c_text(mixed_path));
            out.others_path = Some(to_c_text(others_path));
            out.self_path = Some(to_c_text(self_path));
            out
        },
        Event::CaptureStatus { kind, capturing } => {
            let mut out: SHEvent = SHEvent::blank(SHEventKind::CaptureStatus);
            out.capture_kind = match kind {
                CaptureKind::Audio => SHCaptureKind::Audio,
                CaptureKind::Video => SHCaptureKind::Video,
            };
            out.capturing = if *capturing {
                1
            } else {
                0
            };
            out
        },
        Event::Error { message } => {
            let mut out: SHEvent = SHEvent::blank(SHEventKind::Error);
            out.message = Some(to_c_text(message));
            out
        },
        Event::SpeakerChanged { speakers, app } => {
            let mut out: SHEvent = SHEvent::of_app(SHEventKind::SpeakerChanged, app);
            let names: String = join_with_tabs(speakers);
            out.participant = Some(to_c_text(&names));
            out
        },
    }
}

/// What a call that starts a listener returns to C: 0 on success, -1 on failure.
pub fn start_code(started: bool) -> (code: i32)
    ensures
        started ==> code == 0,
        !started ==> code == -1,
{
    if started {
        0
    } else {
        -1
    }
}

/// Different kinds of events have different numbers.
pub proof fn law_kind_numbers_differ(a: SHEventKind, b: SHEventKind)
    requires
        a.number() == b.number(),
    ensures
        a == b,
{
}

/// No text of a flat event has a NUL in it.
pub proof fn law_c_text_has_no_nul(s: Seq<char>)
    ensures
        !c_text(s).contains('\0'),
{
}

/// Which texts a flat event has depends on its kind alone, and numbers that do not
/// belong to it are 0.
pub proof fn law_fields_by_kind(event: crate::event::EventView)
    ensures
        ({
            let e = flat(event);
            &&& e.app is Some <==> e.kind == SHEventKind::MeetingDetected || e.kind
                == SHEventKind::MeetingUpdated || e.kind == SHEventKind::MeetingEnded || e.kind
                == SHEventKind::RecordingStarted || e.kind == SHEventKind::RecordingEnded || e.kind
                == SHEventKind::RecordingReady || e.kind == SHEventKind::SpeakerChanged
            &&& e.title is Some <==> e.kind == SHEventKind::MeetingUpdated
            &&& e.path is Some <==> e.kind == SHEventKind::RecordingReady
            &&& e.others_path is Some <==> e.kind == SHEventKind::RecordingReady
            &&& e.self_path is Some <==> e.kind == SHEventKind::RecordingReady
            &&& e.message is Some <==> e.kind == SHEventKind::Error
            &&& e.participant is Some <==> e.kind == SHEventKind::SpeakerChanged
            &&& e.kind != SHEventKind::PermissionStatus ==> e.permission.number() == 0
                && e.perm_status.number() == 0
            &&& e.kind != SHEventKind::CaptureStatus ==> e.capture_kind.number() == 0
                && e.capturing == 0
        }),
{
}

/// What is said of a flat event is what it holds.
pub proof fn law_flat_event_says_what_it_holds(e: SHEvent)
    ensures
        e@.kind == e.kind,
        e.app matches Some(t) ==> e@.app == Some(t@),
        e.app is None ==> e@.app is None,
        e.title matches Some(t) ==> e@.title == Some(t@),
        e.title is None ==> e@.title is None,
        e.path matches Some(t) ==> e@.path == Some(t@),
        e.path is None ==> e@.path is None,
        e.others_path matches Some(t) ==> e@.others_path == Some(t@),
        e.others_path is None ==> e@.others_path is None,
        e.self_path matches Some(t) ==> e@.self_path == Some(t@),
        e.self_path is None ==> e@.self_path is None,
        e.message matches Some(t) ==> e@.message == Some(t@),
        e.message is None ==> e@.message is None,
        e.participant matches Some(t) ==> e@.participant == Some(t@),
        e.participant is None ==> e@.participant is None,
        e@.permission == e.permission,
        e@.perm_status == e.perm_status,
        e@.capture_kind == e.capture_kind,
        e@.capturing == e.capturing,
{
}

/// A text without a NUL reaches C as it is; one with a NUL becomes empty.
pub proof fn law_c_text_is_the_text(s: Seq<char>)
    ensures
        (forall|i: int| 0 <= i < s.len() ==> #[trigger] s[i] != '\0') ==> c_text(s) == s,
        (exists|i: int| 0 <= i < s.len() && #[trigger] s[i] == '\0') ==> c_text(s).len() == 0,
{
}

/// A flat event holds what the event holds, each field under its own name: an event whose
/// texts have no NUL in them reads back from its flat form.
pub proof fn law_flat_event_reads_back(event: crate::event::EventView)
    ensures
        ({
            let e = flat(event);
            match event {
                crate::event::EventView::PermissionStatus { permission, status } => {
                    &&& e.kind == SHEventKind::PermissionStatus
                    &&& permission == Permission::Microphone <==> e.permission
                        == SHPermission::Microphone
                    &&& permission == Permission::ScreenCapture <==> e.permission
                        == SHPermission::ScreenCapture
                    &&& permission == Permission::Accessibility <==> e.permission
                        == SHPermission::Accessibility
                    &&& status == PermissionGranted::Granted <==> e.perm_status
                        == SHPermissionStatus::Granted
                    &&& status == PermissionGranted::NotRequested <==> e.perm_status
                        == SHPermissionStatus::NotRequested
                    &&& status == PermissionGranted::Denied <==> e.perm_status
                        == SHPermissionStatus::Denied
                },
                crate::event::EventView::PermissionsGranted => e.kind
                    == SHEventKind::PermissionsGranted,
                crate::event::EventView::MeetingDetected { app, pid } => {
                    &&& e.kind == SHEventKind::MeetingDetected
                    &&& !app.contains('\0') ==> e.app == Some(app)
                },
                crate::event::EventView::MeetingUpdated { app, title } => {
                    &&& e.kind == SHEventKind::MeetingUpdated
                    &&& !app.contains('\0') ==> e.app == Some(app)
                    &&& !title.contains('\0') ==> e.title == Some(title)
                },
                crate::event::EventView::MeetingEnded { app } => {
                    &&& e.kind == SHEventKind::MeetingEnded
                    &&& !app.contains('\0') ==> e.app == Some(app)
                },
                crate::event::EventView::RecordingStarted { app } => {
                    &&& e.kind == SHEventKind::RecordingStarted
                    &&& !app.contains('\0') ==> e.app == Some(app)
                },
                crate::event::EventView::RecordingEnded { app } => {
                    &&& e.kind == SHEventKind::RecordingEnded
                    &&& !app.contains('\0') ==> e.app == Some(app)
                },
                crate::event::EventView::RecordingReady {
                    mixed_path,
                    others_path,
                    self_path,
                    app,
                } => {
                    &&& e.kind == SHEventKind::RecordingReady
                    &&& !app.contains('\0') ==> e.app == Some(app)
                    &&& !mixed_path.contains('\0') ==> e.path == Some(mixed_path)
                    &&& !others_path.contains('\0') ==> e.others_path == Some(others_path)
                    &&& !self_path.contains('\0') ==> e.self_path == Some(self_path)
                },
                crate::event::EventView::CaptureStatus { kind, capturing } => {
                    &&& e.kind == SHEventKind::CaptureStatus
                    &&& kind == CaptureKind::Audio <==> e.capture_kind == SHCaptureKind::Audio
                    &&& kind == CaptureKind::Video <==> e.capture_kind == SHCaptureKind::Video
                    &&& capturing ==> e.capturing == 1
                    &&& !capturing ==> e.capturing == 0
                },
                crate::event::EventView::Error { message } => {
                    &&& e.kind == SHEventKind::Error
                    &&& !message.contains('\0') ==> e.message == Some(message)
                },
                crate::event::EventView::SpeakerChanged { speakers, app } => {
                    &&& e.kind == SHEventKind::SpeakerChanged
                    &&& !app.contains('\0') ==> e.app == Some(app)
                    &&& !tab_joined(speakers).contains('\0') ==> e.participant == Some(
                        tab_joined(speakers),
                    )
                },
            }
        }),
{
}

/// Names that are joined stand one after the other with a tab between each two: those of
/// one list, a tab and those of another are those of both, and a single name stands alone.
pub proof fn law_names_are_joined_by_tabs(
    first: Seq<Seq<char>>,
    second: Seq<Seq<char>>,
    name: Seq<char>,
)
    requires
        first.len() > 0,
        second.len() > 0,
    ensures
        tab_joined(first + second) == tab_joined(first) + seq!['\t'] + tab_joined(second),
        tab_joined(seq![name]) == name,
        tab_joined(Seq::<Seq<char>>::empty()).len() == 0,
    decreases second.len(),
{
    reveal_strlit("\t");
    assert("\t"@ =~= seq!['\t']);
    let all = first + second;
    assert(all.drop_last() =~= first + second.drop_last());
    assert(all.last() == second.last());
    if second.len() == 1 {
        assert(first + second.drop_last() =~= first);
        assert(tab_joined(second) == second.last());
    } else {
        law_names_are_joined_by_tabs(first, second.drop_last(), name);
        assert(tab_joined(all) =~= tab_joined(first) + seq!['\t'] + tab_joined(second));
    }
}

/// The numbers that C knows the kinds, permissions, statuses and streams by.
pub proof fn law_numbers_for_c()
    ensures
        SHEventKind::PermissionStatus.number() == 0,
        SHEventKind::PermissionsGranted.number() == 1,
        SHEventKind::MeetingDetected.number() == 2,
        SHEventKind::MeetingUpdated.number() == 3,
        SHEventKind::MeetingEnded.number() == 4,
        SHEventKind::RecordingStarted.number() == 5,
        SHEventKind::RecordingEnded.number() == 6,
        SHEventKind::RecordingReady.number() == 7,
        SHEventKind::CaptureStatus.number() == 8,
        SHEventKind::Error.number() == 9,
        SHEventKind::SpeakerChanged.number() == 10,
        SHPermission::Microphone.number() == 0,
        SHPermission::ScreenCapture.number() == 1,
        SHPermission::Accessibility.number() == 2,
        SHPermissionStatus::Granted.number() == 0,
        SHPermissionStatus::NotRequested.number() == 1,
        SHPermissionStatus::Denied.number() == 2,
        SHCaptureKind::Audio.number() == 0,
        SHCaptureKind::Video.number() == 1,
{
}

} // verus!
