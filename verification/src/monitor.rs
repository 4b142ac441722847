//! Deciding from microphone activity when a meeting begins and when it ends.
//!
//! The monitor is polled with the process that holds the microphone. Activity
//! has to last for a sustain time before a meeting counts as started, and
//! silence for a grace time before it counts as ended; a closed meeting window
//! ends it at once.
use vstd::prelude::*;

use crate::apps::cg_window_owner;
use crate::event::{Detection, DetectionKind, Error, Platform};

verus! {

/// How long the microphone has to stay active before a meeting has started.
pub const SUSTAIN_MS: u64 = 2000;

/// How long the microphone has to stay silent before a meeting has ended.
pub const END_GRACE_MS: u64 = 20000;

/// Time between two polls.
pub const POLL_INTERVAL_MS: u64 = 300;

/// What a timer measures.
#[derive(Debug, Clone, Copy, PartialEq, Eq, Structural)]
pub enum TimerKind {
    /// Sustained microphone activity.
    Sustain,
    /// Silence at the end of a meeting.
    EndGrace,
}

/// A timer to start. When `millis` have gone by the monitor is told so, with the
/// timer's token. A timer that was cancelled meanwhile has no effect.
#[derive(Debug, Clone, Copy, PartialEq, Eq, Structural)]
pub struct TimerRequest {
    pub kind: TimerKind,
    pub token: u64,
    pub millis: u64,
}

/// What becomes of the watchers of the meeting window and of the speakers.
#[derive(Debug, Clone, PartialEq, Eq)]
pub enum Watch {
    Unchanged,
    /// Watch the windows of `owner`, and the speakers in the meeting of `app`.
    Start { owner: String, app: String, pid: u32 },
    Stop,
}

/// What a change of watchers says.
pub enum WatchView {
    Unchanged,
    Start { owner: Seq<char>, app: Seq<char>, pid: u32 },
    Stop,
}

impl View for Watch {
    type V = WatchView;

    open spec fn view(&self) -> WatchView {
        match *self {
            Watch::Unchanged => WatchView::Unchanged,
            Watch::Start { owner, app, pid } => WatchView::Start { owner: owner@, app: app@, pid },
            Watch::Stop => WatchView::Stop,
        }
    }
}

/// Activity that has not lasted for the sustain time yet.
#[derive(Debug, Clone)]
struct Pending {
    token: u64,
    pid: u32,
    app: String,
}

/// Activity that has not lasted for the sustain time yet.
pub struct PendingView {
    pub token: u64,
    pub pid: u32,
    pub app: Seq<char>,
}

/// Decides when a meeting begins and ends.
#[derive(Debug)]
pub struct Monitor {
    platform: Platform,
    started: bool,
    in_meeting: bool,
    current_app: String,
    last_pid: u32,
    sustain: Option<Pending>,
    end_timer: Option<u64>,
    next_token: u64,
    watching: bool,
}

/// The state of a monitor.
pub struct MonitorView {
    pub platform: Platform,
    /// The monitor is running.
    pub started: bool,
    pub in_meeting: bool,
    /// The application of the meeting in progress.
    pub current_app: Seq<char>,
    /// The process that held the microphone at the last poll; 0 for none.
    pub last_pid: u32,
    /// Activity waiting for the sustain timer.
    pub sustain: Option<PendingView>,
    /// The token of the pending grace timer.
    pub end_timer: Option<u64>,
    /// The token of the next timer.
    pub next_token: u64,
    /// The meeting window and the speakers are being watched.
    pub watching: bool,
}

/// The token after `t`.
pub open spec fn token_after(t: u64) -> u64 {
    if t == u64::MAX {
        0
    } else {
        (t + 1) as u64
    }
}

impl MonitorView {
    /// A monitor that has seen nothing yet.
    pub open spec fn idle(platform: Platform) -> MonitorView {
        MonitorView {
            platform,
            started: false,
            in_meeting: false,
            current_app: Seq::empty(),
            last_pid: 0,
            sustain: None,
            end_timer: None,
            next_token: 0,
            watching: false,
        }
    }

    /// At most one timer is pending. The sustain timer runs only outside a
    /// meeting and while the microphone is active, the grace timer only in a
    /// meeting and while it is silent. Watchers run only in a meeting, and only
    /// where there are any.
    pub open spec fn wf(self) -> bool {
        &&& self.sustain matches Some(p) ==> !self.in_meeting && self.last_pid != 0
            && self.next_token == token_after(p.token)
        &&& self.end_timer matches Some(t) ==> self.in_meeting && self.last_pid == 0
            && self.next_token == token_after(t)
        &&& self.watching ==> self.in_meeting && self.platform == Platform::MacOs
    }

    /// The state after monitoring has begun: no process has been seen with the
    /// microphone yet, and no timer is pending.
    pub open spec fn begun(self) -> MonitorView {
        MonitorView { started: true, last_pid: 0, sustain: None, end_timer: None, ..self }
    }

    /// The state after a poll that found `pid` (0 for none) of `app`.
    pub open spec fn polled(self, pid: u32, app: Seq<char>) -> MonitorView {
        if pid == self.last_pid {
            self
        } else {
            let seen = MonitorView { last_pid: pid, ..self };
            if pid != 0 {
                let resumed = MonitorView { end_timer: None, ..seen };
                if !self.in_meeting && self.sustain is None {
                    MonitorView {
                        sustain: Some(PendingView { token: self.next_token, pid, app }),
                        next_token: token_after(self.next_token),
                        ..resumed
                    }
                } else {
                    resumed
                }
            } else {
                let silent = MonitorView { sustain: None, ..seen };
                if self.in_meeting && self.end_timer is None {
                    MonitorView {
                        end_timer: Some(self.next_token),
                        next_token: token_after(self.next_token),
                        ..silent
                    }
                } else {
                    silent
                }
            }
        }
    }

    /// The timer that a poll that found `pid` starts.
    pub open spec fn poll_timer(self, pid: u32) -> Option<TimerRequest> {
        if pid == self.last_pid {
            None
        } else if pid != 0 && !self.in_meeting && self.sustain is None {
            Some(
                TimerRequest {
                    kind: TimerKind::Sustain,
                    token: self.next_token,
                    millis: SUSTAIN_MS,
                },
            )
        } else if pid == 0 && self.in_meeting && self.end_timer is None {
            Some(
                TimerRequest {
                    kind: TimerKind::EndGrace,
                    token: self.next_token,
                    millis: END_GRACE_MS,
                },
            )
        } else {
            None
        }
    }

    /// The sustain timer with this token is the pending one.
    pub open spec fn sustain_due(self, token: u64) -> bool {
        self.sustain matches Some(p) && p.token == token
    }

    /// The state after the sustain timer with this token has run out.
    pub open spec fn sustained(self, token: u64) -> MonitorView {
        if self.sustain_due(token) {
            if self.in_meeting {
                MonitorView { sustain: None, ..self }
            } else {
                MonitorView {
                    sustain: None,
                    in_meeting: true,
                    current_app: self.sustain->0.app,
                    watching: self.platform == Platform::MacOs,
                    ..self
                }
            }
        } else {
            self
        }
    }

    /// What is noticed when the sustain timer with this token has run out.
    pub open spec fn sustained_detection(self, token: u64) -> Option<
        crate::event::DetectionView,
    > {
        if self.sustain_due(token) && !self.in_meeting {
            Some(
                crate::event::DetectionView {
                    kind: DetectionKind::Started,
                    app: self.sustain->0.app,
                    pid: self.sustain->0.pid,
                    title: None,
                    speakers: Seq::empty(),
                },
            )
        } else {
            None
        }
    }

    /// The watchers to start when the sustain timer with this token has run out.
    pub open spec fn sustained_watch(self, token: u64) -> WatchView {
        if self.sustain_due(token) && !self.in_meeting && self.platform == Platform::MacOs {
            WatchView::Start {
                owner: crate::apps::window_owner(self.sustain->0.app),
                app: self.sustain->0.app,
                pid: self.sustain->0.pid,
            }
        } else {
            WatchView::Unchanged
        }
    }

    /// The state after the meeting, if there is one, has ended.
    pub open spec fn ended(self) -> MonitorView {
        if self.in_meeting {
            MonitorView {
                end_timer: None,
                in_meeting: false,
                current_app: Seq::empty(),
                watching: false,
                ..self
            }
        } else {
            MonitorView { end_timer: None, ..self }
        }
    }

    /// What is noticed when the meeting has ended.
    pub open spec fn ended_detection(self) -> Option<crate::event::DetectionView> {
        if self.in_meeting {
            Some(
                crate::event::DetectionView {
                    kind: DetectionKind::Ended,
                    app: self.current_app,
                    pid: 0,
                    title: None,
                    speakers: Seq::empty(),
                },
            )
        } else {
            None
        }
    }

    /// The watchers to stop when the meeting has ended.
    pub open spec fn ended_watch(self) -> WatchView {
        if self.watching {
            WatchView::Stop
        } else {
            WatchView::Unchanged
        }
    }

    /// The grace timer with this token is the pending one.
    pub open spec fn grace_due(self, token: u64) -> bool {
        self.end_timer == Some(token)
    }

    /// What is noticed when the window of the meeting has been identified.
    pub open spec fn updated_detection(self, app: Seq<char>, title: Seq<char>) -> Option<
        crate::event::DetectionView,
    > {
        if self.in_meeting {
            Some(
                crate::event::DetectionView {
                    kind: DetectionKind::Updated,
                    app,
                    pid: 0,
                    title: Some(title),
                    speakers: Seq::empty(),
                },
            )
        } else {
            None
        }
    }

    /// What is noticed when other participants are speaking than before.
    pub open spec fn speakers_detection(self, app: Seq<char>, speakers: Seq<Seq<char>>) -> Option<
        crate::event::DetectionView,
    > {
        if self.in_meeting {
            Some(
                crate::event::DetectionView {
                    kind: DetectionKind::SpeakerChanged,
                    app,
                    pid: 0,
                    title: None,
                    speakers,
                },
            )
        } else {
            None
        }
    }

    /// The state after the monitor has been stopped.
    pub open spec fn stopped(self) -> MonitorView {
        MonitorView { started: false, sustain: None, end_timer: None, watching: false, ..self }
    }
}

impl View for Monitor {
    type V = MonitorView;

    closed spec fn view(&self) -> MonitorView {
        MonitorView {
            platform: self.platform,
            started: self.started,
            in_meeting: self.in_meeting,
            current_app: self.current_app@,
            last_pid: self.last_pid,
            sustain: match self.sustain {
                Some(p) => Some(PendingView { token: p.token, pid: p.pid, app: p.app@ }),
                None => None,
            },
            end_timer: self.end_timer,
            next_token: self.next_token,
            watching: self.watching,
        }
    }
}

/// What a change in the monitor leads to.
#[derive(Debug, Clone, PartialEq, Eq)]
pub struct Outcome {
    pub watch: Watch,
    pub detection: Option<Detection>,
}

/// A detection of the given kind with nothing else set.
fn plain_detection(kind: DetectionKind, app: String) -> (det: Detection)
    ensures
        det@ == (crate::event::DetectionView {
            kind,
            app: app@,
            pid: 0,
            title: None,
            speakers: Seq::empty(),
        }),
{
    let det = Detection { kind, app, pid: 0, title: None, speakers: Vec::new() };
    proof {
        assert(det@.speakers =~= Seq::<Seq<char>>::empty());
    }
    det
}

impl Monitor {
    /// A monitor that is not running and has seen nothing yet.
    pub fn new(platform: Platform) -> (monitor: Monitor)
        ensures
            monitor@ == MonitorView::idle(platform),
            monitor@.wf(),
    {
        Monitor {
            platform,
            started: false,
            in_meeting: false,
            current_app: String::new(),
            last_pid: 0,
            sustain: None,
            end_timer: None,
            next_token: 0,
            watching: false,
        }
    }

    /// Begins monitoring, as if no process had held the microphone before. A monitor
    /// that is running already stays as it is.
    pub fn start(&mut self) -> (result: Result<(), Error>)
        requires
            old(self)@.wf(),
        ensures
            final(self)@.wf(),
            match result {
                Ok(_) => !old(self)@.started && final(self)@ == old(self)@.begun(),
                Err(e) => old(self)@.started && e == Error::AlreadyStarted && final(self)@ == old(
                    self,
                )@,
            },
    {
        if self.started {
            return Err(Error::AlreadyStarted);
        }
        self.started = true;
        self.last_pid = 0;
        self.sustain = None;
        self.end_timer = None;
        Ok(())
    }

    /// Stops monitoring: cancels the timers and the watchers. Returns whether
    /// there were watchers.
    pub fn stop(&mut self) -> (watching: bool)
        requires
            old(self)@.wf(),
        ensures
            final(self)@.wf(),
            final(self)@ == old(self)@.stopped(),
            watching == old(self)@.watching,
    {
        let watching: bool = self.watching;
        self.started = false;
        self.sustain = None;
        self.end_timer = None;
        self.watching = false;
        watching
    }

    /// Takes a token for a new timer.
    fn take_token(&mut self) -> (token: u64)
        ensures
            token == old(self)@.next_token,
            final(self)@ == (MonitorView {
                next_token: token_after(old(self)@.next_token),
                ..old(self)@
            }),
    {
        let token: u64 = self.next_token;
        self.next_token = if token == u64::MAX {
            0
        } else {
            token + 1
        };
        token
    }

    /// Takes in a change of the process that holds the microphone. Returns the timer to
    /// start.
    pub fn handle_pid_change(&mut self, pid: u32, app: String) -> (timer: Option<TimerRequest>)
        requires
            old(self)@.wf(),
            pid != old(self)@.last_pid,
        ensures
            final(self)@.wf(),
            final(self)@ == old(self)@.polled(pid, app@),
            timer == old(self)@.poll_timer(pid),
    {
        self.last_pid = pid;
        if pid != 0 {
            self.end_timer = None;
            if !self.in_meeting && self.sustain.is_none() {
                let token: u64 = self.take_token();
                self.sustain = Some(Pending { token, pid, app });
                return Some(
                    TimerRequest { kind: TimerKind::Sustain, token, millis: SUSTAIN_MS },
                );
            }
            return None;
        }
        self.sustain = None;
        if self.in_meeting && self.end_timer.is_none() {
            let token: u64 = self.take_token();
            self.end_timer = Some(token);
            return Some(TimerRequest { kind: TimerKind::EndGrace, token, millis: END_GRACE_MS });
        }
        None
    }

    /// Takes in one poll: the process that holds the microphone, 0 for none, and
    /// its application. Returns the timer to start.
    pub fn poll(&mut self, pid: u32, app: String) -> (timer: Option<TimerRequest>)
        requires
            old(self)@.wf(),
        ensures
            final(self)@.wf(),
            final(self)@ == old(self)@.polled(pid, app@),
            timer == old(self)@.poll_timer(pid),
    {
        if pid != self.last_pid {
            self.handle_pid_change(pid, app)
        } else {
            None
        }
    }

    /// Takes in that the sustain timer with this token has run out: a meeting
    /// starts, unless the timer was cancelled.
    pub fn fire_started(&mut self, token: u64) -> (outcome: Outcome)
        requires
            old(self)@.wf(),
        ensures
            final(self)@.wf(),
            final(self)@ == old(self)@.sustained(token),
            crate::event::opt_detection(outcome.detection) == old(self)@.sustained_detection(token),
            outcome.watch@ == old(self)@.sustained_watch(token),
    {
        let due: bool = match &self.sustain {
            Some(p) => p.token == token,
            None => false,
        };
        if !due {
            return Outcome { watch: Watch::Unchanged, detection: None };
        }
        let pending: Option<Pending> = self.sustain.take();
        match pending {
            Some(p) => {
                if self.in_meeting {
                    return Outcome { watch: Watch::Unchanged, detection: None };
                }
                self.in_meeting = true;
                self.current_app = p.app.clone();
                let watch: Watch = if self.platform == Platform::MacOs {
                    self.watching = true;
                    Watch::Start {
                        owner: cg_window_owner(p.app.as_str()),
                        app: p.app.clone(),
                        pid: p.pid,
                    }
                } else {
                    Watch::Unchanged
                };
                let mut det: Detection = plain_detection(DetectionKind::Started, p.app);
                det.pid = p.pid;
                Outcome { watch, detection: Some(det) }
            },
            None => Outcome { watch: Watch::Unchanged, detection: None },
        }
    }

    /// Takes in that the window of the meeting has been identified.
    pub fn fire_updated(&self, app: String, title: String) -> (detection: Option<Detection>)
        ensures
            crate::event::opt_detection(detection) == self@.updated_detection(app@, title@),
    {
        if !self.in_meeting {
            return None;
        }
        let mut det: Detection = plain_detection(DetectionKind::Updated, app);
        det.title = Some(title);
        Some(det)
    }

    /// Takes in that other participants are speaking than before.
    pub fn fire_speakers(&self, app: String, speakers: Vec<String>) -> (detection: Option<
        Detection,
    >)
        ensures
            crate::event::opt_detection(detection) == self@.speakers_detection(
                app@,
                crate::text::texts(speakers@),
            ),
    {
        if !self.in_meeting {
            return None;
        }
        let mut det: Detection = plain_detection(DetectionKind::SpeakerChanged, app);
        det.speakers = speakers;
        Some(det)
    }

    /// Takes in that the meeting is over: its window was closed.
    pub fn fire_ended(&mut self) -> (outcome: Outcome)
        requires
            old(self)@.wf(),
        ensures
            final(self)@.wf(),
            final(self)@ == old(self)@.ended(),
            crate::event::opt_detection(outcome.detection) == old(self)@.ended_detection(),
            outcome.watch@ == old(self)@.ended_watch(),
    {
        self.end_timer = None;
        if !self.in_meeting {
            return Outcome { watch: Watch::Unchanged, detection: None };
        }
        let mut app: String = String::new();
        std::mem::swap(&mut app, &mut self.current_app);
        self.in_meeting = false;
        let watch: Watch = if self.watching {
            Watch::Stop
        } else {
            Watch::Unchanged
        };
        self.watching = false;
        Outcome { watch, detection: Some(plain_detection(DetectionKind::Ended, app)) }
    }

    /// Takes in that the grace timer with this token has run out: the meeting is
    /// over, unless the timer was cancelled.
    pub fn grace_expired(&mut self, token: u64) -> (outcome: Outcome)
        requires
            old(self)@.wf(),
        ensures
            final(self)@.wf(),
            old(self)@.grace_due(token) ==> final(self)@ == old(self)@.ended()
                && crate::event::opt_detection(outcome.detection) == old(self)@.ended_detection()
                && outcome.watch@ == old(self)@.ended_watch(),
            !old(self)@.grace_due(token) ==> final(self)@ == old(self)@ && outcome.detection is None
                && outcome.watch@ == WatchView::Unchanged,
    {
        let due: bool = match self.end_timer {
            Some(t) => t == token,
            None => false,
        };
        if due {
            self.fire_ended()
        } else {
            Outcome { watch: Watch::Unchanged, detection: None }
        }
    }
}

/// What can happen to a running monitor.
pub enum MonitorInput {
    Poll { pid: u32, app: Seq<char> },
    SustainExpired { token: u64 },
    GraceExpired { token: u64 },
    WindowClosed,
}

impl MonitorView {
    /// The state after one thing has happened.
    pub open spec fn after(self, input: MonitorInput) -> MonitorView {
        match input {
            MonitorInput::Poll { pid, app } => self.polled(pid, app),
            MonitorInput::SustainExpired { token } => self.sustained(token),
            MonitorInput::GraceExpired { token } => if self.grace_due(token) {
                self.ended()
            } else {
                self
            },
            MonitorInput::WindowClosed => self.ended(),
        }
    }

    /// What is noticed when one thing happens.
    pub open spec fn notice(self, input: MonitorInput) -> Option<crate::event::DetectionView> {
        match input {
            MonitorInput::Poll { pid, app } => None,
            MonitorInput::SustainExpired { token } => self.sustained_detection(token),
            MonitorInput::GraceExpired { token } => if self.grace_due(token) {
                self.ended_detection()
            } else {
                None
            },
            MonitorInput::WindowClosed => self.ended_detection(),
        }
    }

    /// The state after a course of things has happened.
    pub open spec fn run(self, inputs: Seq<MonitorInput>) -> MonitorView
        decreases inputs.len(),
    {
        if inputs.len() == 0 {
            self
        } else {
            self.run(inputs.drop_last()).after(inputs.last())
        }
    }

    /// Everything that is noticed in a course of things, in order.
    pub open spec fn notices(self, inputs: Seq<MonitorInput>) -> Seq<crate::event::DetectionView>
        decreases inputs.len(),
    {
        if inputs.len() == 0 {
            Seq::empty()
        } else {
            let before = self.notices(inputs.drop_last());
            match self.run(inputs.drop_last()).notice(inputs.last()) {
                Some(d) => before.push(d),
                None => before,
            }
        }
    }

    /// The state after a course of polls.
    pub open spec fn run_polls(self, polls: Seq<(u32, Seq<char>)>) -> MonitorView
        decreases polls.len(),
    {
        if polls.len() == 0 {
            self
        } else {
            self.run_polls(polls.drop_last()).polled(polls.last().0, polls.last().1)
        }
    }
}

/// One thing that happens keeps the state valid; it starts a meeting or ends the
/// one in progress exactly when that is noticed.
pub proof fn law_notice_tells_change(m: MonitorView, input: MonitorInput)
    requires
        m.wf(),
    ensures
        m.after(input).wf(),
        match m.notice(input) {
            Some(d) => if m.in_meeting {
                d.kind == DetectionKind::Ended && d.app == m.current_app && !m.after(
                    input,
                ).in_meeting
            } else {
                d.kind == DetectionKind::Started && m.after(input).in_meeting && m.after(
                    input,
                ).current_app == d.app
            },
            None => m.after(input).in_meeting == m.in_meeting && (m.in_meeting ==> m.after(
                input,
            ).current_app == m.current_app),
        },
{
}

/// The notice at position `i` is a start where `i` is even, and the end of the
/// meeting that the notice before it started where `i` is odd.
pub open spec fn notice_in_place(notices: Seq<crate::event::DetectionView>, i: int) -> bool {
    if i % 2 == 0 {
        notices[i].kind == DetectionKind::Started
    } else {
        notices[i].kind == DetectionKind::Ended && notices[i].app == notices[i - 1].app
    }
}

/// Meetings do not overlap: whatever happens, what is noticed is a start, then
/// the end of that same meeting, then the next start, and so on; and a meeting is
/// in progress exactly when the last start has not been followed by its end.
pub proof fn law_meetings_alternate(m: MonitorView, inputs: Seq<MonitorInput>)
    requires
        m.wf(),
        !m.in_meeting,
    ensures
        ({
            let notices = m.notices(inputs);
            let end = m.run(inputs);
            &&& end.wf()
            &&& forall|i: int|
                0 <= i < notices.len() ==> #[trigger] notice_in_place(notices, i)
            &&& end.in_meeting == (notices.len() % 2 == 1)
            &&& end.in_meeting ==> end.current_app == notices.last().app
        }),
    decreases inputs.len(),
{
    if inputs.len() > 0 {
        let before = inputs.drop_last();
        law_meetings_alternate(m, before);
        let mid = m.run(before);
        law_notice_tells_change(mid, inputs.last());
        let old_notices = m.notices(before);
        let notices = m.notices(inputs);
        match mid.notice(inputs.last()) {
            Some(d) => {
                assert(notices == old_notices.push(d));
                assert forall|i: int| 0 <= i < notices.len() implies #[trigger] notice_in_place(
                    notices,
                    i,
                ) by {
                    if i < old_notices.len() {
                        assert(notice_in_place(old_notices, i));
                    }
                }
            },
            None => {
                assert(notices == old_notices);
            },
        }
    }
}

/// How far token `t` lies behind token `u` when tokens are given out in a row.
spec fn token_distance(t: u64, u: u64) -> int {
    if u >= t {
        u - t
    } else {
        u - t + 0x1_0000_0000_0000_0000
    }
}

/// A meeting starts only on microphone activity that lasts. When the sustain
/// timer has been started and then runs out, the meeting is noticed exactly if no
/// poll in between found the microphone silent; the meeting noticed is the one
/// whose activity started the timer.
pub proof fn law_activity_must_last(m: MonitorView, polls: Seq<(u32, Seq<char>)>)
    requires
        m.wf(),
        m.sustain is Some,
        polls.len() < u64::MAX,
    ensures
        ({
            let unbroken = forall|i: int| 0 <= i < polls.len() ==> (#[trigger] polls[i]).0 != 0;
            let noticed = m.run_polls(polls).sustained_detection(m.sustain->0.token);
            &&& noticed is Some <==> unbroken
            &&& noticed is Some ==> noticed->0.app == m.sustain->0.app && noticed->0.pid
                == m.sustain->0.pid
        }),
{
    lemma_activity(m, polls);
}

proof fn lemma_activity(m: MonitorView, polls: Seq<(u32, Seq<char>)>)
    requires
        m.wf(),
        m.sustain is Some,
        polls.len() < u64::MAX,
    ensures
        ({
            let unbroken = forall|i: int| 0 <= i < polls.len() ==> (#[trigger] polls[i]).0 != 0;
            let end = m.run_polls(polls);
            let t = m.sustain->0.token;
            &&& end.wf()
            &&& !end.in_meeting
            &&& 1 <= token_distance(t, end.next_token) <= polls.len() + 1
            &&& unbroken ==> end.sustain == m.sustain && end.last_pid != 0
            &&& !unbroken ==> (end.sustain matches Some(p) ==> p.token != t)
        }),
    decreases polls.len(),
{
    if polls.len() > 0 {
        let before = polls.drop_last();
        lemma_activity(m, before);
        let unbroken = forall|i: int| 0 <= i < polls.len() ==> (#[trigger] polls[i]).0 != 0;
        let unbroken_before = forall|i: int|
            0 <= i < before.len() ==> (#[trigger] before[i]).0 != 0;
        assert(unbroken <==> unbroken_before && polls.last().0 != 0) by {
            if unbroken {
                assert forall|i: int| 0 <= i < before.len() implies (#[trigger] before[i]).0
                    != 0 by {
                    assert(before[i] == polls[i]);
                }
                assert(polls[polls.len() - 1].0 != 0);
            }
            if unbroken_before && polls.last().0 != 0 {
                assert forall|i: int| 0 <= i < polls.len() implies (#[trigger] polls[i]).0
                    != 0 by {
                    if i < before.len() {
                        assert(before[i] == polls[i]);
                    }
                }
            }
        }
    }
}

/// A meeting ends only on silence that lasts. When the grace timer has been
/// started and then runs out, the end is noticed exactly if no poll in between
/// found the microphone active.
pub proof fn law_silence_must_last(m: MonitorView, polls: Seq<(u32, Seq<char>)>)
    requires
        m.wf(),
        m.end_timer is Some,
        polls.len() < u64::MAX,
    ensures
        ({
            let unbroken = forall|i: int| 0 <= i < polls.len() ==> (#[trigger] polls[i]).0 == 0;
            let end = m.run_polls(polls);
            &&& end.grace_due(m.end_timer->0) <==> unbroken
            &&& end.in_meeting
            &&& end.current_app == m.current_app
        }),
{
    lemma_silence(m, polls);
}

proof fn lemma_silence(m: MonitorView, polls: Seq<(u32, Seq<char>)>)
    requires
        m.wf(),
        m.end_timer is Some,
        polls.len() < u64::MAX,
    ensures
        ({
            let unbroken = forall|i: int| 0 <= i < polls.len() ==> (#[trigger] polls[i]).0 == 0;
            let end = m.run_polls(polls);
            let t = m.end_timer->0;
            &&& end.wf()
            &&& end.in_meeting
            &&& end.current_app == m.current_app
            &&& 1 <= token_distance(t, end.next_token) <= polls.len() + 1
            &&& unbroken ==> end.end_timer == m.end_timer && end.last_pid == 0
            &&& !unbroken ==> (end.end_timer matches Some(u) ==> u != t)
        }),
    decreases polls.len(),
{
    if polls.len() > 0 {
        let before = polls.drop_last();
        lemma_silence(m, before);
        let unbroken = forall|i: int| 0 <= i < polls.len() ==> (#[trigger] polls[i]).0 == 0;
        let unbroken_before = forall|i: int|
            0 <= i < before.len() ==> (#[trigger] before[i]).0 == 0;
        assert(unbroken <==> unbroken_before && polls.last().0 == 0) by {
            if unbroken {
                assert forall|i: int| 0 <= i < before.len() implies (#[trigger] before[i]).0
                    == 0 by {
                    assert(before[i] == polls[i]);
                }
                assert(polls[polls.len() - 1].0 == 0);
            }
            if unbroken_before && polls.last().0 == 0 {
                assert forall|i: int| 0 <= i < polls.len() implies (#[trigger] polls[i]).0
                    == 0 by {
                    if i < before.len() {
                        assert(before[i] == polls[i]);
                    }
                }
            }
        }
    }
}

/// A timer that is not pending never is again, whatever happens: its token is not given
/// out a second time before the tokens run out.
proof fn lemma_token_stays_spent(m: MonitorView, t: u64, inputs: Seq<MonitorInput>, spare: nat)
    requires
        m.wf(),
        !m.sustain_due(t),
        !m.grace_due(t),
        1 <= token_distance(t, m.next_token) <= spare,
        spare + inputs.len() <= u64::MAX,
    ensures
        ({
            let end = m.run(inputs);
            &&& end.wf()
            &&& !end.sustain_due(t)
            &&& !end.grace_due(t)
            &&& 1 <= token_distance(t, end.next_token) <= spare + inputs.len()
        }),
    decreases inputs.len(),
{
    if inputs.len() > 0 {
        lemma_token_stays_spent(m, t, inputs.drop_last(), spare);
        law_notice_tells_change(m.run(inputs.drop_last()), inputs.last());
    }
}

/// A burst of activity that falls silent before the sustain time is over is no
/// meeting: the monitor is left as it was, but that the microphone is silent and that the
/// timer has taken a token, and that timer never leads to a notice, whatever happens
/// later.
pub proof fn law_short_burst_is_no_meeting(
    m: MonitorView,
    pid: u32,
    app: Seq<char>,
    inputs: Seq<MonitorInput>,
)
    requires
        m.wf(),
        !m.in_meeting,
        m.sustain is None,
        pid != m.last_pid,
        pid != 0,
        inputs.len() < u64::MAX,
    ensures
        ({
            let active = m.polled(pid, app);
            let silent = active.polled(0, Seq::empty());
            let token = m.next_token;
            &&& m.poll_timer(pid) == Some(
                TimerRequest { kind: TimerKind::Sustain, token, millis: SUSTAIN_MS },
            )
            &&& active.poll_timer(0) is None
            &&& silent == (MonitorView { last_pid: 0, next_token: token_after(token), ..m })
            &&& !silent.in_meeting
            &&& silent.run(inputs).sustained_detection(token) is None
            &&& silent.run(inputs).sustained(token) == silent.run(inputs)
        }),
{
    let silent = m.polled(pid, app).polled(0, Seq::empty());
    lemma_token_stays_spent(silent, m.next_token, inputs, 1);
}

/// A silence that is broken before the grace time is over does not end the meeting: it
/// goes on with its application, and the timer of that silence never ends it, whatever
/// happens later.
pub proof fn law_short_silence_ends_no_meeting(
    m: MonitorView,
    pid: u32,
    app: Seq<char>,
    inputs: Seq<MonitorInput>,
)
    requires
        m.wf(),
        m.in_meeting,
        m.last_pid != 0,
        pid != 0,
        inputs.len() < u64::MAX,
    ensures
        ({
            let silent = m.polled(0, Seq::empty());
            let active = silent.polled(pid, app);
            let token = m.next_token;
            &&& m.poll_timer(0) == Some(
                TimerRequest { kind: TimerKind::EndGrace, token, millis: END_GRACE_MS },
            )
            &&& silent.poll_timer(pid) is None
            &&& active == (MonitorView { last_pid: pid, next_token: token_after(token), ..m })
            &&& active.run(inputs).notice(MonitorInput::GraceExpired { token }) is None
            &&& active.run(inputs).after(MonitorInput::GraceExpired { token }) == active.run(
                inputs,
            )
        }),
{
    let active = m.polled(0, Seq::empty()).polled(pid, app);
    lemma_token_stays_spent(active, m.next_token, inputs, 1);
}

/// A monitor that is started again begins anew: the first process that holds the
/// microphone starts the sustain timer, whichever it was before the stop, unless a
/// meeting was left over.
pub proof fn law_restart_begins_anew(m: MonitorView, pid: u32)
    requires
        m.wf(),
        !m.in_meeting,
        pid != 0,
    ensures
        m.begun().wf(),
        m.begun().poll_timer(pid) == Some(
            TimerRequest { kind: TimerKind::Sustain, token: m.next_token, millis: SUSTAIN_MS },
        ),
{
}

/// A stopped monitor notices nothing more from the timers that were running.
pub proof fn law_stop_cancels_timers(m: MonitorView, token: u64)
    ensures
        m.stopped().sustained_detection(token) is None,
        m.stopped().sustained(token) == m.stopped(),
        !m.stopped().grace_due(token),
{
}

/// A closed meeting window ends the meeting at once, without waiting for
/// silence; the grace timer that may be running then has no further effect.
pub proof fn law_closed_window_ends_meeting(m: MonitorView, token: u64)
    requires
        m.wf(),
        m.in_meeting,
    ensures
        m.ended_detection() matches Some(d) && d.kind == DetectionKind::Ended && d.app
            == m.current_app,
        !m.ended().in_meeting,
        !m.ended().grace_due(token),
        m.ended().ended_detection() is None,
{
}

/// Outside a meeting the first poll that finds the microphone in use starts a wait of two
/// seconds, and in a meeting the first one that finds it unused a wait of twenty. While one
/// process keeps the microphone, or nobody does, nothing happens.
pub proof fn law_waiting_times(m: MonitorView, pid: u32, app: Seq<char>)
    requires
        m.wf(),
    ensures
        pid == m.last_pid ==> m.poll_timer(pid) is None && m.polled(pid, app) == m,
        m.polled(pid, app).last_pid == pid,
        m.polled(pid, app).in_meeting == m.in_meeting,
        m.polled(pid, app).current_app == m.current_app,
        m.polled(pid, app).watching == m.watching,
        m.polled(pid, app).started == m.started,
        m.polled(pid, app).platform == m.platform,
        ({
            let timer = m.poll_timer(pid);
            let after = m.polled(pid, app);
            &&& pid != m.last_pid && pid != 0 && !m.in_meeting && m.sustain is None ==> {
                &&& timer is Some
                &&& timer->0.kind == TimerKind::Sustain
                &&& timer->0.millis == 2000
                &&& after.sustain is Some
                &&& after.sustain->0.token == timer->0.token
                &&& after.sustain->0.pid == pid
                &&& after.sustain->0.app == app
                &&& after.end_timer is None
            }
            &&& pid == 0 && m.last_pid != 0 && m.in_meeting ==> {
                &&& timer is Some
                &&& timer->0.kind == TimerKind::EndGrace
                &&& timer->0.millis == 20000
                &&& after.end_timer == Some(timer->0.token)
                &&& after.sustain is None
            }
            &&& pid != 0 && m.last_pid != pid && (m.in_meeting || m.sustain is Some) ==> {
                &&& timer is None
                &&& after.sustain == m.sustain
                &&& after.end_timer is None
            }
            &&& pid == 0 && m.last_pid != 0 && !m.in_meeting ==> {
                &&& timer is None
                &&& after.sustain is None
                &&& after.end_timer is None
            }
        }),
{
}

/// A new timer has another token than the one before it.
pub proof fn law_tokens_change(m: MonitorView, pid: u32, app: Seq<char>)
    requires
        m.wf(),
        m.poll_timer(pid) is Some,
    ensures
        m.poll_timer(pid)->0.token == m.next_token,
        m.polled(pid, app).next_token != m.next_token,
        m.next_token < u64::MAX ==> m.polled(pid, app).next_token == m.next_token + 1,
{
}

/// When the two seconds are over the meeting begins: it is that of the process that was
/// found first, it is told with its application, its process and nothing else, and where
/// windows can be watched those of the application are.
pub proof fn law_meeting_begins(m: MonitorView, token: u64)
    requires
        m.wf(),
    ensures
        m.sustain is Some && m.sustain->0.token == token ==> ({
            let after = m.sustained(token);
            let noticed = m.sustained_detection(token);
            let watch = m.sustained_watch(token);
            &&& after.in_meeting
            &&& after.current_app == m.sustain->0.app
            &&& after.sustain is None
            &&& after.last_pid == m.last_pid
            &&& after.started == m.started
            &&& noticed is Some
            &&& noticed->0.kind == DetectionKind::Started
            &&& noticed->0.app == m.sustain->0.app
            &&& noticed->0.pid == m.sustain->0.pid
            &&& noticed->0.title is None
            &&& noticed->0.speakers.len() == 0
            &&& m.platform == Platform::MacOs ==> {
                &&& after.watching
                &&& watch is Start
                &&& watch->owner == crate::apps::window_owner(m.sustain->0.app)
                &&& watch->app == m.sustain->0.app
                &&& watch->pid == m.sustain->0.pid
            }
            &&& m.platform != Platform::MacOs ==> !after.watching && watch is Unchanged
        }),
        !(m.sustain is Some && m.sustain->0.token == token) ==> {
            &&& m.sustained(token) == m
            &&& m.sustained_detection(token) is None
            &&& m.sustained_watch(token) is Unchanged
        },
{
}

/// When a meeting is over it is told with its application alone, nothing of it is left, and
/// its watchers are stopped.
pub proof fn law_meeting_ends(m: MonitorView)
    requires
        m.wf(),
    ensures
        ({
            let after = m.ended();
            let noticed = m.ended_detection();
            &&& !after.in_meeting
            &&& !after.watching
            &&& after.end_timer is None
            &&& after.last_pid == m.last_pid
            &&& after.started == m.started
            &&& after.platform == m.platform
            &&& after.sustain == m.sustain
            &&& after.next_token == m.next_token
            &&& m.in_meeting ==> after.current_app.len() == 0
            &&& m.in_meeting <==> noticed is Some
            &&& m.in_meeting ==> {
                &&& noticed->0.kind == DetectionKind::Ended
                &&& noticed->0.app == m.current_app
                &&& noticed->0.pid == 0
                &&& noticed->0.title is None
                &&& noticed->0.speakers.len() == 0
            }
            &&& m.ended_watch() == if m.watching {
                WatchView::Stop
            } else {
                WatchView::Unchanged
            }
        }),
{
}

/// In a meeting, and only there, its title and its speakers are told as they came in.
pub proof fn law_meeting_is_described(
    m: MonitorView,
    app: Seq<char>,
    title: Seq<char>,
    speakers: Seq<Seq<char>>,
)
    ensures
        m.in_meeting <==> m.updated_detection(app, title) is Some,
        m.in_meeting <==> m.speakers_detection(app, speakers) is Some,
        m.in_meeting ==> ({
            let updated = m.updated_detection(app, title)->0;
            let changed = m.speakers_detection(app, speakers)->0;
            &&& updated.kind == DetectionKind::Updated
            &&& updated.app == app
            &&& updated.pid == 0
            &&& updated.title == Some(title)
            &&& updated.speakers.len() == 0
            &&& changed.kind == DetectionKind::SpeakerChanged
            &&& changed.app == app
            &&& changed.pid == 0
            &&& changed.title is None
            &&& changed.speakers == speakers
        }),
{
}

/// Starting leaves a meeting in progress as it is and forgets who held the microphone;
/// stopping keeps the meeting and who held the microphone. Neither leaves a timer behind.
pub proof fn law_start_and_stop(m: MonitorView)
    ensures
        m.begun().started,
        m.begun().last_pid == 0,
        m.begun().sustain is None,
        m.begun().end_timer is None,
        m.begun().in_meeting == m.in_meeting,
        m.begun().current_app == m.current_app,
        m.begun().watching == m.watching,
        m.begun().platform == m.platform,
        !m.stopped().started,
        m.stopped().sustain is None,
        m.stopped().end_timer is None,
        !m.stopped().watching,
        m.stopped().in_meeting == m.in_meeting,
        m.stopped().current_app == m.current_app,
        m.stopped().last_pid == m.last_pid,
        m.stopped().platform == m.platform,
{
}

/// A new monitor is outside any meeting and waits for nothing.
pub proof fn law_new_monitor(platform: Platform)
    ensures
        ({
            let m = MonitorView::idle(platform);
            &&& m.platform == platform
            &&& !m.started
            &&& !m.in_meeting
            &&& m.current_app.len() == 0
            &&& m.last_pid == 0
            &&& m.sustain is None
            &&& m.end_timer is None
            &&& m.next_token == 0
            &&& !m.watching
        }),
{
}

/// A poll tells nothing; a timer that has run out and a closed window tell what they lead
/// to, the timer only where it is the pending one.
pub proof fn law_each_input_has_its_effect(m: MonitorView, pid: u32, app: Seq<char>, token: u64)
    ensures
        m.notice(MonitorInput::Poll { pid, app }) is None,
        m.after(MonitorInput::Poll { pid, app }) == m.polled(pid, app),
        m.notice(MonitorInput::SustainExpired { token }) == m.sustained_detection(token),
        m.after(MonitorInput::SustainExpired { token }) == m.sustained(token),
        m.end_timer == Some(token) ==> m.notice(MonitorInput::GraceExpired { token })
            == m.ended_detection() && m.after(MonitorInput::GraceExpired { token }) == m.ended(),
        m.end_timer != Some(token) ==> m.notice(MonitorInput::GraceExpired { token }) is None
            && m.after(MonitorInput::GraceExpired { token }) == m,
        m.notice(MonitorInput::WindowClosed) == m.ended_detection(),
        m.after(MonitorInput::WindowClosed) == m.ended(),
{
}

/// What is said of a change of watchers is what it holds.
pub proof fn law_watch_says_what_it_holds(w: Watch)
    ensures
        w is Unchanged <==> w@ is Unchanged,
        w is Stop <==> w@ is Stop,
        w is Start <==> w@ is Start,
        w is Start ==> w@->owner == w->owner@ && w@->app == w->app@ && w@->pid == w->pid,
{
}

} // verus!
