//! What a listener promises over time: the order of its events, one recording at a
//! time, and requests that come to an end.
use vstd::prelude::*;

use crate::event::{Permission, PermissionGranted, Platform};
use crate::recorder::{
    ActionView, ListenerInput, ListenerView, PlanView, RecordNextView, RecordReply, SettingsView,
};

verus! {

/// The events among a list of actions.
pub open spec fn events_in(actions: Seq<ActionView>) -> Seq<crate::event::EventView>
    decreases actions.len(),
{
    if actions.len() == 0 {
        Seq::empty()
    } else {
        let before = events_in(actions.drop_last());
        match actions.last() {
            ActionView::Emit(event) => before.push(event),
            _ => before,
        }
    }
}

/// Where in the life of a meeting a listener stands.
pub enum Phase {
    Idle,
    Meeting { app: Seq<char> },
    Recording { app: Seq<char> },
}

/// The phase that an event leads to; none where the event does not belong there.
///
/// A meeting is detected where there is none, a recording starts in the meeting
/// that it is of, and a meeting that ends is the one in progress. Titles and
/// speakers are told of a meeting in progress. The other events may come at any
/// time.
pub open spec fn phase_after(phase: Option<Phase>, event: crate::event::EventView) -> Option<
    Phase,
> {
    match phase {
        None => None,
        Some(p) => match event {
            crate::event::EventView::MeetingDetected { app, pid } => match p {
                Phase::Idle => Some(Phase::Meeting { app }),
                _ => None,
            },
            crate::event::EventView::MeetingUpdated { app, title } => match p {
                Phase::Idle => None,
                _ => Some(p),
            },
            crate::event::EventView::SpeakerChanged { speakers, app } => match p {
                Phase::Idle => None,
                _ => Some(p),
            },
            crate::event::EventView::RecordingStarted { app } => match p {
                Phase::Meeting { app: a } => if a == app {
                    Some(Phase::Recording { app })
                } else {
                    None
                },
                _ => None,
            },
            crate::event::EventView::MeetingEnded { app } => match p {
                Phase::Idle => None,
                Phase::Meeting { app: a } => if a == app {
                    Some(Phase::Idle)
                } else {
                    None
                },
                Phase::Recording { app: a } => if a == app {
                    Some(Phase::Idle)
                } else {
                    None
                },
            },
            _ => Some(p),
        },
    }
}

/// The phase that a course of events leads to; none where it is out of order.
pub open spec fn phase_at_end(phase: Option<Phase>, events: Seq<crate::event::EventView>) -> Option<
    Phase,
>
    decreases events.len(),
{
    if events.len() == 0 {
        phase
    } else {
        phase_after(phase_at_end(phase, events.drop_last()), events.last())
    }
}

impl<H> ListenerView<H> {
    /// The events that follow when something happens.
    pub open spec fn emitted(self, input: ListenerInput) -> Seq<crate::event::EventView> {
        match input {
            ListenerInput::Reply(reply) => self.record_events(reply),
            _ => events_in(self.actions_after(input)),
        }
    }

    /// The state after a course of things has happened.
    pub open spec fn run(self, inputs: Seq<ListenerInput>) -> ListenerView<H>
        decreases inputs.len(),
    {
        if inputs.len() == 0 {
            self
        } else {
            self.run(inputs.drop_last()).after(inputs.last())
        }
    }

    /// The microphone is reported as started only where a recording can start.
    pub open spec fn admits(self, inputs: Seq<ListenerInput>) -> bool
        decreases inputs.len(),
    {
        inputs.len() > 0 ==> {
            &&& self.admits(inputs.drop_last())
            &&& inputs.last() matches ListenerInput::Reply(reply) ==> (reply is MicStarted
                ==> self.run(inputs.drop_last()).can_record())
        }
    }

    /// The events that follow in a course of things, in order.
    pub open spec fn all_emitted(self, inputs: Seq<ListenerInput>) -> Seq<crate::event::EventView>
        decreases inputs.len(),
    {
        if inputs.len() == 0 {
            Seq::empty()
        } else {
            self.all_emitted(inputs.drop_last()) + self.run(inputs.drop_last()).emitted(
                inputs.last(),
            )
        }
    }

    /// Where the listener stands in the life of a meeting.
    pub open spec fn phase(self) -> Phase {
        if !self.in_meeting {
            Phase::Idle
        } else if self.recording {
            Phase::Recording { app: self.app }
        } else {
            Phase::Meeting { app: self.app }
        }
    }

    /// The listener is started, and it and its monitor agree on whether there is a
    /// meeting.
    pub open spec fn in_step(self) -> bool {
        &&& self.wf()
        &&& self.monitor is Some
        &&& self.monitor->0.in_meeting == self.in_meeting
    }
}

/// The phase that a course of events leads to, part by part.
proof fn lemma_phase_of_parts(
    phase: Option<Phase>,
    first: Seq<crate::event::EventView>,
    second: Seq<crate::event::EventView>,
)
    ensures
        phase_at_end(phase, first + second) == phase_at_end(phase_at_end(phase, first), second),
    decreases second.len(),
{
    if second.len() == 0 {
        assert(first + second =~= first);
    } else {
        lemma_phase_of_parts(phase, first, second.drop_last());
        assert((first + second).drop_last() =~= first + second.drop_last());
        assert((first + second).last() == second.last());
    }
}

/// One thing that happens keeps the listener valid, and its events lead from the
/// phase before to the phase after.
proof fn lemma_step_in_order<H>(l: ListenerView<H>, input: ListenerInput)
    requires
        l.in_step(),
        input matches ListenerInput::Reply(reply) ==> (reply is MicStarted ==> l.can_record()),
    ensures
        l.after(input).in_step(),
        phase_at_end(Some(l.phase()), l.emitted(input)) == Some(l.after(input).phase()),
{
    let e = l.emitted(input);
    reveal_with_fuel(phase_at_end, 3);
    reveal_with_fuel(events_in, 3);
    match input {
        ListenerInput::Reply(reply) => {
            if e.len() == 2 {
                assert(e.drop_last().drop_last().len() == 0);
            }
        },
        _ => {
            let actions = l.detected_actions(l.noticed(input));
            if actions.len() == 1 {
                assert(actions.drop_last() =~= Seq::<ActionView>::empty());
                assert(events_in(actions.drop_last()) =~= Seq::<
                    crate::event::EventView,
                >::empty());
            }
            if actions.len() == 2 {
                assert(actions.drop_last().drop_last() =~= Seq::<ActionView>::empty());
                assert(actions.drop_last().last() == actions[0]);
            }
            if e.len() == 1 {
                assert(e.drop_last() =~= Seq::<crate::event::EventView>::empty());
            }
        },
    }
}

/// Events come in the order of the life of a meeting: whatever happens to a
/// started listener, a meeting is detected before it is told of, recorded or
/// ended; a recording starts only within the meeting that it is of; and each
/// meeting that was detected ends before the next one is detected. At any time the
/// events so far tell the phase that the listener is in.
pub proof fn law_events_in_order<H>(l: ListenerView<H>, inputs: Seq<ListenerInput>)
    requires
        l.in_step(),
        l.admits(inputs),
    ensures
        l.run(inputs).in_step(),
        phase_at_end(Some(l.phase()), l.all_emitted(inputs)) == Some(l.run(inputs).phase()),
    decreases inputs.len(),
{
    if inputs.len() > 0 {
        let before = inputs.drop_last();
        law_events_in_order(l, before);
        let mid = l.run(before);
        lemma_step_in_order(mid, inputs.last());
        lemma_phase_of_parts(Some(l.phase()), l.all_emitted(before), mid.emitted(inputs.last()));
    }
}

/// A started listener is in step with its monitor, and it stays so until it is
/// stopped; a new start is in step where no meeting was left over.
pub proof fn law_start_is_in_step<H>(l: ListenerView<H>)
    requires
        l.wf(),
        l.monitor is None,
        !l.in_meeting,
    ensures
        (ListenerView {
            monitor: Some(
                crate::monitor::MonitorView {
                    started: true,
                    ..crate::monitor::MonitorView::idle(l.platform)
                },
            ),
            session: crate::monitor::token_after(l.session),
            running: l.settings,
            ..l
        }).in_step(),
{
}

/// What happens ends the meeting: its window was closed, or the silence has lasted.
pub open spec fn ends_meeting<H>(l: ListenerView<H>, input: ListenerInput) -> bool {
    ||| input is WindowClosed
    ||| input matches ListenerInput::GraceExpired { token } && l.monitor->0.grace_due(token)
}

/// The end of a meeting that is being recorded, by the closing of its window or by
/// silence, is told before its capture is stopped, so what follows from the end of the
/// capture comes after it.
pub proof fn law_end_is_told_before_capture_stops<H>(l: ListenerView<H>, input: ListenerInput)
    requires
        l.in_step(),
        l.recording,
        ends_meeting(l, input),
    ensures
        l.actions_after(input) == seq![
            ActionView::Emit(crate::event::EventView::MeetingEnded { app: l.app }),
            ActionView::StopCapture,
        ],
        !l.after(input).recording,
        !l.after(input).in_meeting,
{
    assert(l.actions_after(input) =~= seq![
        ActionView::Emit(crate::event::EventView::MeetingEnded { app: l.app }),
        ActionView::StopCapture,
    ]);
}

/// The events that follow when the capture of a recording has ended: none where
/// nothing was captured, and otherwise that it has ended and then what became of the
/// files.
pub open spec fn capture_events(plan: PlanView, captured: bool, written: bool) -> Seq<
    crate::event::EventView,
> {
    if captured {
        seq![
            crate::recorder::ended_event(plan),
            crate::recorder::written_event(plan, written),
        ]
    } else {
        Seq::empty()
    }
}

/// Once a recording was started and the meeting ends, the end of the meeting is told
/// once, after it the end of the recording once, and after both that the files are
/// there, or the error where they could not be written. Where nothing was captured
/// the end of the meeting is all that is told.
pub proof fn law_end_of_recording_is_told_once<H>(
    l: ListenerView<H>,
    input: ListenerInput,
    plan: PlanView,
    written: bool,
)
    requires
        l.in_step(),
        l.recording,
        ends_meeting(l, input),
        plan.app == l.app,
    ensures
        l.emitted(input) + capture_events(plan, true, written) == seq![
            crate::event::EventView::MeetingEnded { app: l.app },
            crate::event::EventView::RecordingEnded { app: l.app },
            crate::recorder::written_event(plan, written),
        ],
        l.emitted(input) + capture_events(plan, false, written) == seq![
            crate::event::EventView::MeetingEnded { app: l.app },
        ],
        crate::recorder::written_event(plan, true) is RecordingReady,
        crate::recorder::written_event(plan, false) is Error,
{
    law_end_is_told_before_capture_stops(l, input);
    let ended = crate::event::EventView::MeetingEnded { app: l.app };
    let actions = l.actions_after(input);
    assert(actions.drop_last() =~= seq![ActionView::Emit(ended)]);
    assert(actions.drop_last().drop_last() =~= Seq::<ActionView>::empty());
    assert(events_in(actions.drop_last().drop_last()) =~= Seq::<crate::event::EventView>::empty());
    assert(events_in(actions.drop_last()) =~= seq![ended]);
    assert(l.emitted(input) =~= seq![ended]);
    assert(l.emitted(input) + capture_events(plan, true, written) =~= seq![
        ended,
        crate::event::EventView::RecordingEnded { app: l.app },
        crate::recorder::written_event(plan, written),
    ]);
    assert(l.emitted(input) + capture_events(plan, false, written) =~= seq![ended]);
}

/// A recording is of one meeting: from its start on, as long as it runs, the
/// application is the one that it was started for.
pub proof fn law_recording_keeps_its_meeting<H>(l: ListenerView<H>, input: ListenerInput, secs: u64)
    requires
        l.in_step(),
    ensures
        l.plan(secs as nat).app == l.app,
        l.replied(RecordReply::MicStarted { secs }).app == l.app,
        l.recording && l.after(input).recording ==> l.after(input).app == l.app,
{
}

/// Handlers stay registered, in their order, whatever happens.
pub proof fn law_handlers_are_kept<H>(l: ListenerView<H>, inputs: Seq<ListenerInput>)
    ensures
        l.run(inputs).handlers == l.handlers,
    decreases inputs.len(),
{
    if inputs.len() > 0 {
        law_handlers_are_kept(l, inputs.drop_last());
    }
}

/// Where it is told at the start that all permissions are granted, recording can
/// proceed: a request to record a meeting is not turned down for a permission, and
/// nobody is asked for one.
pub proof fn law_granted_means_recording_proceeds<H>(
    l: ListenerView<H>,
    screen: PermissionGranted,
    microphone: PermissionGranted,
)
    requires
        l.can_record(),
        l.platform == Platform::MacOs,
    ensures
        crate::recorder::start_report(l.platform, screen, microphone).contains(
            crate::event::EventView::PermissionsGranted,
        ) <==> screen == PermissionGranted::Granted && microphone == PermissionGranted::Granted,
        crate::recorder::start_report(l.platform, screen, microphone).contains(
            crate::event::EventView::PermissionsGranted,
        ) ==> {
            &&& l.record_first() is CheckScreen
            &&& l.record_then(RecordReply::ScreenChecked(screen)) is CheckMicrophone
            &&& l.record_then(RecordReply::MicrophoneChecked(microphone)) is StartTap
            &&& l.record_events(RecordReply::ScreenChecked(screen)).len() == 0
            &&& l.record_events(RecordReply::MicrophoneChecked(microphone)).len() == 0
        },
{
    let granted = crate::event::EventView::PermissionsGranted;
    let report = crate::recorder::start_report(l.platform, screen, microphone);
    if screen == PermissionGranted::Granted && microphone == PermissionGranted::Granted {
        assert(report[2] == granted);
    } else if report.contains(granted) {
        let i = choose|i: int| 0 <= i < report.len() && report[i] == granted;
        assert(i == 0 || i == 1);
    }
}

/// Captures are started with the sample rate in effect and a fixed amount of audio at
/// a time.
pub proof fn law_chunks_are_fixed<H>(l: ListenerView<H>)
    requires
        l.wf(),
    ensures
        l.can_record() ==> l.begin_capture() == (RecordNextView::StartTap {
            sample_rate: l.in_effect().sample_rate,
            chunk_ms: 200,
        }),
        l.record_then(RecordReply::TapStarted) == (RecordNextView::StartMic {
            sample_rate: l.in_effect().sample_rate,
            chunk_ms: 200,
        }),
{
}

/// Only one recording runs at a time, and none without a meeting: where there is
/// no meeting or a recording is running, a request to record needs nothing and no
/// reply to an earlier one leads to a capture.
pub proof fn law_one_recording_at_a_time<H>(l: ListenerView<H>, status: PermissionGranted)
    requires
        !l.can_record(),
    ensures
        l.record_first() is Done,
        !(l.record_then(RecordReply::MicrophoneChecked(status)) is StartTap),
        !(l.record_then(RecordReply::MicrophoneAnswered(status)) is StartTap),
{
}

/// Settings that are made while the listener is started have no effect on it: what
/// a request to record leads to stays the same.
pub proof fn law_settings_wait_for_start<H>(
    l: ListenerView<H>,
    settings: SettingsView,
    reply: RecordReply,
)
    requires
        l.monitor is Some,
    ensures
        ({
            let changed = ListenerView { settings, ..l };
            &&& changed.in_effect() == l.in_effect()
            &&& changed.record_first() == l.record_first()
            &&& changed.record_then(reply) == l.record_then(reply)
            &&& changed.record_events(reply) == l.record_events(reply)
        }),
{
}

/// How many more turns a request to record can take at most.
pub open spec fn turns_left(next: RecordNextView) -> nat {
    match next {
        RecordNextView::CheckScreen => 5,
        RecordNextView::CheckMicrophone => 4,
        RecordNextView::RequestMicrophone => 3,
        RecordNextView::StartTap { sample_rate, chunk_ms } => 2,
        RecordNextView::StartMic { sample_rate, chunk_ms } => 1,
        _ => 0,
    }
}

/// The reply answers what the request needed.
pub open spec fn answers(reply: RecordReply, next: RecordNextView) -> bool {
    match next {
        RecordNextView::CheckScreen => reply is ScreenChecked,
        RecordNextView::CheckMicrophone => reply is MicrophoneChecked,
        RecordNextView::RequestMicrophone => reply is MicrophoneAnswered,
        RecordNextView::StartTap { sample_rate, chunk_ms } => reply is TapStarted
            || reply is TapFailed,
        RecordNextView::StartMic { sample_rate, chunk_ms } => reply is MicStarted
            || reply is MicFailed,
        _ => false,
    }
}

/// A request to record comes to an end: every reply takes it further.
pub proof fn law_record_request_ends<H>(
    l: ListenerView<H>,
    next: RecordNextView,
    reply: RecordReply,
)
    requires
        answers(reply, next),
    ensures
        turns_left(l.record_then(reply)) < turns_left(next),
{
}

/// Where Screen Recording is denied the user is told so and is not bothered with
/// a microphone dialog.
pub proof fn law_no_dialog_without_screen<H>(l: ListenerView<H>)
    ensures
        l.record_then(RecordReply::ScreenChecked(PermissionGranted::Denied)) is Done,
        l.record_events(RecordReply::ScreenChecked(PermissionGranted::Denied)) == seq![
            crate::recorder::status_event(Permission::ScreenCapture, PermissionGranted::Denied),
            crate::recorder::error_event(crate::recorder::screen_denied_text()),
        ],
{
}

/// What becomes of a request to record is told: where the capture begins its start is,
/// and where a request ends without a capture an error is, unless there was nothing
/// to record.
pub proof fn law_outcome_is_told<H>(l: ListenerView<H>, reply: RecordReply)
    ensures
        l.record_then(reply) is Capture ==> l.record_events(reply) == seq![
            crate::event::EventView::RecordingStarted { app: l.app },
        ],
        l.record_then(reply) is Done || l.record_then(reply) is StopTap ==> !l.can_record() || (
        l.record_events(reply).len() > 0 && l.record_events(reply).last() is Error),
{
}

/// A meeting that is recorded from its beginning to the closing of its window.
pub open spec fn recorded_meeting(pid: u32, app: Seq<char>, token: u64, secs: u64) -> Seq<
    ListenerInput,
> {
    seq![
        ListenerInput::Poll { pid, app },
        ListenerInput::SustainExpired { token },
        ListenerInput::Reply(RecordReply::TapStarted),
        ListenerInput::Reply(RecordReply::MicStarted { secs }),
        ListenerInput::WindowClosed,
    ]
}

/// A meeting that is recorded is told as detected, then as being recorded, then as
/// ended, each of the same application.
pub proof fn law_recorded_meeting_is_told<H>(
    l: ListenerView<H>,
    pid: u32,
    app: Seq<char>,
    secs: u64,
)
    requires
        l.in_step(),
        !l.in_meeting,
        l.monitor->0.last_pid == 0,
        pid != 0,
    ensures
        ({
            let course = recorded_meeting(pid, app, l.monitor->0.next_token, secs);
            &&& l.admits(course)
            &&& l.all_emitted(course) == seq![
                crate::event::EventView::MeetingDetected { app, pid },
                crate::event::EventView::RecordingStarted { app },
                crate::event::EventView::MeetingEnded { app },
            ]
            &&& l.run(course).phase() is Idle
        }),
{
    let token = l.monitor->0.next_token;
    let none = Seq::<crate::event::EventView>::empty();
    let c5 = recorded_meeting(pid, app, token, secs);
    let c4 = c5.drop_last();
    let c3 = c4.drop_last();
    let c2 = c3.drop_last();
    let c1 = c2.drop_last();
    let c0 = c1.drop_last();
    assert(c0.len() == 0);
    let l1 = l.after(ListenerInput::Poll { pid, app });
    assert(l.run(c0) == l);
    assert(l.run(c1) == l1);
    assert(l.emitted(ListenerInput::Poll { pid, app }) =~= none);
    assert(l.all_emitted(c0) =~= none);
    assert(l.all_emitted(c1) =~= none);
    let sustained = ListenerInput::SustainExpired { token };
    let l2 = l1.after(sustained);
    assert(l.run(c2) == l2);
    let detected = crate::event::EventView::MeetingDetected { app, pid };
    let actions = l1.detected_actions(l1.noticed(sustained));
    assert(actions.drop_last() =~= seq![ActionView::Emit(detected)]);
    assert(actions.drop_last().drop_last() =~= Seq::<ActionView>::empty());
    assert(events_in(actions.drop_last().drop_last()) =~= none);
    assert(events_in(actions.drop_last()) =~= seq![detected]);
    assert(l1.emitted(sustained) =~= seq![detected]);
    assert(l.all_emitted(c2) =~= seq![detected]);
    assert(l2.can_record());
    assert(l.run(c3) == l2);
    assert(l.all_emitted(c3) =~= seq![detected]);
    let begun = ListenerInput::Reply(RecordReply::MicStarted { secs });
    let l4 = l2.after(begun);
    assert(l.run(c4) == l4);
    let started = crate::event::EventView::RecordingStarted { app };
    assert(l2.emitted(begun) =~= seq![started]);
    assert(l.all_emitted(c4) =~= seq![detected, started]);
    law_end_is_told_before_capture_stops(l4, ListenerInput::WindowClosed);
    let ended = crate::event::EventView::MeetingEnded { app };
    let last = l4.detected_actions(l4.noticed(ListenerInput::WindowClosed));
    assert(last.drop_last() =~= seq![ActionView::Emit(ended)]);
    assert(last.drop_last().drop_last() =~= Seq::<ActionView>::empty());
    assert(events_in(last.drop_last().drop_last()) =~= none);
    assert(events_in(last.drop_last()) =~= seq![ended]);
    assert(l4.emitted(ListenerInput::WindowClosed) =~= seq![ended]);
    assert(l.all_emitted(c5) =~= seq![detected, started, ended]);
    assert(l.admits(c0));
    assert(l.admits(c1));
    assert(l.admits(c2));
    assert(l.admits(c3));
    assert(l.admits(c4));
}

/// Outside macOS there are no permissions to ask for: none is told, and a request to
/// record goes straight to the audio.
pub proof fn law_no_permissions_elsewhere<H>(
    l: ListenerView<H>,
    screen: PermissionGranted,
    microphone: PermissionGranted,
)
    requires
        l.platform == Platform::Other,
    ensures
        crate::recorder::start_report(l.platform, screen, microphone) == seq![
            crate::event::EventView::PermissionsGranted,
        ],
        crate::recorder::request_report(l.platform, screen, microphone) == seq![
            crate::event::EventView::PermissionsGranted,
        ],
        l.record_first() is Done || l.record_first() is StartTap,
{
}

/// Outside macOS neither windows nor speakers are watched, whatever happens.
pub proof fn law_no_watchers_elsewhere<H>(l: ListenerView<H>, input: ListenerInput)
    requires
        l.wf(),
        l.monitor is Some,
        l.platform == Platform::Other,
    ensures
        l.watch_after(input) is Unchanged,
{
}

} // verus!
