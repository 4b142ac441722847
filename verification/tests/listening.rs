//! The monitor and the listener.
use side_huddle::channel::{audio_channel, collect_next, AudioChunk};
use side_huddle::event::Platform;
use side_huddle::monitor::{
    Monitor, TimerKind, TimerRequest, Watch, END_GRACE_MS, POLL_INTERVAL_MS, SUSTAIN_MS,
};
use side_huddle::paths::recording_paths;
use side_huddle::recorder::{
    emit, files_written, finish_recording, Action, RecordNext, RecordReply, RecordingPlan, Stopped,
};
use side_huddle::wav::wav_bytes;
use side_huddle::{Error, Event, MeetingListener, Permission, PermissionGranted};
use std::cell::RefCell;

fn listener(platform: Platform) -> MeetingListener<u32> {
    MeetingListener::new(platform, Some("/rec".to_string()))
}

/// A started listener in a meeting with Zoom, and the number of its session.
fn in_meeting(platform: Platform) -> (MeetingListener<u32>, u64) {
    let mut l = listener(platform);
    let session = l.start(PermissionGranted::Granted, PermissionGranted::Granted).1.unwrap();
    let timer = l.poll(session, 42, "Zoom".to_string()).unwrap();
    l.sustain_expired(session, timer.token);
    (l, session)
}

/// Records the current meeting on a platform where nothing has to be asked for.
fn record(l: &mut MeetingListener<u32>) -> RecordingPlan {
    assert!(matches!(l.record(), RecordNext::StartTap { .. }));
    assert!(matches!(l.record_next(RecordReply::TapStarted).next, RecordNext::StartMic { .. }));
    match l.record_next(RecordReply::MicStarted { secs: 1700000000 }).next {
        RecordNext::Capture(plan) => plan,
        other => panic!("{:?}", other),
    }
}

fn detected(app: &str, pid: u32) -> Action {
    Action::Emit(Event::MeetingDetected { app: app.to_string(), pid })
}

fn ended(app: &str) -> Action {
    Action::Emit(Event::MeetingEnded { app: app.to_string() })
}

#[test]
fn timings_are_as_documented() {
    assert_eq!(SUSTAIN_MS, 2000);
    assert_eq!(END_GRACE_MS, 20000);
    assert_eq!(POLL_INTERVAL_MS, 300);
}

#[test]
fn activity_has_to_last() {
    let mut m = Monitor::new(Platform::Other);
    m.start().unwrap();
    let timer = m.poll(7, "Zoom".to_string());
    let expected = TimerRequest { kind: TimerKind::Sustain, token: 0, millis: 2000 };
    assert_eq!(timer, Some(expected));
    assert_eq!(m.poll(7, "Zoom".to_string()), None);
    assert_eq!(m.poll(0, String::new()), None);
    let outcome = m.fire_started(0);
    assert_eq!(outcome.detection, None);
    assert_eq!(outcome.watch, Watch::Unchanged);
    let timer = m.poll(8, "Zoom".to_string()).unwrap();
    assert_eq!(timer.token, 1);
    assert_eq!(m.fire_started(0).detection, None);
    let started = m.fire_started(1).detection.unwrap();
    assert_eq!(started.app, "Zoom");
    assert_eq!(started.pid, 8);
}

#[test]
fn silence_has_to_last() {
    let mut m = Monitor::new(Platform::Other);
    m.start().unwrap();
    m.poll(7, "Zoom".to_string());
    m.fire_started(0).detection.unwrap();
    let timer = m.poll(0, String::new()).unwrap();
    assert_eq!(timer.kind, TimerKind::EndGrace);
    assert_eq!(timer.millis, 20000);
    assert_eq!(m.poll(9, "Zoom".to_string()), None);
    assert_eq!(m.grace_expired(timer.token).detection, None);
    let timer = m.poll(0, String::new()).unwrap();
    let over = m.grace_expired(timer.token).detection.unwrap();
    assert_eq!(over.app, "Zoom");
    assert_eq!(m.grace_expired(timer.token).detection, None);
}

#[test]
fn meetings_alternate() {
    let mut m = Monitor::new(Platform::MacOs);
    m.start().unwrap();
    m.poll(7, "Zoom".to_string());
    let first = m.fire_started(0);
    assert!(first.detection.is_some());
    let expected =
        Watch::Start { owner: "zoom.us".to_string(), app: "Zoom".to_string(), pid: 7 };
    assert_eq!(first.watch, expected);
    assert!(m.fire_updated("Zoom".to_string(), "Standup".to_string()).is_some());
    let over = m.fire_ended();
    assert_eq!(over.watch, Watch::Stop);
    assert_eq!(over.detection.unwrap().app, "Zoom");
    assert_eq!(m.fire_ended().detection, None);
    assert_eq!(m.fire_updated("Zoom".to_string(), "Standup".to_string()), None);
    assert_eq!(m.fire_speakers("Zoom".to_string(), vec!["Ann".to_string()]), None);
}

#[test]
fn a_monitor_starts_once_and_stops() {
    let mut m = Monitor::new(Platform::Other);
    assert_eq!(m.start(), Ok(()));
    assert_eq!(m.start(), Err(Error::AlreadyStarted));
    m.poll(7, "Zoom".to_string());
    assert!(!m.stop());
    assert_eq!(m.fire_started(0).detection, None);
    assert_eq!(m.start(), Ok(()));
    let timer = m.poll(7, "Zoom".to_string()).unwrap();
    assert_eq!(timer.kind, TimerKind::Sustain);
    assert!(m.fire_started(timer.token).detection.is_some());
}

fn statuses(screen: PermissionGranted, microphone: PermissionGranted) -> Vec<Event> {
    vec![
        Event::PermissionStatus { permission: Permission::ScreenCapture, status: screen },
        Event::PermissionStatus { permission: Permission::Microphone, status: microphone },
    ]
}

#[test]
fn permissions_are_told_on_start() {
    let mut l = listener(Platform::MacOs);
    let (events, started) = l.start(PermissionGranted::Granted, PermissionGranted::Granted);
    assert_eq!(started, Ok(1));
    let mut expected = statuses(PermissionGranted::Granted, PermissionGranted::Granted);
    expected.push(Event::PermissionsGranted);
    assert_eq!(events, expected);
}

#[test]
fn a_missing_permission_is_not_told_as_granted() {
    let granted = PermissionGranted::Granted;
    for missing in [PermissionGranted::Denied, PermissionGranted::NotRequested] {
        let (events, started) = listener(Platform::MacOs).start(granted, missing);
        assert_eq!(started, Ok(1));
        assert_eq!(events, statuses(granted, missing));
        let (events, _) = listener(Platform::MacOs).start(missing, granted);
        assert_eq!(events, statuses(missing, granted));
    }
    let (events, _) =
        listener(Platform::Other).start(PermissionGranted::Denied, PermissionGranted::Denied);
    assert_eq!(events, vec![Event::PermissionsGranted]);
}

#[test]
fn asking_for_permissions_looks_at_screen_recording() {
    let l = listener(Platform::MacOs);
    let microphone = PermissionGranted::NotRequested;
    let mut expected = statuses(PermissionGranted::Granted, microphone);
    expected.push(Event::PermissionsGranted);
    assert_eq!(l.request_permissions(PermissionGranted::Granted, microphone), expected);
    assert_eq!(
        l.request_permissions(PermissionGranted::Denied, PermissionGranted::Granted),
        statuses(PermissionGranted::Denied, PermissionGranted::Granted)
    );
    let elsewhere = listener(Platform::Other)
        .request_permissions(PermissionGranted::Denied, PermissionGranted::Denied);
    assert_eq!(elsewhere, vec![Event::PermissionsGranted]);
}

#[test]
fn a_short_burst_is_no_meeting() {
    let mut m = Monitor::new(Platform::Other);
    m.start().unwrap();
    let timer = m.handle_pid_change(42, "Zoom".to_string()).unwrap();
    assert_eq!(timer.millis, 2000);
    assert_eq!(m.handle_pid_change(0, String::new()), None);
    m.handle_pid_change(43, "Slack".to_string());
    assert_eq!(m.fire_started(timer.token).detection, None);
}

#[test]
fn a_short_silence_ends_no_meeting() {
    let mut m = Monitor::new(Platform::Other);
    m.start().unwrap();
    let timer = m.handle_pid_change(42, "Zoom".to_string()).unwrap();
    assert!(m.fire_started(timer.token).detection.is_some());
    let grace = m.handle_pid_change(0, String::new()).unwrap();
    assert_eq!(grace.millis, 20000);
    assert_eq!(m.handle_pid_change(7, "Slack".to_string()), None);
    assert_eq!(m.grace_expired(grace.token).detection, None);
    assert_eq!(m.fire_ended().detection.unwrap().app, "Zoom");
}

#[test]
fn silence_ends_a_recorded_meeting_and_then_its_recording() {
    let (mut l, s) = in_meeting(Platform::Other);
    let plan = record(&mut l);
    let grace = l.poll(s, 0, String::new()).unwrap();
    assert_eq!(
        l.grace_expired(s, grace.token).actions,
        vec![ended("Zoom"), Action::StopCapture]
    );
    assert!(finish_recording(&plan, &vec![], &vec![]).is_none());
    let done = finish_recording(&plan, &vec![1], &vec![]).unwrap();
    assert_eq!(done.event, Event::RecordingEnded { app: "Zoom".to_string() });
    assert!(l.grace_expired(s, grace.token).actions.is_empty());
}

#[test]
fn audio_is_captured_two_hundred_milliseconds_at_a_time() {
    let (mut l, _) = in_meeting(Platform::Other);
    l.sample_rate(48000);
    assert_eq!(l.record(), RecordNext::StartTap { sample_rate: 16000, chunk_ms: 200 });
    assert_eq!(
        l.record_next(RecordReply::TapStarted).next,
        RecordNext::StartMic { sample_rate: 16000, chunk_ms: 200 }
    );
}

#[test]
fn a_listener_starts_once() {
    let mut l = listener(Platform::Other);
    let granted = PermissionGranted::Granted;
    assert_eq!(l.start(granted, granted).1, Ok(1));
    let (events, again) = l.start(granted, granted);
    assert_eq!(events, vec![Event::PermissionsGranted]);
    assert_eq!(again, Err(Error::AlreadyStarted));
    assert!(l.is_active(1));
    assert_eq!(l.stop(), Stopped { watchers: false, capture: false });
    assert!(!l.is_active(1));
    assert_eq!(l.start(granted, granted).1, Ok(2));
    assert!(!l.is_active(1));
}

#[test]
fn a_meeting_is_told_from_start_to_end() {
    let mut l = listener(Platform::MacOs);
    let s = l.start(PermissionGranted::Granted, PermissionGranted::Granted).1.unwrap();
    let timer = l.poll(s, 42, "Microsoft Teams".to_string()).unwrap();
    let turn = l.sustain_expired(s, timer.token);
    assert_eq!(turn.actions, vec![detected("Microsoft Teams", 42), Action::AutoRecord]);
    assert!(matches!(turn.watch, Watch::Start { .. }));
    let told = l.window_identified(s, "Microsoft Teams".to_string(), "Weekly".to_string());
    assert_eq!(
        told,
        vec![Action::Emit(Event::MeetingUpdated {
            app: "Microsoft Teams".to_string(),
            title: "Weekly".to_string(),
        })]
    );
    let told = l.speakers_changed(s, "Microsoft Teams".to_string(), vec!["Ann".to_string()]);
    assert_eq!(
        told,
        vec![Action::Emit(Event::SpeakerChanged {
            speakers: vec!["Ann".to_string()],
            app: "Microsoft Teams".to_string(),
        })]
    );
    let turn = l.window_closed(s);
    assert_eq!(turn.actions, vec![ended("Microsoft Teams")]);
    assert_eq!(turn.watch, Watch::Stop);
    assert_eq!(l.window_closed(s).actions, vec![]);
    let none = l.window_identified(s, "Microsoft Teams".to_string(), "Weekly".to_string());
    assert_eq!(none, vec![]);
}

#[test]
fn silence_ends_the_meeting_after_the_grace_time() {
    let (mut l, s) = in_meeting(Platform::Other);
    let timer = l.poll(s, 0, String::new()).unwrap();
    assert_eq!(timer.kind, TimerKind::EndGrace);
    assert_eq!(l.grace_expired(s, timer.token + 1).actions, vec![]);
    assert_eq!(l.grace_expired(s, timer.token).actions, vec![ended("Zoom")]);
}

#[test]
fn a_stopped_listener_notices_nothing() {
    let mut l = listener(Platform::Other);
    let s = l.start(PermissionGranted::Granted, PermissionGranted::Granted).1.unwrap();
    let timer = l.poll(s, 42, "Zoom".to_string()).unwrap();
    l.stop();
    assert_eq!(l.sustain_expired(s, timer.token).actions, vec![]);
    assert_eq!(l.poll(s, 43, "Zoom".to_string()), None);
    let next = l.start(PermissionGranted::Granted, PermissionGranted::Granted).1.unwrap();
    let again = l.poll(next, 42, "Zoom".to_string()).unwrap();
    assert_eq!(again.token, timer.token);
    assert_eq!(l.sustain_expired(s, timer.token).actions, vec![]);
    assert_eq!(l.sustain_expired(next, again.token).actions.len(), 2);
}

#[test]
fn recording_without_a_meeting_is_refused() {
    let mut l = listener(Platform::MacOs);
    assert_eq!(l.record(), RecordNext::Done);
    l.start(PermissionGranted::Granted, PermissionGranted::Granted).1.unwrap();
    assert_eq!(l.record(), RecordNext::Done);
    let turn =
        l.record_next(RecordReply::MicrophoneAnswered(PermissionGranted::Granted));
    assert_eq!(turn.next, RecordNext::Done);
}

#[test]
fn one_recording_at_a_time() {
    let (mut l, _) = in_meeting(Platform::Other);
    record(&mut l);
    assert_eq!(l.record(), RecordNext::Done);
    let turn = l.record_next(RecordReply::MicrophoneChecked(PermissionGranted::Granted));
    assert_eq!(turn.next, RecordNext::Done);
}

#[test]
fn recording_asks_for_permissions_in_order() {
    let (mut l, _) = in_meeting(Platform::MacOs);
    assert_eq!(l.record(), RecordNext::CheckScreen);
    let turn = l.record_next(RecordReply::ScreenChecked(PermissionGranted::Granted));
    assert_eq!(turn.events, vec![]);
    assert_eq!(turn.next, RecordNext::CheckMicrophone);
    let turn = l.record_next(RecordReply::MicrophoneChecked(PermissionGranted::NotRequested));
    assert_eq!(turn.events, vec![]);
    assert_eq!(turn.next, RecordNext::RequestMicrophone);
    let turn = l.record_next(RecordReply::MicrophoneAnswered(PermissionGranted::Granted));
    assert_eq!(
        turn.events,
        vec![Event::PermissionStatus {
            permission: Permission::Microphone,
            status: PermissionGranted::Granted,
        }]
    );
    assert_eq!(turn.next, RecordNext::StartTap { sample_rate: 16000, chunk_ms: 200 });
    let turn = l.record_next(RecordReply::TapStarted);
    assert_eq!(turn.next, RecordNext::StartMic { sample_rate: 16000, chunk_ms: 200 });
    let turn = l.record_next(RecordReply::MicStarted { secs: 1700000000 });
    assert_eq!(turn.events, vec![Event::RecordingStarted { app: "Zoom".to_string() }]);
    let plan = RecordingPlan {
        app: "Zoom".to_string(),
        sample_rate: 16000,
        paths: recording_paths("/rec", 1700000000),
    };
    assert_eq!(turn.next, RecordNext::Capture(plan));
}

#[test]
fn screen_recording_denied_shows_no_dialog() {
    let (mut l, _) = in_meeting(Platform::MacOs);
    let turn = l.record_next(RecordReply::ScreenChecked(PermissionGranted::Denied));
    assert_eq!(turn.next, RecordNext::Done);
    assert_eq!(turn.events.len(), 2);
    assert_eq!(
        turn.events[0],
        Event::PermissionStatus {
            permission: Permission::ScreenCapture,
            status: PermissionGranted::Denied,
        }
    );
    assert_eq!(
        turn.events[1],
        Event::Error {
            message: "Screen Recording access required — call request_permissions() to open \
                      System Settings, grant access, then restart the listener"
                .to_string(),
        }
    );
}

#[test]
fn microphone_denied_ends_the_request() {
    let (mut l, _) = in_meeting(Platform::MacOs);
    let message =
        "Microphone access denied — grant permission in System Settings > Privacy > Microphone"
            .to_string();
    let checked = l.record_next(RecordReply::MicrophoneChecked(PermissionGranted::Denied));
    let answered = l.record_next(RecordReply::MicrophoneAnswered(PermissionGranted::Denied));
    for turn in [checked, answered] {
        assert_eq!(turn.next, RecordNext::Done);
        assert_eq!(
            turn.events,
            vec![
                Event::PermissionStatus {
                    permission: Permission::Microphone,
                    status: PermissionGranted::Denied,
                },
                Event::Error { message: message.clone() },
            ]
        );
    }
}

#[test]
fn failing_streams_are_told() {
    let (mut l, _) = in_meeting(Platform::Other);
    let turn = l.record_next(RecordReply::TapFailed(Error::PermissionDenied));
    assert_eq!(turn.next, RecordNext::Done);
    assert_eq!(
        turn.events,
        vec![Event::Error {
            message:
                "permission denied — check Screen Recording / Microphone in System Settings"
                    .to_string(),
        }]
    );
    let turn = l.record_next(RecordReply::MicFailed(Error::RecordingFailed("no".to_string())));
    assert_eq!(turn.next, RecordNext::StopTap);
    assert_eq!(
        turn.events,
        vec![Event::Error { message: "recording failed: no".to_string() }]
    );
    assert!(matches!(l.record(), RecordNext::StartTap { .. }));
}

#[test]
fn the_end_is_told_before_the_capture_stops() {
    let (mut l, s) = in_meeting(Platform::Other);
    record(&mut l);
    let turn = l.window_closed(s);
    assert_eq!(turn.actions, vec![ended("Zoom"), Action::StopCapture]);
    assert_eq!(l.record(), RecordNext::Done);
}

#[test]
fn stopping_cancels_the_recording() {
    let (mut l, _) = in_meeting(Platform::MacOs);
    l.record_next(RecordReply::MicStarted { secs: 1 });
    assert_eq!(l.stop(), Stopped { watchers: true, capture: true });
    assert_eq!(l.stop(), Stopped { watchers: false, capture: false });
}

#[test]
fn settings_take_effect_with_the_next_start() {
    let mut l = listener(Platform::Other);
    l.sample_rate(48000).output_dir("/a".to_string());
    let granted = PermissionGranted::Granted;
    let s = l.start(granted, granted).1.unwrap();
    l.sample_rate(8000).output_dir("/b".to_string()).auto_record();
    let timer = l.poll(s, 1, "Zoom".to_string()).unwrap();
    l.sustain_expired(s, timer.token);
    assert_eq!(l.auto_record_due(), RecordNext::Done);
    assert_eq!(l.record(), RecordNext::StartTap { sample_rate: 48000, chunk_ms: 200 });
    let plan = record(&mut l);
    assert_eq!(plan.sample_rate, 48000);
    assert_eq!(plan.paths.mixed_path, "/a/1700000000-meeting.wav");
    l.stop();
    let s = l.start(granted, granted).1.unwrap();
    let timer = l.poll(s, 1, "Zoom".to_string()).unwrap();
    l.sustain_expired(s, timer.token);
    assert_eq!(
        l.auto_record_due(),
        RecordNext::StartTap { sample_rate: 8000, chunk_ms: 200 }
    );
}

#[test]
fn handlers_get_every_event_in_order() {
    let seen: RefCell<Vec<String>> = RefCell::new(Vec::new());
    let first = |e: &Event| seen.borrow_mut().push(format!("1 {:?}", e));
    let second = |e: &Event| seen.borrow_mut().push(format!("2 {:?}", e));
    let mut l: MeetingListener<&dyn Fn(&Event)> = MeetingListener::new(Platform::Other, None);
    l.on(&first).on(&second);
    emit(l.handlers(), &Event::PermissionsGranted);
    assert_eq!(*seen.borrow(), vec!["1 PermissionsGranted", "2 PermissionsGranted"]);
}

#[test]
fn files_go_to_the_current_directory() {
    let mut l: MeetingListener<u32> = MeetingListener::new(Platform::Other, None);
    let granted = PermissionGranted::Granted;
    let s = l.start(granted, granted).1.unwrap();
    let timer = l.poll(s, 1, "Zoom".to_string()).unwrap();
    l.sustain_expired(s, timer.token);
    assert_eq!(record(&mut l).paths.self_path, "./1700000000-meeting-self.wav");
}

#[test]
fn paths_of_a_recording() {
    let p = recording_paths("/tmp/rec", 12);
    assert_eq!(p.mixed_path, "/tmp/rec/12-meeting.wav");
    assert_eq!(p.others_path, "/tmp/rec/12-meeting-others.wav");
    assert_eq!(p.self_path, "/tmp/rec/12-meeting-self.wav");
    assert_eq!(recording_paths("/tmp/rec/", 12).mixed_path, "/tmp/rec/12-meeting.wav");
    assert_eq!(recording_paths("", 0).mixed_path, "0-meeting.wav");
    assert_eq!(
        recording_paths("x", u64::MAX).others_path,
        "x/18446744073709551615-meeting-others.wav"
    );
    assert_ne!(recording_paths("x", 1), recording_paths("x", 2));
}

fn plan() -> RecordingPlan {
    RecordingPlan {
        app: "Zoom".to_string(),
        sample_rate: 8000,
        paths: recording_paths("r", 9),
    }
}

#[test]
fn an_empty_recording_leaves_nothing() {
    assert_eq!(finish_recording(&plan(), &Vec::new(), &Vec::new()), None);
}

#[test]
fn a_recording_becomes_three_files() {
    let (tx, mut rx) = audio_channel();
    tx.send(AudioChunk { pcm: vec![1, 2] }).unwrap();
    tx.send(AudioChunk { pcm: vec![3] }).unwrap();
    drop(tx);
    let mut others = Vec::new();
    while collect_next(&mut rx, &mut others) {}
    let done = finish_recording(&plan(), &others, &vec![10]).unwrap();
    assert_eq!(done.event, Event::RecordingEnded { app: "Zoom".to_string() });
    assert_eq!(done.files.len(), 3);
    assert_eq!(done.files[0].path, "r/9-meeting-others.wav");
    assert_eq!(done.files[0].bytes, wav_bytes(&vec![1, 2, 3], 8000));
    assert_eq!(done.files[1].path, "r/9-meeting-self.wav");
    assert_eq!(done.files[1].bytes, wav_bytes(&vec![10], 8000));
    assert_eq!(done.files[2].path, "r/9-meeting.wav");
    assert_eq!(done.files[2].bytes, wav_bytes(&vec![11, 2, 3], 8000));
    assert!(finish_recording(&plan(), &Vec::new(), &vec![1]).is_some());
}

#[test]
fn written_files_are_told() {
    assert_eq!(
        files_written(&plan(), true, true, true),
        Event::RecordingReady {
            mixed_path: "r/9-meeting.wav".to_string(),
            others_path: "r/9-meeting-others.wav".to_string(),
            self_path: "r/9-meeting-self.wav".to_string(),
            app: "Zoom".to_string(),
        }
    );
    for ok in [(false, true, true), (true, false, true), (true, true, false)] {
        assert_eq!(
            files_written(&plan(), ok.0, ok.1, ok.2),
            Event::Error { message: "failed to write WAV files".to_string() }
        );
    }
}

#[test]
fn errors_have_their_texts() {
    assert_eq!(Error::AlreadyStarted.message(), "monitor already started");
    assert_eq!(Error::PlatformInit("x".to_string()).message(), "platform init failed: x");
    assert_eq!(Error::RecordingFailed("x".to_string()).message(), "recording failed: x");
    assert_eq!(
        Error::MacOSVersionTooOld { major: 13, minor: 6 }.message(),
        "macOS 14.2+ required for system audio tap (running 13.6)"
    );
    assert_eq!(Error::Other("x".to_string()).message(), "x");
}

#[test]
fn nothing_is_watched_outside_macos() {
    let mut l = listener(Platform::Other);
    let s = l.start(PermissionGranted::Granted, PermissionGranted::Granted).1.unwrap();
    let timer = l.poll(s, 42, "Zoom".to_string()).unwrap();
    assert_eq!(l.sustain_expired(s, timer.token).watch, Watch::Unchanged);
    assert!(matches!(l.record(), RecordNext::StartTap { .. }));
    assert_eq!(l.window_closed(s).watch, Watch::Unchanged);
}

#[test]
fn a_recorded_meeting_is_told_in_order() {
    let mut events: Vec<Event> = Vec::new();
    let mut l = listener(Platform::Other);
    let (told, started) = l.start(PermissionGranted::Granted, PermissionGranted::Granted);
    events.extend(told);
    let s = started.unwrap();
    let timer = l.poll(s, 42, "Zoom".to_string()).unwrap();
    let mut actions = l.sustain_expired(s, timer.token).actions;
    assert!(matches!(l.record(), RecordNext::StartTap { .. }));
    l.record_next(RecordReply::TapStarted);
    let turn = l.record_next(RecordReply::MicStarted { secs: 5 });
    for action in actions.drain(..) {
        if let Action::Emit(event) = action {
            events.push(event);
        }
    }
    events.extend(turn.events);
    for action in l.window_closed(s).actions {
        if let Action::Emit(event) = action {
            events.push(event);
        }
    }
    if let RecordNext::Capture(plan) = turn.next {
        let done = finish_recording(&plan, &vec![1], &vec![2]).unwrap();
        events.push(done.event);
        events.push(files_written(&plan, true, true, true));
    }
    let kinds: Vec<&str> = events.iter().map(side_huddle::bindings::kind).collect();
    assert_eq!(
        kinds,
        vec![
            "PermissionsGranted",
            "MeetingDetected",
            "RecordingStarted",
            "MeetingEnded",
            "RecordingEnded",
            "RecordingReady",
        ]
    );
}
