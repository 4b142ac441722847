//! Events for other languages.
use side_huddle::bindings::{event_to_js, event_to_py, kind, Field, FieldValue};
use side_huddle::ffi::{
    flatten, start_code, SHCaptureKind, SHEvent, SHEventKind, SHPermission, SHPermissionStatus,
};
use side_huddle::text::{decimal_text, parse_u32, signed_text, to_chars};
use side_huddle::{version, CaptureKind, Event, Permission, PermissionGranted};

fn s(text: &str) -> String {
    text.to_string()
}

fn blank(kind: SHEventKind) -> SHEvent {
    SHEvent {
        kind,
        app: None,
        title: None,
        path: None,
        others_path: None,
        self_path: None,
        message: None,
        participant: None,
        permission: SHPermission::Microphone,
        perm_status: SHPermissionStatus::Granted,
        capture_kind: SHCaptureKind::Audio,
        capturing: 0,
    }
}

fn ready() -> Event {
    Event::RecordingReady {
        mixed_path: s("m"),
        others_path: s("o"),
        self_path: s("s"),
        app: s("Zoom"),
    }
}

#[test]
fn kinds_have_their_numbers() {
    let kinds = [
        SHEventKind::PermissionStatus,
        SHEventKind::PermissionsGranted,
        SHEventKind::MeetingDetected,
        SHEventKind::MeetingUpdated,
        SHEventKind::MeetingEnded,
        SHEventKind::RecordingStarted,
        SHEventKind::RecordingEnded,
        SHEventKind::RecordingReady,
        SHEventKind::CaptureStatus,
        SHEventKind::Error,
        SHEventKind::SpeakerChanged,
    ];
    for (i, kind) in kinds.iter().enumerate() {
        assert_eq!(kind.code(), i as i32);
    }
    assert_eq!(SHPermission::Microphone.code(), 0);
    assert_eq!(SHPermission::ScreenCapture.code(), 1);
    assert_eq!(SHPermission::Accessibility.code(), 2);
    assert_eq!(SHPermissionStatus::Granted.code(), 0);
    assert_eq!(SHPermissionStatus::NotRequested.code(), 1);
    assert_eq!(SHPermissionStatus::Denied.code(), 2);
    assert_eq!(SHCaptureKind::Audio.code(), 0);
    assert_eq!(SHCaptureKind::Video.code(), 1);
    assert_eq!(start_code(true), 0);
    assert_eq!(start_code(false), -1);
}

#[test]
fn flat_events() {
    assert_eq!(
        flatten(&Event::PermissionStatus {
            permission: Permission::Accessibility,
            status: PermissionGranted::Denied,
        }),
        SHEvent {
            permission: SHPermission::Accessibility,
            perm_status: SHPermissionStatus::Denied,
            ..blank(SHEventKind::PermissionStatus)
        }
    );
    assert_eq!(
        flatten(&Event::PermissionsGranted),
        blank(SHEventKind::PermissionsGranted)
    );
    assert_eq!(
        flatten(&Event::MeetingDetected { app: s("Zoom"), pid: 3 }),
        SHEvent { app: Some(s("Zoom")), ..blank(SHEventKind::MeetingDetected) }
    );
    assert_eq!(
        flatten(&Event::MeetingUpdated { app: s("Zoom"), title: s("t") }),
        SHEvent {
            app: Some(s("Zoom")),
            title: Some(s("t")),
            ..blank(SHEventKind::MeetingUpdated)
        }
    );
    for (event, kind) in [
        (Event::MeetingEnded { app: s("Zoom") }, SHEventKind::MeetingEnded),
        (Event::RecordingStarted { app: s("Zoom") }, SHEventKind::RecordingStarted),
        (Event::RecordingEnded { app: s("Zoom") }, SHEventKind::RecordingEnded),
    ] {
        assert_eq!(flatten(&event), SHEvent { app: Some(s("Zoom")), ..blank(kind) });
    }
    assert_eq!(
        flatten(&ready()),
        SHEvent {
            app: Some(s("Zoom")),
            path: Some(s("m")),
            others_path: Some(s("o")),
            self_path: Some(s("s")),
            ..blank(SHEventKind::RecordingReady)
        }
    );
    assert_eq!(
        flatten(&Event::CaptureStatus { kind: CaptureKind::Video, capturing: true }),
        SHEvent {
            capture_kind: SHCaptureKind::Video,
            capturing: 1,
            ..blank(SHEventKind::CaptureStatus)
        }
    );
    assert_eq!(
        flatten(&Event::Error { message: s("no") }),
        SHEvent { message: Some(s("no")), ..blank(SHEventKind::Error) }
    );
}

#[test]
fn speakers_are_separated_by_tabs() {
    let flat = |names: &[&str]| {
        flatten(&Event::SpeakerChanged {
            speakers: names.iter().map(|n| s(n)).collect(),
            app: s("Zoom"),
        })
        .participant
    };
    assert_eq!(flat(&[]), Some(s("")));
    assert_eq!(flat(&["Ann"]), Some(s("Ann")));
    assert_eq!(flat(&["Ann", "Bo", "Cy"]), Some(s("Ann\tBo\tCy")));
}

#[test]
fn a_nul_empties_the_text() {
    let flat = flatten(&Event::MeetingUpdated { app: s("Zo\0om"), title: s("t") });
    assert_eq!(flat.app, Some(s("")));
    assert_eq!(flat.title, Some(s("t")));
}

fn field(key: &'static str, value: &str) -> Field {
    Field { key, value: FieldValue::Text(s(value)) }
}

#[test]
fn events_for_javascript() {
    assert_eq!(
        event_to_js(&ready()),
        vec![
            field("kind", "RecordingReady"),
            field("app", "Zoom"),
            field("path", "m"),
            field("mixedPath", "m"),
            field("othersPath", "o"),
            field("selfPath", "s"),
        ]
    );
    assert_eq!(
        event_to_js(&Event::CaptureStatus { kind: CaptureKind::Audio, capturing: false }),
        vec![
            field("kind", "CaptureStatus"),
            field("captureKind", "Audio"),
            Field { key: "capturing", value: FieldValue::Flag(false) },
        ]
    );
    assert_eq!(
        event_to_js(&Event::PermissionStatus {
            permission: Permission::ScreenCapture,
            status: PermissionGranted::NotRequested,
        }),
        vec![
            field("kind", "PermissionStatus"),
            field("permission", "ScreenCapture"),
            field("status", "NotRequested"),
        ]
    );
}

#[test]
fn events_for_python() {
    assert_eq!(
        event_to_py(&ready()),
        vec![
            field("kind", "RecordingReady"),
            field("app", "Zoom"),
            field("mixed_path", "m"),
            field("others_path", "o"),
            field("self_path", "s"),
        ]
    );
    assert_eq!(
        event_to_py(&Event::CaptureStatus { kind: CaptureKind::Video, capturing: true }),
        vec![
            field("kind", "CaptureStatus"),
            field("capture_kind", "Video"),
            Field { key: "capturing", value: FieldValue::Flag(true) },
        ]
    );
    assert_eq!(
        event_to_py(&Event::MeetingDetected { app: s("Zoom"), pid: 42 }),
        vec![
            field("kind", "MeetingDetected"),
            field("app", "Zoom"),
            Field { key: "pid", value: FieldValue::Number(42) },
        ]
    );
    assert_eq!(
        event_to_py(&Event::SpeakerChanged { speakers: vec![s("Ann")], app: s("Zoom") }),
        vec![
            field("kind", "SpeakerChanged"),
            field("app", "Zoom"),
            Field { key: "speakers", value: FieldValue::List(vec![s("Ann")]) },
        ]
    );
    assert_eq!(
        event_to_py(&Event::PermissionsGranted),
        vec![field("kind", "PermissionsGranted")]
    );
    assert_eq!(
        event_to_py(&Event::Error { message: s("no") }),
        vec![field("kind", "Error"), field("message", "no")]
    );
}

#[test]
fn kinds_by_name() {
    assert_eq!(kind(&Event::MeetingUpdated { app: s("a"), title: s("b") }), "MeetingUpdated");
    assert_eq!(kind(&Event::MeetingEnded { app: s("a") }), "MeetingEnded");
    assert_eq!(kind(&Event::RecordingStarted { app: s("a") }), "RecordingStarted");
    assert_eq!(kind(&Event::RecordingEnded { app: s("a") }), "RecordingEnded");
    assert_eq!(version(), "0.1.0");
}

#[test]
fn numbers_as_texts() {
    assert_eq!(decimal_text(0), "0");
    assert_eq!(decimal_text(u64::MAX), u64::MAX.to_string());
    assert_eq!(signed_text(-7), "-7");
    assert_eq!(signed_text(i32::MIN), i32::MIN.to_string());
    for text in ["0", "007", "+5", "4294967295", "4294967296", "", "+", "1a", "-1", " 1"] {
        let chars = to_chars(text);
        assert_eq!(parse_u32(&chars, 0, chars.len()), text.parse().ok());
    }
}

#[test]
fn fields_are_named_once_and_the_kind_comes_first() {
    let events = [
        Event::PermissionStatus {
            permission: Permission::Microphone,
            status: PermissionGranted::Granted,
        },
        Event::PermissionsGranted,
        Event::MeetingDetected { app: s("a"), pid: 1 },
        Event::MeetingUpdated { app: s("a"), title: s("t") },
        Event::MeetingEnded { app: s("a") },
        Event::RecordingStarted { app: s("a") },
        Event::RecordingEnded { app: s("a") },
        ready(),
        Event::CaptureStatus { kind: CaptureKind::Audio, capturing: true },
        Event::Error { message: s("m") },
        Event::SpeakerChanged { speakers: vec![], app: s("a") },
    ];
    for event in &events {
        for fields in [event_to_js(event), event_to_py(event)] {
            assert_eq!(fields[0], field("kind", kind(event)));
            let mut keys: Vec<&str> = fields.iter().map(|f| f.key).collect();
            keys.sort();
            keys.dedup();
            assert_eq!(keys.len(), fields.len());
        }
    }
}

#[test]
fn javascript_and_python_get_the_same_values() {
    let event = Event::CaptureStatus { kind: CaptureKind::Video, capturing: false };
    let js: Vec<FieldValue> = event_to_js(&event).into_iter().map(|f| f.value).collect();
    let py: Vec<FieldValue> = event_to_py(&event).into_iter().map(|f| f.value).collect();
    assert_eq!(js, py);
    let event = Event::SpeakerChanged { speakers: vec![s("Ann")], app: s("Zoom") };
    assert_eq!(event_to_js(&event), event_to_py(&event));
    let mut js: Vec<FieldValue> = event_to_js(&ready()).into_iter().map(|f| f.value).collect();
    let py: Vec<FieldValue> = event_to_py(&ready()).into_iter().map(|f| f.value).collect();
    assert_eq!(js.remove(2), js[2]);
    assert_eq!(js, py);
}
