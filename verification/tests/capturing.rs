//! The system audio tap and the microphone.
use side_huddle::capture::{
    aggregate_uid_of, audio_io_step, check_version, converted, deliver, macos_version,
    mic_unsupported, new_aggregate_uid, tap_unsupported, undelivered, ConverterInput, IoInput, IoStep,
    Resource, Staged, TapFormat, TapReply, TapSetup, TapStage, TapTurn,
};
use side_huddle::channel::{audio_channel, AudioChunk, Offered};
use side_huddle::microphone::{
    check_microphone, check_screen_capture, error_description, mic_setup, native_channels,
    request_microphone_access, target_frames, MicBuffer, MicReply, MicStage,
};
use side_huddle::{Error, PermissionGranted};

#[test]
fn versions_of_macos() {
    assert_eq!(macos_version("14.2"), (14, 2));
    assert_eq!(macos_version("14.2.1"), (14, 2));
    assert_eq!(macos_version("15"), (15, 0));
    assert_eq!(macos_version(""), (0, 0));
    assert_eq!(macos_version("x.y"), (0, 0));
    assert_eq!(macos_version("26.0"), (26, 0));
    assert_eq!(macos_version("4294967296.1"), (0, 1));
}

#[test]
fn taps_need_macos_14_2() {
    assert_eq!(check_version("14.2"), Ok(()));
    assert_eq!(check_version("14.2.1"), Ok(()));
    assert_eq!(check_version("15.0"), Ok(()));
    assert_eq!(
        check_version("14.1.9"),
        Err(Error::MacOSVersionTooOld { major: 14, minor: 1 })
    );
    assert_eq!(
        check_version("13.6"),
        Err(Error::MacOSVersionTooOld { major: 13, minor: 6 })
    );
    assert_eq!(
        TapSetup::start("14.1").err(),
        Some(Error::MacOSVersionTooOld { major: 14, minor: 1 })
    );
}

#[test]
fn other_platforms_cannot_record() {
    assert_eq!(
        tap_unsupported(),
        Error::Other("system audio tap not yet implemented on this platform".to_string())
    );
    assert_eq!(
        mic_unsupported(),
        Error::Other("mic recording not yet implemented on this platform".to_string())
    );
}

fn mono() -> TapFormat {
    TapFormat {
        rate_matches: true,
        channels: 1,
        bytes_per_frame: 2,
        signed_integer: true,
        bits: 16,
    }
}

fn stereo() -> TapFormat {
    TapFormat {
        rate_matches: false,
        channels: 0,
        bytes_per_frame: 0,
        signed_integer: false,
        bits: 32,
    }
}

#[test]
fn formats_of_the_tap() {
    assert!(!mono().needs_conversion());
    assert_eq!(mono().source_bpf(), 2);
    assert!(stereo().needs_conversion());
    assert_eq!(stereo().source_channels(), 2);
    assert_eq!(stereo().source_bpf(), 8);
    assert!(TapFormat { rate_matches: false, ..mono() }.needs_conversion());
    assert!(TapFormat { channels: 2, ..mono() }.needs_conversion());
    assert!(TapFormat { signed_integer: false, ..mono() }.needs_conversion());
    assert!(TapFormat { bits: 24, ..mono() }.needs_conversion());
}

/// Sets up a tap with these replies, all but the last of which are no failures.
fn set_up(replies: &[TapReply]) -> (TapSetup, TapTurn) {
    let mut setup = TapSetup::start("14.2").unwrap();
    let mut turn = TapTurn::Need(setup.stage());
    for reply in replies {
        assert_eq!(turn, TapTurn::Need(setup.stage()));
        turn = setup.next(*reply);
    }
    (setup, turn)
}

fn failed(reason: &str, release: &[Resource]) -> TapTurn {
    TapTurn::Failed {
        error: Error::RecordingFailed(reason.to_string()),
        release: release.to_vec(),
    }
}

#[test]
fn a_tap_that_delivers_mono_needs_no_converter() {
    let (mut setup, turn) = set_up(&[
        TapReply::Status(0),
        TapReply::Uid(true),
        TapReply::Format(Some(mono())),
        TapReply::Status(0),
        TapReply::Alive(false),
        TapReply::Alive(true),
        TapReply::Status(0),
        TapReply::Status(0),
    ]);
    assert_eq!(turn, TapTurn::Need(TapStage::Running));
    assert!(!setup.has_converter());
    assert_eq!(
        setup.stop(),
        vec![Resource::IoProc, Resource::Context, Resource::Aggregate, Resource::Tap]
    );
    assert_eq!(setup.stage(), TapStage::Over);
}

#[test]
fn a_tap_with_a_converter() {
    let start = [
        TapReply::Status(0),
        TapReply::Uid(true),
        TapReply::Format(Some(stereo())),
        TapReply::Status(0),
        TapReply::Alive(true),
    ];
    let mut replies = start.to_vec();
    replies.extend([TapReply::Status(0), TapReply::Status(0), TapReply::Status(0)]);
    let (mut setup, turn) = set_up(&replies);
    assert_eq!(turn, TapTurn::Need(TapStage::Running));
    assert!(setup.has_converter());
    assert_eq!(
        setup.stop(),
        vec![
            Resource::IoProc,
            Resource::Converter,
            Resource::Context,
            Resource::Aggregate,
            Resource::Tap,
        ]
    );
    let mut replies = start.to_vec();
    replies.push(TapReply::Status(-1));
    let (setup, turn) = set_up(&replies);
    assert_eq!(turn, TapTurn::Need(TapStage::CreateIoProc));
    assert!(!setup.has_converter());
}

#[test]
fn failures_of_the_tap_release_what_was_made() {
    assert_eq!(
        set_up(&[TapReply::Status(-50)]).1,
        failed("AudioHardwareCreateProcessTap: -50", &[])
    );
    let mut replies = vec![TapReply::Status(0)];
    let mut uid = replies.clone();
    uid.push(TapReply::Uid(false));
    assert_eq!(set_up(&uid).1, failed("failed to get tap UID", &[]));
    replies.push(TapReply::Uid(true));
    let mut format = replies.clone();
    format.push(TapReply::Format(None));
    assert_eq!(set_up(&format).1, failed("failed to get tap format", &[]));
    replies.push(TapReply::Format(Some(stereo())));
    let mut aggregate = replies.clone();
    aggregate.push(TapReply::Status(7));
    assert_eq!(
        set_up(&aggregate).1,
        failed("AudioHardwareCreateAggregateDevice: 7", &[Resource::Tap])
    );
    replies.push(TapReply::Status(0));
    let mut dead = replies.clone();
    dead.extend([TapReply::Alive(false); 20]);
    assert_eq!(
        set_up(&dead).1,
        failed("aggregate device never became alive", &[Resource::Aggregate, Resource::Tap])
    );
    replies.push(TapReply::Alive(true));
    replies.push(TapReply::Status(0));
    let mut io = replies.clone();
    io.push(TapReply::Status(1));
    assert_eq!(
        set_up(&io).1,
        failed(
            "AudioDeviceCreateIOProcID: 1",
            &[Resource::Context, Resource::Converter, Resource::Aggregate, Resource::Tap]
        )
    );
    replies.push(TapReply::Status(0));
    replies.push(TapReply::Status(i32::MIN));
    assert_eq!(
        set_up(&replies).1,
        failed(
            "AudioDeviceStart: -2147483648 — check Screen Recording permission in System Settings",
            &[
                Resource::Context,
                Resource::IoProc,
                Resource::Converter,
                Resource::Aggregate,
                Resource::Tap,
            ]
        )
    );
}

#[test]
fn what_the_callback_does() {
    let input = IoInput { stopping: false, buffers: 1, has_data: true, bytes: 10 };
    assert_eq!(audio_io_step(input, false, 8), IoStep::Direct { samples: 5 });
    assert_eq!(audio_io_step(input, true, 4), IoStep::Convert { frames: 2, bytes: 10 });
    assert_eq!(audio_io_step(input, true, 0), IoStep::Convert { frames: 10, bytes: 10 });
    assert_eq!(audio_io_step(input, true, 11), IoStep::Nothing);
    let nothing = [
        IoInput { stopping: true, ..input },
        IoInput { buffers: 0, ..input },
        IoInput { has_data: false, ..input },
        IoInput { bytes: 0, ..input },
    ];
    for input in nothing {
        assert_eq!(audio_io_step(input, false, 2), IoStep::Nothing);
    }
}

#[test]
fn what_a_conversion_leaves() {
    let buffer = vec![1i16, 2, 3];
    assert_eq!(
        converted(0, 2, buffer.clone()),
        Some(AudioChunk { pcm: vec![1, 2] })
    );
    assert_eq!(converted(0, 9, buffer.clone()), Some(AudioChunk { pcm: buffer.clone() }));
    assert_eq!(converted(0, 0, buffer.clone()), None);
    assert_eq!(converted(-1, 2, buffer), None);
}

#[test]
fn converter_input_is_taken_once() {
    let mut input = ConverterInput::new();
    assert_eq!(input.take(), None);
    input.stage(3, 12);
    assert_eq!(input.take(), Some(Staged { frames: 3, bytes: 12 }));
    assert_eq!(input.take(), None);
    input.stage(0, 12);
    assert_eq!(input.take(), None);
}

#[test]
fn a_chunk_that_is_not_taken_comes_back() {
    let chunk = AudioChunk { pcm: vec![1, 2] };
    assert_eq!(undelivered(Offered::Sent), None);
    assert_eq!(undelivered(Offered::Full(chunk.clone())), Some(chunk.clone()));
    assert_eq!(undelivered(Offered::Disconnected(chunk.clone())), Some(chunk));
}

#[test]
fn a_full_channel_drops_chunks() {
    let (mut tx, rx) = audio_channel();
    for i in 0..64i16 {
        assert_eq!(deliver(&mut tx, AudioChunk { pcm: vec![i] }), None);
    }
    let last = AudioChunk { pcm: vec![99] };
    assert_eq!(deliver(&mut tx, last.clone()), Some(last.clone()));
    assert_eq!(rx.len(), 64);
    drop(rx);
    assert_eq!(deliver(&mut tx, last.clone()), Some(last));
}

#[test]
fn uids_of_aggregate_devices() {
    assert_eq!(aggregate_uid_of("x"), "com.side-huddle.agg.x");
    let uid = new_aggregate_uid();
    let id = uid.strip_prefix("com.side-huddle.agg.").unwrap();
    assert_eq!(id.len(), 36);
    for (i, c) in id.chars().enumerate() {
        if [8, 13, 18, 23].contains(&i) {
            assert_eq!(c, '-');
        } else {
            assert!(c.is_ascii_digit() || ('a'..='f').contains(&c));
        }
    }
    assert_eq!(id.chars().nth(14), Some('4'));
    assert!(['8', '9', 'a', 'b'].contains(&id.chars().nth(19).unwrap()));
    assert_ne!(uid, new_aggregate_uid());
}

#[test]
fn permissions_of_the_system() {
    assert_eq!(check_microphone(Some(3)), PermissionGranted::Granted);
    assert_eq!(check_microphone(Some(1)), PermissionGranted::Denied);
    assert_eq!(check_microphone(Some(2)), PermissionGranted::Denied);
    assert_eq!(check_microphone(Some(0)), PermissionGranted::NotRequested);
    assert_eq!(check_microphone(Some(-3)), PermissionGranted::NotRequested);
    assert_eq!(check_microphone(None), PermissionGranted::NotRequested);
    assert_eq!(check_screen_capture(true), PermissionGranted::Granted);
    assert_eq!(check_screen_capture(false), PermissionGranted::Denied);
    assert_eq!(request_microphone_access(Some(true)), PermissionGranted::Granted);
    assert_eq!(request_microphone_access(Some(false)), PermissionGranted::Denied);
    assert_eq!(request_microphone_access(None), PermissionGranted::NotRequested);
}

#[test]
fn the_microphone_is_set_up_step_by_step() {
    let stages = [
        MicStage::FindMessenger,
        MicStage::FindEngineClass,
        MicStage::CreateEngine,
        MicStage::GetInputNode,
        MicStage::GetInputFormat,
        MicStage::FindBlockClass,
        MicStage::StartEngine,
        MicStage::Running,
    ];
    for pair in stages.windows(2) {
        assert_eq!(mic_setup(pair[0], MicReply::Ready), Ok(pair[1]));
    }
}

#[test]
fn failures_of_the_microphone() {
    let texts = [
        (MicStage::FindMessenger, "objc_msgSend not found"),
        (
            MicStage::FindEngineClass,
            "AVAudioEngine class not found — AVFoundation not loaded",
        ),
        (MicStage::CreateEngine, "AVAudioEngine alloc/init failed"),
        (MicStage::GetInputNode, "AVAudioEngine.inputNode is nil"),
        (
            MicStage::GetInputFormat,
            "could not get input format from AVAudioEngine",
        ),
        (MicStage::FindBlockClass, "_NSConcreteStackBlock not found"),
        (MicStage::StartEngine, "AVAudioEngine start failed: busy"),
    ];
    for (stage, text) in texts {
        let reply = MicReply::Failed { detail: "busy".to_string() };
        assert_eq!(
            mic_setup(stage, reply),
            Err(Error::RecordingFailed(text.to_string()))
        );
    }
    assert_eq!(error_description(false, None), "unknown error");
    assert_eq!(error_description(true, None), "?");
    assert_eq!(error_description(true, Some("x".to_string())), "x");
    assert_eq!(native_channels(0), 1);
    assert_eq!(native_channels(2), 2);
}

#[test]
fn chunks_of_the_microphone() {
    assert_eq!(target_frames(16000, 200), 3200);
    assert_eq!(target_frames(44100, 1), 44);
    let mut buffer = MicBuffer::new(3, None);
    assert_eq!(buffer.feed(vec![1, 2]), vec![]);
    assert_eq!(
        buffer.feed(vec![3, 4, 5, 6, 7]),
        vec![AudioChunk { pcm: vec![1, 2, 3] }, AudioChunk { pcm: vec![4, 5, 6] }]
    );
    assert_eq!(buffer.feed(vec![8, 9]), vec![AudioChunk { pcm: vec![7, 8, 9] }]);
    assert_eq!(buffer.feed(vec![]), vec![]);
}

#[test]
fn resampled_chunks_of_the_microphone() {
    let mut buffer = MicBuffer::new(4, Some(vec![0, 2, 9]));
    assert_eq!(
        buffer.feed(vec![10, 11, 12, 13, 20]),
        vec![AudioChunk { pcm: vec![10, 12, 13] }]
    );
    assert_eq!(
        buffer.feed(vec![21, 22, 23]),
        vec![AudioChunk { pcm: vec![20, 22, 23] }]
    );
}
