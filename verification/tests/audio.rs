//! Mixing, channels and WAV files.
use side_huddle::channel::{audio_channel, collect, collect_next, AudioChunk, Polled};
use side_huddle::mix::{mix_pcm, mix_recordings, Mixer, Recording, Side};
use side_huddle::wav::{wav_bytes, wav_encodable};

fn chunk(pcm: &[i16]) -> AudioChunk {
    AudioChunk { pcm: pcm.to_vec() }
}

#[test]
fn mix_sums_and_clamps() {
    let a = vec![20000i16, -20000, 0];
    let b = vec![20000i16, -20000, 1000];
    let out = mix_pcm(&a, &b);
    assert_eq!(out[0], 32767); // clamped high
    assert_eq!(out[1], -32768); // clamped low
    assert_eq!(out[2], 1000); // no clamp needed
}

#[test]
fn mix_handles_length_mismatch() {
    let a = vec![1i16, 2, 3, 4, 5];
    let b = vec![1i16, 2, 3];
    let out = mix_pcm(&a, &b);
    assert_eq!(out.len(), 5);
    assert_eq!(out[3], 4); // tail of 'a'
}

#[test]
fn mix_keeps_the_tail_of_the_second() {
    assert_eq!(mix_pcm(&[1], &[2, 30, -40]), vec![3, 30, -40]);
}

#[test]
fn mix_does_not_depend_on_the_order() {
    let a = vec![5i16, -7, 32767];
    let b = vec![9i16, 1, 1, 12];
    assert_eq!(mix_pcm(&a, &b), mix_pcm(&b, &a));
}

#[test]
fn mix_with_silence_is_the_stream() {
    let a = vec![5i16, -7, 32767, -32768];
    assert_eq!(mix_pcm(&a, &[]), a);
    assert_eq!(mix_pcm(&[], &a), a);
    assert_eq!(mix_pcm(&[], &[]), Vec::<i16>::new());
}

#[test]
fn mixing_in_pieces_is_mixing_at_once() {
    let a = vec![1i16, 2, 3, 4, 5, 6];
    let b = vec![10i16, 20, 30, 40, 50, 60];
    let mut parts = mix_pcm(&a[..2], &b[..2]);
    parts.extend(mix_pcm(&a[2..], &b[2..]));
    assert_eq!(parts, mix_pcm(&a, &b));
}

#[test]
fn mixer_waits_for_both_sides() {
    let mut mixer = Mixer::new();
    assert_eq!(mixer.advance(Polled::Chunk(chunk(&[1, 2, 3])), Polled::Empty), None);
    let out = mixer.advance(Polled::Empty, Polled::Chunk(chunk(&[10, 20])));
    assert_eq!(out, Some(chunk(&[11, 22])));
    assert_eq!(mixer.advance(Polled::Empty, Polled::Empty), None);
    let out = mixer.advance(Polled::Empty, Polled::Chunk(chunk(&[30, 40])));
    assert_eq!(out, Some(chunk(&[33])));
    let out = mixer.advance(Polled::Chunk(chunk(&[4])), Polled::Disconnected);
    assert_eq!(out, Some(chunk(&[44])));
}

#[test]
fn mixer_ends_with_a_stream() {
    let mut mixer = Mixer::new();
    assert!(mixer.resume(Side::A, Polled::Chunk(chunk(&[1]))));
    assert!(mixer.resume(Side::B, Polled::Empty));
    assert!(!mixer.resume(Side::B, Polled::Disconnected));
    let out = mixer.advance(Polled::Empty, Polled::Chunk(chunk(&[2])));
    assert_eq!(out, Some(chunk(&[3])));
}

#[test]
fn mixed_recording_delivers_the_mix_and_ends() {
    let (tx_a, rx_a) = audio_channel();
    let (tx_b, rx_b) = audio_channel();
    tx_a.send(chunk(&[1, 2, 3])).unwrap();
    tx_b.send(chunk(&[10, 20])).unwrap();
    tx_b.send(chunk(&[30])).unwrap();
    drop(tx_a);
    drop(tx_b);
    let a = Recording { rx: rx_a, stop: vec!["a"] };
    let b = Recording { rx: rx_b, stop: vec!["b"] };
    let (mut mixed, mut job) = mix_recordings(a, b, 16000);
    assert_eq!(mixed.stop, vec!["a", "b"]);
    assert_eq!(mixed.rx.capacity(), Some(64));
    while job.step() {}
    drop(job);
    let mut pcm = Vec::new();
    while collect_next(&mut mixed.rx, &mut pcm) {}
    assert_eq!(pcm, vec![11, 22, 33]);
}

#[test]
fn nothing_is_lost_repeated_or_out_of_order_in_a_mixed_recording() {
    let (tx_a, rx_a) = audio_channel();
    let (tx_b, rx_b) = audio_channel();
    for i in 0..20 {
        tx_a.send(chunk(&[3 * i, 3 * i + 1, 3 * i + 2])).unwrap();
    }
    for i in 0..29 {
        tx_b.send(chunk(&[1000, 2000 + i])).unwrap();
    }
    drop(tx_a);
    drop(tx_b);
    let a = Recording { rx: rx_a, stop: Vec::<u8>::new() };
    let b = Recording { rx: rx_b, stop: Vec::<u8>::new() };
    let (mut mixed, mut job) = mix_recordings(a, b, 16000);
    while job.step() {}
    drop(job);
    let mut pcm = Vec::new();
    while collect_next(&mut mixed.rx, &mut pcm) {}
    let expected: Vec<i16> =
        (0..58).map(|i| i + if i % 2 == 0 { 1000 } else { 2000 + i / 2 }).collect();
    assert_eq!(pcm, expected);
}

#[test]
fn mix_ends_when_nobody_listens() {
    let (tx_a, rx_a) = audio_channel();
    let (tx_b, rx_b) = audio_channel();
    tx_a.send(chunk(&[1])).unwrap();
    tx_b.send(chunk(&[2])).unwrap();
    let a = Recording { rx: rx_a, stop: Vec::<u8>::new() };
    let b = Recording { rx: rx_b, stop: Vec::<u8>::new() };
    let (mixed, mut job) = mix_recordings(a, b, 16000);
    drop(mixed);
    assert!(!job.step());
    drop(tx_a);
    drop(tx_b);
}

#[test]
fn channel_holds_sixty_four_chunks() {
    let (tx, rx) = audio_channel();
    assert_eq!(rx.capacity(), Some(64));
    for i in 0..64 {
        tx.try_send(chunk(&[i])).unwrap();
    }
    assert!(tx.try_send(chunk(&[64])).is_err());
    assert_eq!(rx.recv().unwrap(), chunk(&[0]));
    tx.try_send(chunk(&[64])).unwrap();
}

#[test]
fn collecting_appends_until_the_end() {
    let mut pcm = vec![7i16];
    assert!(collect(&mut pcm, Some(chunk(&[8, 9]))));
    assert!(collect(&mut pcm, Some(chunk(&[]))));
    assert!(!collect(&mut pcm, None));
    assert_eq!(pcm, vec![7, 8, 9]);
}

#[test]
fn wav_of_two_samples() {
    let bytes = wav_bytes(&vec![1i16, -2], 16000);
    let expected: Vec<u8> = vec![
        b'R', b'I', b'F', b'F', 40, 0, 0, 0, b'W', b'A', b'V', b'E', b'f', b'm', b't', b' ', 16, 0,
        0, 0, 1, 0, 1, 0, 0x80, 0x3E, 0, 0, 0, 0x7D, 0, 0, 2, 0, 16, 0, b'd', b'a', b't', b'a', 4,
        0, 0, 0, 1, 0, 0xFE, 0xFF,
    ];
    assert_eq!(bytes, expected);
}

#[test]
fn wav_of_silence_is_a_header() {
    let bytes = wav_bytes(&Vec::new(), 48000);
    assert_eq!(bytes.len(), 44);
    assert_eq!(&bytes[4..8], &[36, 0, 0, 0]);
    assert_eq!(&bytes[24..28], &48000u32.to_le_bytes());
    assert_eq!(&bytes[28..32], &96000u32.to_le_bytes());
    assert_eq!(&bytes[40..44], &[0, 0, 0, 0]);
}

#[test]
fn wav_gives_back_its_samples() {
    let pcm = vec![0i16, 1, -1, 32767, -32768, 12345, -12345];
    let bytes = wav_bytes(&pcm, 8000);
    assert_eq!(bytes.len(), 44 + 2 * pcm.len());
    let back: Vec<i16> =
        bytes[44..].chunks(2).map(|b| i16::from_le_bytes([b[0], b[1]])).collect();
    assert_eq!(back, pcm);
}

#[test]
fn wav_sizes_have_to_fit() {
    assert!(wav_encodable(0, 16000));
    assert!(wav_encodable(1000, 2147483647));
    assert!(!wav_encodable(1000, 2147483648));
    assert!(wav_encodable(2147483629, 16000));
    assert!(!wav_encodable(2147483630, 16000));
    assert!(!wav_encodable(2147483647, 16000));
    assert!(wav_encodable(2147483648, 16000));
}
