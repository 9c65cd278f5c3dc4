use threebot::audio::frame::{audio_frame, emission};
use threebot::session::OutgoingMessage;
use threebot::audio::mixer::{
    apply_volume, mix_stream, samples_from_bytes, AudioMixer, AudioStream, FRAME_SAMPLES,
};
use threebot::audio::normalizer::{frame_power, VolumeNormalizer, FLOOR_GAIN};
use threebot::audio::sample::{saturating_add, scaled_rounded, scaled_truncated, UNITY};
use threebot::util::{encode_varint_16, encode_varint_long};

fn bytes_of(samples: &[i16]) -> Vec<u8> {
    let mut out = Vec::new();
    for s in samples {
        out.extend_from_slice(&s.to_le_bytes());
    }
    out
}

fn no_gain(_power: u64) -> u32 {
    UNITY
}

#[test]
fn two_streams_mix_to_their_sum() {
    let mut mixer = AudioMixer::new(UNITY, None);
    let a = mixer.play().unwrap();
    let b = mixer.play().unwrap();
    assert!(mixer.ingest(a, &bytes_of(&vec![100i16; FRAME_SAMPLES])));
    assert!(mixer.ingest(b, &bytes_of(&vec![200i16; FRAME_SAMPLES])));
    let emitted = mixer.tick(&[], no_gain);
    assert_eq!(emitted, Some(2));
    assert_eq!(mixer.mixed(), &vec![300i16; FRAME_SAMPLES]);
    assert_eq!(mixer.stream_count(), 2);
    assert_eq!(mixer.stream_at(0), Some((a, 0, false)));
}

#[test]
fn a_short_last_frame_is_padded_and_the_stream_removed() {
    let mut mixer = AudioMixer::new(UNITY, None);
    let id = mixer.play().unwrap();
    assert!(mixer.ingest(id, &bytes_of(&vec![7i16; 1000])));
    assert!(mixer.finish(id));
    let emitted = mixer.tick(&[], no_gain);
    assert_eq!(emitted, Some(2));
    let mut expected = vec![7i16; 1000];
    expected.resize(FRAME_SAMPLES, 0);
    assert_eq!(mixer.mixed(), &expected);
    assert_eq!(mixer.stream_count(), 0);
    assert_eq!(mixer.tick(&[], no_gain), None);
    assert_eq!(mixer.last_sequence(), 2);
    assert!(!mixer.ingest(id, &[1, 2]));
    assert!(!mixer.finish(id));
}

#[test]
fn a_silent_tick_emits_nothing_and_keeps_the_sequence() {
    let mut mixer = AudioMixer::new(UNITY, None);
    assert_eq!(mixer.tick(&[], no_gain), None);
    let id = mixer.play().unwrap();
    assert!(mixer.ingest(id, &bytes_of(&vec![1i16; 100])));
    assert_eq!(mixer.tick(&[], no_gain), None);
    assert_eq!(mixer.last_sequence(), 0);
    assert_eq!(mixer.stream_at(0), Some((id, 100, false)));
    assert_eq!(mixer.mixed(), &vec![0i16; FRAME_SAMPLES]);
}

#[test]
fn the_sequence_advances_by_two_per_frame() {
    let mut mixer = AudioMixer::new(UNITY, None);
    let id = mixer.play().unwrap();
    assert!(mixer.ingest(id, &bytes_of(&vec![5i16; 3 * FRAME_SAMPLES])));
    assert_eq!(mixer.tick(&[], no_gain), Some(2));
    assert_eq!(mixer.tick(&[], no_gain), Some(4));
    assert_eq!(mixer.tick(&[], no_gain), Some(6));
    assert_eq!(mixer.tick(&[], no_gain), None);
    assert_eq!(mixer.last_sequence(), 6);
}

#[test]
fn a_finished_and_empty_stream_leaves_without_a_frame() {
    let mut mixer = AudioMixer::new(UNITY, None);
    let id = mixer.play().unwrap();
    assert!(mixer.ingest(id, &bytes_of(&vec![9i16; FRAME_SAMPLES])));
    assert!(mixer.finish(id));
    assert_eq!(mixer.tick(&[], no_gain), Some(2));
    assert_eq!(mixer.stream_count(), 1);
    assert_eq!(mixer.tick(&[], no_gain), None);
    assert_eq!(mixer.stream_count(), 0);
}

#[test]
fn a_busy_stream_is_left_alone_for_the_tick() {
    let mut mixer = AudioMixer::new(UNITY, None);
    let a = mixer.play().unwrap();
    let b = mixer.play().unwrap();
    assert!(mixer.ingest(a, &bytes_of(&vec![10i16; FRAME_SAMPLES])));
    assert!(mixer.ingest(b, &bytes_of(&vec![20i16; FRAME_SAMPLES])));
    assert_eq!(mixer.tick(&[true, false], no_gain), Some(2));
    assert_eq!(mixer.mixed(), &vec![20i16; FRAME_SAMPLES]);
    assert_eq!(mixer.stream_at(0), Some((a, FRAME_SAMPLES, false)));
    assert_eq!(mixer.stream_at(1), Some((b, 0, false)));
    assert_eq!(mixer.tick(&[false, false], no_gain), Some(4));
    assert_eq!(mixer.mixed(), &vec![10i16; FRAME_SAMPLES]);
}

#[test]
fn the_mix_saturates() {
    let mut mixer = AudioMixer::new(UNITY, None);
    let a = mixer.play().unwrap();
    let b = mixer.play().unwrap();
    assert!(mixer.ingest(a, &bytes_of(&vec![30000i16; FRAME_SAMPLES])));
    assert!(mixer.ingest(b, &bytes_of(&vec![10000i16; FRAME_SAMPLES])));
    assert_eq!(mixer.tick(&[], no_gain), Some(2));
    assert_eq!(mixer.mixed(), &vec![32767i16; FRAME_SAMPLES]);
    assert_eq!(saturating_add(-30000, -10000), -32768);
    assert_eq!(saturating_add(-5, 7), 2);
}

#[test]
fn the_order_of_registration_does_not_change_the_mix() {
    let frames: [i16; 3] = [1200, -700, 4100];
    let mut first = AudioMixer::new(UNITY, None);
    for value in frames {
        let id = first.play().unwrap();
        assert!(first.ingest(id, &bytes_of(&vec![value; FRAME_SAMPLES])));
    }
    let mut second = AudioMixer::new(UNITY, None);
    for value in [frames[2], frames[0], frames[1]] {
        let id = second.play().unwrap();
        assert!(second.ingest(id, &bytes_of(&vec![value; FRAME_SAMPLES])));
    }
    assert_eq!(first.tick(&[], no_gain), Some(2));
    assert_eq!(second.tick(&[], no_gain), Some(2));
    assert_eq!(first.mixed(), second.mixed());
    assert_eq!(first.mixed(), &vec![4600i16; FRAME_SAMPLES]);
}

#[test]
fn stop_all_clears_the_registry() {
    let mut mixer = AudioMixer::new(UNITY, None);
    let a = mixer.play().unwrap();
    assert!(mixer.ingest(a, &bytes_of(&vec![1i16; FRAME_SAMPLES])));
    mixer.stop_all_streams();
    assert_eq!(mixer.stream_count(), 0);
    assert_eq!(mixer.tick(&[], no_gain), None);
    let b = mixer.play().unwrap();
    assert!(b > a);
}

#[test]
fn the_volume_scales_rounds_and_saturates() {
    let mut samples: Vec<i16> = vec![0, 1, -1, 3, -3, 1000, -1000, 30000, -30000, 32767, -32768];
    let before = samples.clone();
    apply_volume(&mut samples, UNITY);
    assert_eq!(samples, before);
    apply_volume(&mut samples, UNITY / 2);
    assert_eq!(samples, vec![0, 1, -1, 2, -2, 500, -500, 15000, -15000, 16384, -16384]);
    let mut loud = before.clone();
    apply_volume(&mut loud, 2 * UNITY);
    assert_eq!(loud, vec![0, 2, -2, 6, -6, 2000, -2000, 32767, -32768, 32767, -32768]);
    assert_eq!(scaled_rounded(5, UNITY / 4), 1);
    assert_eq!(scaled_rounded(6, UNITY / 4), 2);
    assert_eq!(scaled_rounded(-6, UNITY / 4), -2);
    assert_eq!(scaled_truncated(7, UNITY / 4), 1);
    assert_eq!(scaled_truncated(-7, UNITY / 4), -1);
}

#[test]
fn the_mixer_applies_the_volume() {
    let mut mixer = AudioMixer::new(UNITY / 2, None);
    let id = mixer.play().unwrap();
    assert!(mixer.ingest(id, &bytes_of(&vec![101i16; FRAME_SAMPLES])));
    assert_eq!(mixer.tick(&[], no_gain), Some(2));
    assert_eq!(mixer.mixed(), &vec![51i16; FRAME_SAMPLES]);
}

#[test]
fn samples_are_read_least_significant_byte_first() {
    assert_eq!(samples_from_bytes(&[0x01, 0x00, 0xff, 0xff, 0x00, 0x80, 0xff, 0x7f]),
        vec![1, -1, -32768, 32767]);
    assert_eq!(samples_from_bytes(&[0x34, 0x12, 0x56]), vec![0x1234]);
    assert_eq!(samples_from_bytes(&[0x34]), Vec::<i16>::new());
    assert_eq!(samples_from_bytes(&[]), Vec::<i16>::new());
}

#[test]
fn a_stream_takes_in_chunks_and_gives_frames() {
    let mut stream = AudioStream::new(4);
    stream.append(&bytes_of(&vec![3i16; FRAME_SAMPLES + 10]));
    let mut mixed = vec![1i16; FRAME_SAMPLES];
    let done = mix_stream(&mut mixed, &mut stream);
    assert!(done.active && done.keep);
    assert_eq!(mixed, vec![4i16; FRAME_SAMPLES]);
    assert_eq!(stream.buffer, vec![3i16; 10]);
    let done = mix_stream(&mut mixed, &mut stream);
    assert!(!done.active && done.keep);
    assert_eq!(stream.buffer.len(), 10);
    stream.finish();
    let done = mix_stream(&mut mixed, &mut stream);
    assert!(done.active && !done.keep);
    assert!(stream.buffer.is_empty());
    assert_eq!(&mixed[..10], &[7i16; 10]);
    assert_eq!(&mixed[10..], &vec![4i16; FRAME_SAMPLES - 10][..]);
}

#[test]
fn the_frame_has_header_sequence_length_and_payload() {
    let frame = audio_frame(6, &[0xAA, 0xBB, 0xCC]);
    assert_eq!(
        frame,
        vec![
            0x80, 0xF4, 0, 0, 0, 0, 0, 0, 0, 6, 0xF4, 0, 0, 0, 0, 0, 0, 0, 3, 0xAA, 0xBB, 0xCC
        ]
    );
    let empty = audio_frame(0x0102_0304, &[]);
    assert_eq!(
        empty,
        vec![0x80, 0xF4, 0, 0, 0, 0, 1, 2, 3, 4, 0xF4, 0, 0, 0, 0, 0, 0, 0, 0]
    );
}

#[test]
fn varints_are_encoded() {
    assert_eq!(encode_varint_16(0), Vec::<u8>::new());
    assert_eq!(encode_varint_16(1), vec![1]);
    assert_eq!(encode_varint_16(127), vec![127]);
    assert_eq!(encode_varint_16(128), vec![0x80, 1]);
    assert_eq!(encode_varint_16(300), vec![0xAC, 2]);
    assert_eq!(encode_varint_16(0xFFFF), vec![0xFF, 0xFF, 3]);
    assert_eq!(
        encode_varint_long(0x0102_0304_0506_0708),
        vec![0xF4, 1, 2, 3, 4, 5, 6, 7, 8]
    );
    assert_eq!(encode_varint_long(u64::MAX), vec![0xF4, 255, 255, 255, 255, 255, 255, 255, 255]);
}

#[test]
fn test_normalizer_creation() {
    let normalizer = VolumeNormalizer::new(260_904, 48000);
    assert_eq!(normalizer.current_gain(), UNITY);
    assert_eq!(normalizer.window_power(), 0);
}

#[test]
fn the_power_of_a_frame_is_its_mean_square() {
    assert_eq!(frame_power(&[]), 0);
    assert_eq!(frame_power(&[3, -4]), 12);
    assert_eq!(frame_power(&[100; 10]), 10_000);
    assert_eq!(frame_power(&[-32768; 4]), 0x4000_0000);
}

#[test]
fn the_gain_moves_a_hundredth_toward_its_target_and_is_applied() {
    let mut normalizer = VolumeNormalizer::new(4 * UNITY, 48000);
    let mut samples = vec![1000i16; FRAME_SAMPLES];
    normalizer.process(&mut samples, |power| {
        assert_eq!(power, 1_000_000);
        2 * UNITY
    });
    assert_eq!(normalizer.current_gain(), UNITY + UNITY / 100);
    assert_eq!(normalizer.window_power(), 1_000_000);
    assert_eq!(samples, vec![1009i16; FRAME_SAMPLES]);
    normalizer.reset();
    assert_eq!(normalizer.current_gain(), UNITY);
    assert_eq!(normalizer.window_power(), 0);
}

#[test]
fn the_gain_stays_between_floor_and_ceiling() {
    let ceiling = 3 * UNITY;
    let mut up = VolumeNormalizer::new(ceiling, 48000);
    let mut down = VolumeNormalizer::new(ceiling, 48000);
    for _ in 0..2000 {
        let mut samples = vec![10i16; 64];
        up.process(&mut samples, |_| u32::MAX);
        assert!(up.current_gain() <= ceiling);
        let mut samples = vec![10i16; 64];
        down.process(&mut samples, |_| 0);
        assert!(down.current_gain() >= FLOOR_GAIN);
    }
    assert!(up.current_gain() > 2 * UNITY);
    assert!(down.current_gain() < UNITY / 5);
}

#[test]
fn a_gain_near_one_leaves_the_samples() {
    let mut normalizer = VolumeNormalizer::new(4 * UNITY, 48000);
    let mut samples = vec![1234i16, -4321];
    normalizer.process(&mut samples, |_| UNITY + 3000);
    assert_eq!(normalizer.current_gain(), UNITY + 30);
    assert_eq!(samples, vec![1234i16, -4321]);
}

#[test]
fn the_mixer_runs_the_normaliser_before_the_volume() {
    let normalizer = VolumeNormalizer::new(4 * UNITY, 48000);
    let mut mixer = AudioMixer::new(UNITY, Some(normalizer));
    let id = mixer.play().unwrap();
    assert!(mixer.ingest(id, &bytes_of(&vec![1000i16; FRAME_SAMPLES])));
    assert_eq!(mixer.tick(&[], |_| 2 * UNITY), Some(2));
    assert_eq!(mixer.mixed(), &vec![1009i16; FRAME_SAMPLES]);
}

#[test]
fn a_frame_that_the_encoder_refused_is_dropped() {
    assert!(emission(4, None).is_none());
    match emission(4, Some(vec![9, 8])) {
        Some(OutgoingMessage::AudioData(frame)) => assert_eq!(frame, audio_frame(4, &[9, 8])),
        other => panic!("unexpected: {:?}", other),
    }
}
