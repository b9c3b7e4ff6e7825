//! The WAV encoder and the built-in sounds, byte for byte.

use mario_rust::audio::{
    default_coin_sound, default_hurt_sound, default_jump_sound, default_music_sound,
    default_powerup_sound, default_stomp_sound, default_win_sound, synth_chiptune_wav,
    synth_tone_mono_16, wav_pcm_mono_16,
};

#[test]
fn wav_container_is_exact() {
    let samples: Vec<i16> = vec![0, 1, -1];
    let bytes = wav_pcm_mono_16(44100, &samples);
    let mut expected: Vec<u8> = Vec::new();
    expected.extend_from_slice(b"RIFF");
    expected.extend_from_slice(&42u32.to_le_bytes());
    expected.extend_from_slice(b"WAVE");
    expected.extend_from_slice(b"fmt ");
    expected.extend_from_slice(&16u32.to_le_bytes());
    expected.extend_from_slice(&1u16.to_le_bytes());
    expected.extend_from_slice(&1u16.to_le_bytes());
    expected.extend_from_slice(&44100u32.to_le_bytes());
    expected.extend_from_slice(&88200u32.to_le_bytes());
    expected.extend_from_slice(&2u16.to_le_bytes());
    expected.extend_from_slice(&16u16.to_le_bytes());
    expected.extend_from_slice(b"data");
    expected.extend_from_slice(&6u32.to_le_bytes());
    expected.extend_from_slice(&0i16.to_le_bytes());
    expected.extend_from_slice(&1i16.to_le_bytes());
    expected.extend_from_slice(&(-1i16).to_le_bytes());
    assert_eq!(bytes, expected);
}

#[test]
fn tone_has_envelope_and_square_shape() {
    // 44100 Hz, 100 Hz tone: attack 441 samples, release 882.
    let s = synth_tone_mono_16(44100, 100, 4410, 8000);
    assert_eq!(s.len(), 4410);
    // The very first sample is silent (attack starts at zero).
    assert_eq!(s[0], 0);
    // Mid-tone, positive half of the square wave at full amplitude.
    assert_eq!(s[500], 8000);
    // 100 Hz at 44100 Hz flips polarity every 220.5 samples.
    assert_eq!(s[700], -8000);
    // Deep in the release the magnitude has decayed.
    let tail = s[4400] as i64;
    assert!(tail.abs() < 8000);
    assert_eq!(tail.abs(), 8000i64 * 10 / 882);
}

#[test]
fn built_in_cues_have_their_lengths() {
    assert_eq!(default_jump_sound().len(), 44 + 2 * 5292);
    assert_eq!(default_coin_sound().len(), 44 + 2 * 3528);
    assert_eq!(default_stomp_sound().len(), 44 + 2 * 4410);
    assert_eq!(default_powerup_sound().len(), 44 + 2 * 7938);
    assert_eq!(default_hurt_sound().len(), 44 + 2 * 7056);
    assert_eq!(default_win_sound().len(), 44 + 2 * 9702);
    let jump = default_jump_sound();
    assert_eq!(&jump[0..4], b"RIFF");
    assert_eq!(&jump[8..12], b"WAVE");
}

#[test]
fn music_loop_is_a_full_wav() {
    let music = synth_chiptune_wav();
    assert_eq!(music.len(), 44 + 2 * 302400);
    assert_eq!(&music[0..4], b"RIFF");
    assert_eq!(&music[36..40], b"data");
    assert_eq!(music, default_music_sound());
    // The loop fades in from silence.
    assert_eq!(music[44], 0);
    assert_eq!(music[45], 0);
    // In a sounding step both voices are audible.
    let mid = 44 + 2 * 142000;
    let sample = i16::from_le_bytes([music[mid], music[mid + 1]]);
    assert!(sample != 0);
}
