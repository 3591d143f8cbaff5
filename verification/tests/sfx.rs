use crab_invaders::sfx::{
    bomb, click_fix, enemy_boom, game_over, life_pickup, melody, music_loop, noise, note_freq, pickup,
    player_hit, shield_break, shoot, sweep, ui_move, ui_select, wave_clear, Rng, Wave,
};
use crab_invaders::wav::{wav_bytes, SAMPLE_RATE};

fn parse_wav(bytes: &[u8]) -> (u32, u16, usize) {
    assert_eq!(&bytes[0..4], b"RIFF");
    assert_eq!(&bytes[8..12], b"WAVE");
    assert_eq!(&bytes[12..16], b"fmt ");
    let rate = u32::from_le_bytes(bytes[24..28].try_into().unwrap());
    let bits = u16::from_le_bytes(bytes[34..36].try_into().unwrap());
    let data_len = u32::from_le_bytes(bytes[40..44].try_into().unwrap()) as usize;
    assert_eq!(bytes.len(), 44 + data_len);
    assert_eq!(data_len % 2, 0);
    (rate, bits, data_len / 2)
}

#[test]
fn wav_header_is_valid_pcm_mono() {
    let b = shoot();
    let (rate, bits, samples) = parse_wav(&b);
    assert_eq!(rate, SAMPLE_RATE);
    assert_eq!(bits, 16);
    assert!(samples > 1000);
}

#[test]
fn no_clipping_in_any_sfx() {
    let all = vec![
        shoot(),
        enemy_boom(),
        player_hit(),
        pickup(),
        life_pickup(),
        shield_break(),
        bomb(),
        wave_clear(),
        game_over(),
        ui_move(),
        ui_select(),
    ];
    for b in &all {
        assert!(!b.is_empty());
        parse_wav(b);
    }
    // sample-domain check via a raw sweep (0.1 s at 90%)
    for v in sweep(Wave::Square, 900, 300, 100, 90) {
        assert!(v.abs() <= 32767);
    }
}

#[test]
fn noise_is_deterministic() {
    assert_eq!(noise(100, 50, 42), noise(100, 50, 42));
    assert_ne!(noise(100, 50, 42), noise(100, 50, 43));
}

#[test]
fn music_loop_is_8_seconds() {
    let b = music_loop();
    let (rate, _, samples) = parse_wav(&b);
    let secs = samples as f32 / rate as f32;
    assert!((secs - 8.0).abs() < 0.01, "loop is {secs}s");
}

#[test]
fn note_freq_octave_doubles() {
    assert!((note_freq(12) as f64 / 1e6 - 880.0).abs() < 0.01);
    assert!((note_freq(0) as f64 / 1e6 - 440.0).abs() < 0.01);
}

#[test]
fn wav_bytes_frames_samples_exactly() {
    let b = wav_bytes(&[0, 1, -1, 40000, -40000]);
    assert_eq!(b.len(), 44 + 10);
    assert_eq!(&b[4..8], &(36u32 + 10).to_le_bytes());
    assert_eq!(&b[20..22], &1u16.to_le_bytes());
    assert_eq!(&b[22..24], &1u16.to_le_bytes());
    assert_eq!(&b[28..32], &44100u32.to_le_bytes());
    assert_eq!(&b[32..34], &2u16.to_le_bytes());
    assert_eq!(&b[36..40], b"data");
    assert_eq!(&b[44..46], &0i16.to_le_bytes());
    assert_eq!(&b[46..48], &1i16.to_le_bytes());
    assert_eq!(&b[48..50], &(-1i16).to_le_bytes());
    // louder than full scale is clamped
    assert_eq!(&b[50..52], &32767i16.to_le_bytes());
    assert_eq!(&b[52..54], &(-32767i16).to_le_bytes());
}

#[test]
fn sample_counts_follow_durations() {
    assert_eq!(sweep(Wave::Sine, 440, 440, 90, 50).len(), 1984);
    assert_eq!(noise(250, 70, 1).len(), 5512);
    assert_eq!(melody(&vec![(0, 5), (4, 5)], 180, 50).len(), 3968);
    assert_eq!(parse_wav(&music_loop()).2, 176400);
    assert_eq!(parse_wav(&game_over()).2, 24255);
}

#[test]
fn sweeps_fade_in_and_out() {
    let s = sweep(Wave::Square, 900, 320, 90, 45);
    assert_eq!(s[0], 0);
    assert_eq!(s[s.len() - 1], 0);
    // an unfaded sample of a 45% square is 45% of full scale times the envelope
    assert!(s[200].abs() <= 32767 * 45 / 100);
    assert!(s[200].abs() > 0);
}

#[test]
fn note_frequencies_are_equal_tempered() {
    assert_eq!(note_freq(0), 440_000_000);
    assert_eq!(note_freq(12), 880_000_000);
    assert_eq!(note_freq(-12), 220_000_000);
    assert_eq!(note_freq(-108), 859_375);
    // a fifth above A4 is about 659.26 Hz
    assert!((note_freq(7) as f64 / 1e6 - 659.255).abs() < 0.01);
}

#[test]
fn rng_is_xorshift32_and_never_zero() {
    let mut r = Rng::new(0);
    let a = r.next_u32();
    assert_eq!(a, 270369);
    let mut x: u32 = 1;
    x ^= x << 13;
    x ^= x >> 17;
    x ^= x << 5;
    assert_eq!(a, x);
    let mut g = Rng::new(42);
    for _ in 0..10000 {
        assert_ne!(g.next_u32(), 0);
    }
}

#[test]
fn music_peak_is_normalized() {
    let b = music_loop();
    let mut peak: i32 = 0;
    for k in 0..176400 {
        let v = i16::from_le_bytes([b[44 + 2 * k], b[45 + 2 * k]]) as i32;
        peak = peak.max(v.abs());
    }
    assert!(peak <= 19660);
    assert!(peak > 1000);
}

#[test]
fn louder_than_full_volume_is_kept_until_the_wav_clamps() {
    let soft = sweep(Wave::Square, 900, 320, 90, 100);
    let loud = sweep(Wave::Square, 900, 320, 90, 300);
    assert_eq!(soft.len(), loud.len());
    let peak = loud.iter().map(|s| s.abs()).max().unwrap();
    assert!(peak > 32767 && peak <= 3 * 32767, "peak {peak}");
    assert_eq!(loud[0], 0);
    assert_eq!(loud[loud.len() - 1], 0);
    let bytes = wav_bytes(&loud);
    for k in 0..loud.len() {
        let v = i16::from_le_bytes([bytes[44 + 2 * k], bytes[45 + 2 * k]]) as i32;
        assert_eq!(v, loud[k].clamp(-32767, 32767));
    }
    let tune = melody(&vec![(0, 10)], 200, 250);
    assert!(tune.iter().any(|s| s.abs() > 32767));
    assert!(noise(100, 400, 9).iter().any(|s| s.abs() > 32767));
    // an extreme volume saturates rather than wrapping
    let huge = sweep(Wave::Square, 440, 440, 50, u32::MAX);
    assert!(huge.iter().all(|s| *s > i32::MIN));
    assert!(huge.iter().any(|s| *s == i32::MAX || *s == -i32::MAX));
}

#[test]
fn click_fix_fades_only_the_ends_of_loud_buffers() {
    let buf = vec![100000; 300];
    let out = click_fix(&buf);
    assert_eq!(out.len(), 300);
    assert_eq!(out[0], 0);
    assert_eq!(out[299], 0);
    assert_eq!(out[44], 50000);
    for i in 88..=211 {
        assert_eq!(out[i], 100000);
    }
    assert!(out.iter().zip(&buf).all(|(o, b)| o.abs() <= b.abs()));
}

#[test]
fn samples_stay_within_their_volume() {
    let limit = |vol: i32| 32767 * vol / 100;
    assert!(sweep(Wave::Saw, 320, 55, 400, 70).iter().all(|s| s.abs() <= limit(70)));
    assert!(sweep(Wave::Square, 900, 320, 90, 250).iter().all(|s| s.abs() <= limit(250)));
    assert!(noise(250, 70, 1234).iter().all(|s| s.abs() <= limit(70)));
    let tune = melody(&vec![(0, 10), (7, 5), (12, 20)], 180, 50);
    assert!(tune.iter().all(|s| s.abs() <= limit(50)));
}
