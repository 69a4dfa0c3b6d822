use countdown::ratio::Ratio;
use countdown::wav::{beep_samples, encode_wav, generate_beep_wav, SamplePoint};
use std::cell::RefCell;

fn le(bytes: &[u8]) -> u32 {
    let mut value = 0;
    for &b in bytes.iter().rev() {
        value = value * 256 + u32::from(b);
    }
    value
}

#[test]
fn a_wav_file_byte_by_byte() {
    let wav = encode_wav(&vec![0, 1, -1, i16::MAX, i16::MIN]);
    let mut expected: Vec<u8> = Vec::new();
    expected.extend_from_slice(b"RIFF");
    expected.extend_from_slice(&46u32.to_le_bytes());
    expected.extend_from_slice(b"WAVEfmt ");
    expected.extend_from_slice(&16u32.to_le_bytes());
    expected.extend_from_slice(&1u16.to_le_bytes());
    expected.extend_from_slice(&1u16.to_le_bytes());
    expected.extend_from_slice(&44_100u32.to_le_bytes());
    expected.extend_from_slice(&88_200u32.to_le_bytes());
    expected.extend_from_slice(&2u16.to_le_bytes());
    expected.extend_from_slice(&16u16.to_le_bytes());
    expected.extend_from_slice(b"data");
    expected.extend_from_slice(&10u32.to_le_bytes());
    expected.extend_from_slice(&[0, 0, 1, 0, 0xff, 0xff, 0xff, 0x7f, 0x00, 0x80]);
    assert_eq!(wav, expected);
}

#[test]
fn an_empty_sound_is_a_header() {
    let wav = encode_wav(&Vec::new());
    assert_eq!(wav.len(), 44);
    assert_eq!(le(&wav[4..8]), 36);
    assert_eq!(le(&wav[40..44]), 0);
}

#[test]
fn every_sample_reads_back() {
    let samples: Vec<i16> = (-300..300).map(|k| k * 109).collect();
    let wav = encode_wav(&samples);
    for (i, s) in samples.iter().enumerate() {
        assert_eq!(i16::from_le_bytes([wav[44 + 2 * i], wav[45 + 2 * i]]), *s);
    }
}

#[test]
fn three_beeps_with_silence_after_each() {
    let samples = beep_samples(&|p: SamplePoint| (p.frequency / 10) as i16);
    assert_eq!(samples.len(), 33_075);
    let mut expected: Vec<i16> = Vec::new();
    for (note, length) in [(880, 6_615), (1046, 6_615), (1318, 13_230)] {
        expected.resize(expected.len() + length, note);
        expected.resize(expected.len() + 2_205, 0);
    }
    assert_eq!(samples, expected);
}

#[test]
fn the_last_tenth_of_a_beep_fades() {
    let seen: RefCell<Vec<SamplePoint>> = RefCell::new(Vec::new());
    beep_samples(&|p: SamplePoint| {
        seen.borrow_mut().push(p);
        0
    });
    let points = seen.into_inner();
    assert_eq!(points.len(), 26_460);
    assert_eq!(points[0], SamplePoint { frequency: 8_800, index: 0, faded: Ratio { num: 0, den: 1 } });
    assert_eq!(points[5_953].faded, Ratio { num: 0, den: 1 });
    assert_eq!(points[5_954].faded, Ratio { num: 1, den: 661 });
    assert_eq!(points[6_614].faded, Ratio { num: 661, den: 661 });
    assert_eq!(points[6_615].frequency, 10_465);
    assert_eq!(points[13_230].frequency, 13_185);
    assert_eq!(points[26_459].index, 13_229);
    assert_eq!(points[26_459].faded, Ratio { num: 1_322, den: 1_323 });
}

#[test]
fn the_fade_follows_the_formula_for_the_whole_sound() {
    let rate = 44_100.0_f64;
    let sample = |freq: f64, i: usize, fade: f64| -> i16 {
        let t = i as f64 / rate;
        let wave = (2.0 * std::f64::consts::PI * freq * t).sin();
        (wave * fade * i16::MAX as f64) as i16
    };
    let mut expected: Vec<i16> = Vec::new();
    for (freq, secs) in [(880.0, 0.15), (1046.5, 0.15), (1318.5, 0.30)] {
        let n = (rate * secs) as usize;
        for i in 0..n {
            let fade = if i > (n * 9 / 10) {
                1.0 - (i - n * 9 / 10) as f64 / (n / 10).max(1) as f64
            } else {
                1.0
            };
            expected.push(sample(freq, i, fade));
        }
        for _ in 0..(44_100 / 20) {
            expected.push(0);
        }
    }
    let wav = generate_beep_wav(&|p: SamplePoint| {
        let fade = 1.0 - p.faded.num as f64 / p.faded.den as f64;
        sample(f64::from(p.frequency) / 10.0, p.index as usize, fade)
    });
    assert_eq!(wav, encode_wav(&expected));
    assert_eq!(wav.len(), 66_194);
}
