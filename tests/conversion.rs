use rubato::{FftFixedInOut, Resampler};
use std::sync::Mutex;
use talktype::resample::{convert, resample_chunk_size, ConversionError};

fn convert_with_rubato(input: &[f32], from: u32, to: u32) -> Result<Vec<f32>, ConversionError> {
    let chunk = resample_chunk_size(from, to);
    let resampler = Mutex::new(
        FftFixedInOut::<f32>::new(from as usize, to as usize, chunk, 1)
            .map_err(|e| ConversionError::Resampler(format!("{:?}", e)))?,
    );
    convert(input, from, to, 0.0, |padded: &Vec<f32>| {
        let mut r = resampler.lock().unwrap();
        let mut out = r.output_buffer_allocate(true);
        r.process_into_buffer(&[padded.as_slice()], &mut out, None)
            .map_err(|e| format!("{:?}", e))?;
        Ok(out.remove(0))
    })
}

fn sine(freq: f32, rate: u32, n: usize) -> Vec<f32> {
    (0..n)
        .map(|i| 0.5 * (2.0 * std::f32::consts::PI * freq * i as f32 / rate as f32).sin())
        .collect()
}

fn amplitude_at(signal: &[f32], freq: f32, rate: u32) -> f32 {
    let (mut re, mut im) = (0.0f64, 0.0f64);
    for (i, s) in signal.iter().enumerate() {
        let phase = 2.0 * std::f64::consts::PI * freq as f64 * i as f64 / rate as f64;
        re += *s as f64 * phase.cos();
        im -= *s as f64 * phase.sin();
    }
    (2.0 * (re * re + im * im).sqrt() / signal.len() as f64) as f32
}

fn round_trip_keeps_frequency_content(from: u32, to: u32, freq: f32) {
    let n = from as usize;
    let signal = sine(freq, from, n);
    let there = convert_with_rubato(&signal, from, to).unwrap();
    let back = convert_with_rubato(&there, to, from).unwrap();
    let len = back.len().min(signal.len());
    assert!(len + from as usize / 50 >= n, "lost samples: {} of {}", len, n);
    let window = &back[n / 4..3 * n / 4];
    let reference = &signal[n / 4..3 * n / 4];
    let a = amplitude_at(window, freq, from);
    let a0 = amplitude_at(reference, freq, from);
    assert!((a - a0).abs() < 0.05, "amplitude {} against {}", a, a0);
    let stray = amplitude_at(window, freq * 2.5, from);
    assert!(stray < 0.02, "stray content {}", stray);
}

#[test]
fn round_trip_48k_16k_keeps_a_sine() {
    round_trip_keeps_frequency_content(48000, 16000, 440.0);
}

#[test]
fn round_trip_32k_16k_keeps_a_sine() {
    round_trip_keeps_frequency_content(32000, 16000, 1000.0);
}

#[test]
fn round_trip_16k_8k_keeps_a_sine() {
    round_trip_keeps_frequency_content(16000, 8000, 300.0);
}

#[test]
fn downsampling_gives_the_rate_share_of_samples() {
    let out = convert_with_rubato(&sine(440.0, 48000, 2500), 48000, 16000).unwrap();
    assert_eq!(out.len(), 341 + 341 + 151);
}

#[test]
fn conversion_output_is_what_each_step_keeps() {
    let input: Vec<u32> = (1..=1030).collect();
    let out = convert(&input, 48000, 16000, 0, |chunk: &Vec<u32>| Ok(vec![chunk[0], chunk[chunk.len() - 1], 7, 7]))
        .unwrap();
    // full chunk of 1023 keeps its whole output; the 7-sample tail keeps round(7 / 3) = 2
    assert_eq!(out, vec![1, 1023, 7, 7, 1024, 0]);
}

#[test]
fn conversion_fails_as_a_whole() {
    let input = vec![1u8; 3000];
    let r = convert(&input, 48000, 16000, 0, |_: &Vec<u8>| -> Result<Vec<u8>, String> { Err("boom".to_string()) });
    assert_eq!(r, Err(ConversionError::Resampler("boom".to_string())));
    let r = convert(&input, 0, 16000, 0, |c: &Vec<u8>| Ok(c.clone()));
    assert_eq!(r, Err(ConversionError::ZeroRate));
}

#[test]
fn empty_input_converts_to_nothing_without_a_resampler_call() {
    let r = convert(&[] as &[u8], 48000, 16000, 0, |_: &Vec<u8>| -> Result<Vec<u8>, String> {
        Err("called".to_string())
    });
    assert_eq!(r, Ok(vec![]));
}
