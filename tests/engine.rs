use talktype::engine::{needs_resampling, EngineError, LoadFailure, WhisperModel};

fn loaded_with(id: &str, ctx: u32) -> WhisperModel<u32> {
    let mut model: WhisperModel<u32> = WhisperModel::new();
    assert_eq!(model.load_model(Some(id.to_string()), |_| Ok(ctx)), Ok(()));
    model
}

#[test]
fn load_passes_the_catalog_entry_to_the_loader() {
    let mut model: WhisperModel<String> = WhisperModel::new();
    let r = model.load_model(Some("distil-large-v3.5-q8_0".to_string()), |m| Ok(m.filename));
    assert_eq!(r, Ok(()));
    assert_eq!(model.loaded_context(), Ok(&"ggml-model.bin".to_string()));
    assert_eq!(model.get_current_model_id(), Some("distil-large-v3.5-q8_0".to_string()));
    assert!(model.is_loaded());
}

#[test]
fn load_nonexistent_fails_and_keeps_previous_model() {
    let mut model = loaded_with("large-v3-turbo-q8_0", 7);
    let mut called = false;
    let r = model.load_model(Some("nonexistent".to_string()), |_| {
        called = true;
        Ok(9)
    });
    assert_eq!(r, Err(EngineError::ModelNotFound("nonexistent".to_string())));
    assert!(!called);
    assert_eq!(model.loaded_context(), Ok(&7));
    assert_eq!(model.get_current_model_id(), Some("large-v3-turbo-q8_0".to_string()));
}

#[test]
fn load_without_id_and_nothing_loaded_fails() {
    let mut model: WhisperModel<u32> = WhisperModel::default();
    assert_eq!(model.load_model(None, |_| Ok(1)), Err(EngineError::NoModelSpecified));
    assert!(!model.is_loaded());
}

#[test]
fn reload_without_id_uses_the_current_model() {
    let mut model = loaded_with("large-v3-turbo-q5_0", 1);
    let r = model.load_model(None, |m| if m.id == "large-v3-turbo-q5_0" { Ok(2) } else { Ok(3) });
    assert_eq!(r, Ok(()));
    assert_eq!(model.loaded_context(), Ok(&2));
}

#[test]
fn loader_failures_keep_the_previous_model() {
    let mut model = loaded_with("large-v3-turbo-q8_0", 5);
    let r = model.load_model(Some("large-v3-turbo-q5_0".to_string()), |_| Err(LoadFailure::NotDownloaded));
    assert_eq!(r, Err(EngineError::ModelNotDownloaded));
    let r = model.load_model(Some("large-v3-turbo-q5_0".to_string()), |_| {
        Err(LoadFailure::InitFailed("bad magic".to_string()))
    });
    assert_eq!(r, Err(EngineError::LoadFailed("bad magic".to_string())));
    assert_eq!(model.loaded_context(), Ok(&5));
    assert_eq!(model.get_current_model_id(), Some("large-v3-turbo-q8_0".to_string()));
}

#[test]
fn transcription_needs_a_loaded_model() {
    let model: WhisperModel<u32> = WhisperModel::new();
    assert_eq!(model.loaded_context(), Err(EngineError::ModelNotLoaded));
    assert_eq!(model.get_current_model_id(), None);
}

#[test]
fn only_other_rates_are_resampled() {
    assert!(!needs_resampling(16000));
    assert!(needs_resampling(48000));
    assert!(needs_resampling(8000));
}

use std::cell::RefCell;
use talktype::chunked::{CallbackSink, ProgressLog};
use talktype::resample::ConversionError;

fn model() -> WhisperModel<&'static str> {
    let mut m: WhisperModel<&'static str> = WhisperModel::new();
    m.load_model(Some("large-v3-turbo-q8_0".to_string()), |_| Ok("ctx")).unwrap();
    m
}

fn no_resample(_: &[i32], _: u32, _: u32) -> Result<Vec<i32>, ConversionError> {
    panic!("audio at the model's rate is not converted")
}

fn words(_: &&str, chunk: &Vec<i32>) -> Result<Vec<String>, String> {
    // each nonzero sample stands for a word; zero is silence
    Ok(chunk.iter().filter(|s| **s != 0).map(|s| format!(" w{}", s)).collect())
}

#[test]
fn transcribe_trims_the_decoded_segments() {
    let m = model();
    let text = m.transcribe(&[1, 0, 2], 16000, no_resample, words).unwrap();
    assert_eq!(text, "w1 w2");
}

#[test]
fn transcribe_converts_other_rates_first() {
    let m = model();
    let seen = RefCell::new(Vec::new());
    let text = m
        .transcribe(
            &[5, 6, 7],
            48000,
            |a: &[i32], from, to| {
                assert_eq!((from, to), (48000, 16000));
                Ok(vec![a[0] + a[1] + a[2]])
            },
            |_: &&str, v: &Vec<i32>| {
                seen.borrow_mut().push(v.clone());
                Ok(vec!["  eighteen ".to_string()])
            },
        )
        .unwrap();
    assert_eq!(text, "eighteen");
    assert_eq!(seen.into_inner(), vec![vec![18]]);
}

#[test]
fn transcribe_reports_each_failure() {
    let m = model();
    let r = m.transcribe(&[1], 44100, |_: &[i32], _, _| Err(ConversionError::ZeroRate), words);
    assert_eq!(r, Err(EngineError::Conversion(ConversionError::ZeroRate)));
    let r = m.transcribe(&[1], 16000, no_resample, |_: &&str, _: &Vec<i32>| Err("no state".to_string()));
    assert_eq!(r, Err(EngineError::DecodeFailed("no state".to_string())));
    let unloaded: WhisperModel<&'static str> = WhisperModel::new();
    assert_eq!(unloaded.transcribe(&[1], 16000, no_resample, words), Err(EngineError::ModelNotLoaded));
}

fn reports(log: &ProgressLog) -> Vec<(String, bool)> {
    log.entries().iter().map(|p| (p.text.clone(), p.is_final)).collect()
}

#[test]
fn chunked_transcription_reports_once_per_chunk_with_speech() {
    let m = model();
    let mut log = ProgressLog::new();
    // three chunks of four samples, each with speech
    let audio = [1, 0, 0, 0, 2, 3, 0, 0, 0, 0, 0, 4];
    let text = m.transcribe_chunked(&audio, 16000, 4, 0, no_resample, words, &mut log).unwrap();
    assert_eq!(text, "w1 w2 w3 w4");
    assert_eq!(
        reports(&log),
        vec![
            ("w1".to_string(), false),
            ("w1 w2 w3".to_string(), false),
            ("w1 w2 w3 w4".to_string(), true),
        ]
    );
}

#[test]
fn chunked_transcription_skips_silent_chunks_and_pads_the_last() {
    let m = model();
    let calls = RefCell::new(Vec::new());
    let mut sink = CallbackSink::new(|t: &str, last: bool| calls.borrow_mut().push((t.to_string(), last)));
    let chunks = RefCell::new(Vec::new());
    let audio = [0, 0, 0, 9, 0, 0, 0];
    let text = m
        .transcribe_chunked(
            &audio,
            16000,
            3,
            0,
            no_resample,
            |c: &&str, v: &Vec<i32>| {
                chunks.borrow_mut().push(v.clone());
                words(c, v)
            },
            &mut sink,
        )
        .unwrap();
    assert_eq!(text, "w9");
    drop(sink);
    assert_eq!(calls.into_inner(), vec![("w9".to_string(), false)]);
    assert_eq!(chunks.into_inner(), vec![vec![0, 0, 0], vec![9, 0, 0], vec![0, 0, 0]]);
}

#[test]
fn chunked_transcription_of_no_audio_is_empty() {
    let m = model();
    let mut log = ProgressLog::new();
    let text = m.transcribe_chunked(&[], 16000, 4, 0, no_resample, words, &mut log).unwrap();
    assert_eq!(text, "");
    assert!(log.entries().is_empty());
}

#[test]
fn chunked_decode_failure_keeps_earlier_reports() {
    let m = model();
    let mut log = ProgressLog::new();
    let r = m.transcribe_chunked(&[1, 0, 5, 0], 16000, 2, 0, no_resample, |c: &&str, v: &Vec<i32>| {
        if v[0] == 5 { Err("overflow".to_string()) } else { words(c, v) }
    }, &mut log);
    assert_eq!(r, Err(EngineError::DecodeFailed("overflow".to_string())));
    assert_eq!(reports(&log), vec![("w1".to_string(), false)]);
}

#[test]
fn chunked_transcription_needs_a_model() {
    let unloaded: WhisperModel<&'static str> = WhisperModel::new();
    let mut log = ProgressLog::new();
    let r = unloaded.transcribe_chunked(&[1], 16000, 4, 0, no_resample, words, &mut log);
    assert_eq!(r, Err(EngineError::ModelNotLoaded));
    assert!(log.entries().is_empty());
}
