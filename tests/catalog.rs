use talktype::catalog::WhisperModelInfo;

#[test]
fn all_lists_the_three_models_in_order() {
    let models = WhisperModelInfo::all();
    assert_eq!(models.len(), 3);
    assert_eq!(models[0].id, "large-v3-turbo-q8_0");
    assert_eq!(models[0].size_mb, 809);
    assert_eq!(models[0].filename, "ggml-large-v3-turbo-q8_0.bin");
    assert_eq!(models[0].recommended_for, vec!["accuracy".to_string(), "performance".to_string()]);
    assert_eq!(models[1].id, "large-v3-turbo-q5_0");
    assert_eq!(models[1].size_mb, 540);
    assert_eq!(models[1].recommended_for, vec!["slower_machines".to_string()]);
    assert_eq!(models[2].id, "distil-large-v3.5-q8_0");
    assert_eq!(models[2].size_mb, 1520);
    assert_eq!(models[2].filename, "ggml-model.bin");
    assert_eq!(
        models[2].url,
        "https://huggingface.co/distil-whisper/distil-large-v3.5-ggml/resolve/main/ggml-model.bin"
    );
}

#[test]
fn get_by_id_finds_a_listed_model() {
    let m = WhisperModelInfo::get_by_id("large-v3-turbo-q5_0").expect("listed");
    assert_eq!(m.name, "Large v3 Turbo Q5");
    assert_eq!(m.size_mb, 540);
    assert_eq!(m.description, "Good quality for slower machines");
}

#[test]
fn get_by_id_nonexistent_is_none() {
    assert!(WhisperModelInfo::get_by_id("nonexistent").is_none());
    assert!(WhisperModelInfo::get_by_id("").is_none());
    assert!(WhisperModelInfo::get_by_id("LARGE-V3-TURBO-Q8_0").is_none());
}
