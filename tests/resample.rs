use talktype::resample::{
    append_output, pad_chunk, resample_chunk_size, resample_plan, resample_tail_len,
    ConversionError, ResampleStep, ResamplerCache, ResamplerKey,
};

#[test]
fn downsampling_chunk_size_is_aligned_to_the_ratio() {
    assert_eq!(resample_chunk_size(48000, 16000), 1023);
    assert_eq!(resample_chunk_size(44100, 16000), 744);
    assert_eq!(resample_chunk_size(192000, 1000), 960);
}

#[test]
fn downsampling_chunk_size_is_at_least_64() {
    assert_eq!(resample_chunk_size(1_000_000, 1), 64);
}

#[test]
fn upsampling_and_equal_rates_use_512() {
    assert_eq!(resample_chunk_size(16000, 48000), 512);
    assert_eq!(resample_chunk_size(16000, 16000), 512);
}

#[test]
fn tail_output_is_rounded_to_its_share() {
    assert_eq!(resample_tail_len(100, 48000, 16000), 33);
    assert_eq!(resample_tail_len(101, 48000, 16000), 34);
    assert_eq!(resample_tail_len(512, 16000, 48000), 1536);
    assert_eq!(resample_tail_len(0, 48000, 16000), 0);
}

#[test]
fn plan_has_full_chunks_then_a_cut_tail() {
    let plan = resample_plan(2500, 48000, 16000).unwrap();
    assert_eq!(
        plan,
        vec![
            ResampleStep { start: 0, len: 1023, keep: None },
            ResampleStep { start: 1023, len: 1023, keep: None },
            ResampleStep { start: 2046, len: 454, keep: Some(151) },
        ]
    );
}

#[test]
fn plan_of_whole_chunks_has_no_tail() {
    let plan = resample_plan(1024, 16000, 48000).unwrap();
    assert_eq!(
        plan,
        vec![
            ResampleStep { start: 0, len: 512, keep: None },
            ResampleStep { start: 512, len: 512, keep: None },
        ]
    );
    assert_eq!(resample_plan(0, 44100, 16000).unwrap(), Vec::new());
}

#[test]
fn plan_rejects_a_zero_rate() {
    assert_eq!(resample_plan(10, 0, 16000), Err(ConversionError::ZeroRate));
    assert_eq!(resample_plan(10, 48000, 0), Err(ConversionError::ZeroRate));
}

#[test]
fn short_chunk_is_zero_padded() {
    let input = [1.0f32, 2.0, 3.0, 4.0, 5.0];
    assert_eq!(pad_chunk(&input, 3, 2, 4, 0.0), vec![4.0, 5.0, 0.0, 0.0]);
    assert_eq!(pad_chunk(&input, 0, 3, 3, 0.0), vec![1.0, 2.0, 3.0]);
}

#[test]
fn output_keeps_what_the_step_allows() {
    let mut out = vec![9.0f32];
    append_output(&mut out, &vec![1.0, 2.0, 3.0], Some(2));
    assert_eq!(out, vec![9.0, 1.0, 2.0]);
    append_output(&mut out, &vec![4.0, 5.0], Some(10));
    assert_eq!(out, vec![9.0, 1.0, 2.0, 4.0, 5.0]);
    append_output(&mut out, &vec![6.0], None);
    assert_eq!(out, vec![9.0, 1.0, 2.0, 4.0, 5.0, 6.0]);
}

#[test]
fn cache_builds_each_resampler_once() {
    let key = ResamplerKey { from_rate: 48000, to_rate: 16000, chunk_size: 1023 };
    let other = ResamplerKey { from_rate: 44100, to_rate: 16000, chunk_size: 744 };
    let mut cache: ResamplerCache<&str> = ResamplerCache::new();
    let mut builds = 0;
    let i = cache.get_or_insert_with(key, || -> Result<&str, String> {
        builds += 1;
        Ok("first")
    });
    assert_eq!(i, Ok(0));
    let j = cache.get_or_insert_with(key, || -> Result<&str, String> { Ok("second") });
    assert_eq!(j, Ok(0));
    assert_eq!(*cache.get(0), "first");
    assert_eq!(builds, 1);
    assert_eq!(cache.find(other), None);
    let k = cache.get_or_insert_with(other, || -> Result<&str, String> { Ok("third") });
    assert_eq!(k, Ok(1));
    assert_eq!(cache.find(other), Some(1));
    assert_eq!(cache.len(), 2);
}

#[test]
fn failed_construction_leaves_the_cache_unchanged() {
    let key = ResamplerKey { from_rate: 48000, to_rate: 16000, chunk_size: 1023 };
    let mut cache: ResamplerCache<u8> = ResamplerCache::new();
    let r = cache.get_or_insert_with(key, || Err("no".to_string()));
    assert_eq!(r, Err("no".to_string()));
    assert_eq!(cache.len(), 0);
    assert_eq!(cache.find(key), None);
}
