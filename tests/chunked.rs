use talktype::chunked::{ChunkedTranscript, TranscriptionProgress};
use talktype::text::{join_segments, trim_white_space};

fn segs(parts: &[&str]) -> Vec<String> {
    parts.iter().map(|p| p.to_string()).collect()
}

fn progress(text: &str, is_final: bool) -> Option<TranscriptionProgress> {
    Some(TranscriptionProgress { text: text.to_string(), is_final })
}

#[test]
fn every_chunk_with_speech_reports_once_and_only_the_last_is_final() {
    let mut run = ChunkedTranscript::new(90, 30);
    assert_eq!(run.total_chunks(), 3);
    let mut reports = Vec::new();
    for parts in [vec![" hello"], vec!["world ", ""], vec![" again "]] {
        assert!(run.next_chunk().is_some());
        if let Some(p) = run.add_chunk(&segs(&parts)) {
            reports.push(p);
        }
    }
    assert!(run.next_chunk().is_none());
    assert_eq!(
        reports,
        vec![
            progress("hello", false).unwrap(),
            progress("hello world", false).unwrap(),
            progress("hello world again", true).unwrap(),
        ]
    );
    assert_eq!(run.text(), "hello world again");
}

#[test]
fn silent_chunks_report_nothing_and_add_no_separator() {
    let mut run = ChunkedTranscript::new(75, 25);
    assert_eq!(run.add_chunk(&segs(&["one"])), progress("one", false));
    assert_eq!(run.add_chunk(&segs(&["  ", "\n"])), None);
    assert_eq!(run.add_chunk(&segs(&["two"])), progress("one two", true));
    assert_eq!(run.text(), "one two");
}

#[test]
fn silent_last_chunk_gives_no_final_report() {
    let mut run = ChunkedTranscript::new(20, 10);
    assert_eq!(run.add_chunk(&segs(&["only"])), progress("only", false));
    assert_eq!(run.add_chunk(&segs(&[])), None);
    assert_eq!(run.text(), "only");
}

#[test]
fn chunk_spans_cover_the_audio_with_a_short_tail() {
    let mut run = ChunkedTranscript::new(100, 30);
    assert_eq!(run.total_chunks(), 4);
    let mut spans = Vec::new();
    while let Some(span) = run.next_chunk() {
        spans.push((span.start, span.len));
        run.add_chunk(&Vec::new());
    }
    assert_eq!(spans, vec![(0, 30), (30, 30), (60, 30), (90, 10)]);
}

#[test]
fn empty_audio_has_no_chunks() {
    let run = ChunkedTranscript::new(0, 480000);
    assert_eq!(run.total_chunks(), 0);
    assert!(run.next_chunk().is_none());
    assert_eq!(run.text(), "");
}

#[test]
fn segments_are_concatenated_and_trimmed() {
    assert_eq!(join_segments(&segs(&[" Hello", " world. "])), "Hello world.");
    assert_eq!(join_segments(&segs(&["\u{3000}hi\u{a0}"])), "hi");
    assert_eq!(join_segments(&segs(&[])), "");
}

#[test]
fn trimming_removes_unicode_white_space_at_both_ends() {
    assert_eq!(trim_white_space(" \t\n hello world \u{2028}"), "hello world");
    assert_eq!(trim_white_space("\u{85}\u{200a}"), "");
    assert_eq!(trim_white_space("x"), "x");
    assert_eq!(trim_white_space("\u{200b}x"), "\u{200b}x");
}
