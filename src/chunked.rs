use vstd::prelude::*;
use vstd::string::*;
use crate::resample::chunks_covering;
use crate::text::{concat, join_segments, space_join, string_views, trimmed};

verus! {

/// Incremental result of a chunked transcription, handed to the caller after
/// each chunk that produced text.
#[derive(Clone, Debug, PartialEq, Eq)]
pub struct TranscriptionProgress {
    pub text: String,
    pub is_final: bool,
}

impl View for TranscriptionProgress {
    type V = (Seq<char>, bool);

    open spec fn view(&self) -> (Seq<char>, bool) {
        (self.text@, self.is_final)
    }
}

/// Receives the progress reports of a chunked transcription, in order.
pub trait ProgressSink {
    /// The reports received so far: running text and whether it is final.
    spec fn reports(&self) -> Seq<(Seq<char>, bool)>;

    /// Whether the sink can take another report.
    spec fn accepts(&self) -> bool;

    /// Receives one report.
    fn report(&mut self, text: &str, is_final: bool)
        requires
            old(self).accepts(),
        ensures
            final(self).reports() == old(self).reports().push((text@, is_final)),
            final(self).accepts(),
    ;
}

/// A sink that keeps every report it receives.
pub struct ProgressLog {
    entries: Vec<TranscriptionProgress>,
}

pub open spec fn progress_views(v: Seq<TranscriptionProgress>) -> Seq<(Seq<char>, bool)> {
    v.map_values(|p: TranscriptionProgress| p@)
}

impl ProgressLog {
    /// A log with no reports.
    pub fn new() -> (r: Self)
        ensures
            r.reports() == Seq::<(Seq<char>, bool)>::empty(),
    {
        ProgressLog { entries: Vec::new() }
    }

    /// The reports received so far, in order.
    pub fn entries(&self) -> (r: &Vec<TranscriptionProgress>)
        ensures
            progress_views(r@) == self.reports(),
    {
        &self.entries
    }
}

impl ProgressSink for ProgressLog {
    closed spec fn reports(&self) -> Seq<(Seq<char>, bool)> {
        progress_views(self.entries@)
    }

    open spec fn accepts(&self) -> bool {
        true
    }

    fn report(&mut self, text: &str, is_final: bool) {
        let ghost before = self.entries@;
        self.entries.push(TranscriptionProgress { text: text.to_owned(), is_final });
        assert(progress_views(self.entries@) =~= progress_views(before).push((text@, is_final)));
    }
}

/// A sink that hands each report to a callback, as it comes.
pub struct CallbackSink<F: Fn(&str, bool)> {
    callback: F,
    log: Ghost<Seq<(Seq<char>, bool)>>,
}

impl<F: Fn(&str, bool)> CallbackSink<F> {
    /// A sink that calls `callback` with each report's text and finality.
    pub fn new(callback: F) -> (r: Self)
        requires
            forall|t: &str, last: bool| call_requires(callback, (t, last)),
        ensures
            r.reports() == Seq::<(Seq<char>, bool)>::empty(),
            r.accepts(),
    {
        CallbackSink { callback, log: Ghost(Seq::empty()) }
    }
}

impl<F: Fn(&str, bool)> ProgressSink for CallbackSink<F> {
    closed spec fn reports(&self) -> Seq<(Seq<char>, bool)> {
        self.log@
    }

    closed spec fn accepts(&self) -> bool {
        forall|t: &str, last: bool| call_requires(self.callback, (t, last))
    }

    fn report(&mut self, text: &str, is_final: bool) {
        let f = &self.callback;
        f(text, is_final);
        self.log = Ghost(self.log@.push((text@, is_final)));
    }
}

/// The running text after one more chunk text: silent chunks add nothing,
/// the others are appended with a single space as separator.
pub open spec fn accumulate(acc: Seq<char>, chunk: Seq<char>) -> Seq<char> {
    if chunk.len() == 0 {
        acc
    } else if acc.len() == 0 {
        chunk
    } else {
        acc + seq![' '] + chunk
    }
}

/// The running text after the chunk texts `texts`.
pub open spec fn run_text(texts: Seq<Seq<char>>) -> Seq<char>
    decreases texts.len(),
{
    if texts.len() == 0 {
        Seq::empty()
    } else {
        accumulate(run_text(texts.drop_last()), texts.last())
    }
}

/// The progress reports made over the chunk texts `texts`, out of `total` chunks.
pub open spec fn run_events(texts: Seq<Seq<char>>, total: nat) -> Seq<(Seq<char>, bool)>
    decreases texts.len(),
{
    if texts.len() == 0 {
        Seq::empty()
    } else if texts.last().len() == 0 {
        run_events(texts.drop_last(), total)
    } else {
        run_events(texts.drop_last(), total).push((run_text(texts), texts.len() == total))
    }
}

/// The chunk texts that are not empty, in order.
pub open spec fn non_silent(texts: Seq<Seq<char>>) -> Seq<Seq<char>>
    decreases texts.len(),
{
    if texts.len() == 0 {
        Seq::empty()
    } else if texts.last().len() == 0 {
        non_silent(texts.drop_last())
    } else {
        non_silent(texts.drop_last()).push(texts.last())
    }
}

/// Over any chunk texts: one report per chunk with text, whose text is the
/// space-joined texts so far; only a report made for the last of all chunks
/// is final; and the running text is the space-joined non-empty chunk texts.
pub proof fn lemma_chunked_progress(texts: Seq<Seq<char>>, total: nat)
    requires
        texts.len() <= total,
    ensures
        run_events(texts, total).len() == non_silent(texts).len(),
        run_text(texts) == space_join(non_silent(texts)),
        forall|k: int|
            0 <= k < run_events(texts, total).len() ==> (#[trigger] run_events(texts, total)[k]).0
                == space_join(non_silent(texts).take(k + 1)),
        forall|k: int|
            0 <= k < run_events(texts, total).len() ==> ((#[trigger] run_events(
                texts,
                total,
            )[k]).1 <==> (k == run_events(texts, total).len() - 1 && texts.len() == total
                && texts.last().len() > 0)),
    decreases texts.len(),
{
    if texts.len() > 0 {
        let prev = texts.drop_last();
        lemma_chunked_progress(prev, total);
        lemma_non_silent_empty(prev);
        let ns = non_silent(texts);
        if texts.last().len() > 0 {
            assert(ns.drop_last() =~= non_silent(prev));
            assert(ns.take(ns.len() as int) =~= ns);
            let ev = run_events(texts, total);
            assert forall|k: int| 0 <= k < ev.len() - 1 implies #[trigger] ns.take(k + 1) =~= non_silent(
                prev,
            ).take(k + 1) by {}
            if prev.len() > 0 {
                lemma_last_chunk_not_final(prev, total);
            }
        }
    }
}

proof fn lemma_non_silent_empty(texts: Seq<Seq<char>>)
    ensures
        (non_silent(texts).len() == 0) <==> (run_text(texts).len() == 0),
        forall|i: int| 0 <= i < non_silent(texts).len() ==> #[trigger] non_silent(texts)[i].len()
            > 0,
    decreases texts.len(),
{
    if texts.len() > 0 {
        lemma_non_silent_empty(texts.drop_last());
    }
}

proof fn lemma_last_chunk_not_final(texts: Seq<Seq<char>>, total: nat)
    requires
        texts.len() < total,
    ensures
        forall|k: int|
            0 <= k < run_events(texts, total).len() ==> !(#[trigger] run_events(texts, total)[k]).1,
    decreases texts.len(),
{
    if texts.len() > 0 {
        let prev = texts.drop_last();
        lemma_last_chunk_not_final(prev, total);
        let ev = run_events(texts, total);
        assert forall|k: int| 0 <= k < ev.len() implies !(#[trigger] ev[k]).1 by {
            if k < run_events(prev, total).len() {
                assert(ev[k] == run_events(prev, total)[k]);
            }
        }
    }
}

/// State of a chunked transcription: the chunks still to decode and the text
/// assembled so far. The caller decodes each chunk and hands its segments in.
pub struct ChunkedTranscript {
    text: String,
    total_samples: usize,
    chunk_samples: usize,
    total_chunks: usize,
    next_index: usize,
    texts: Ghost<Seq<Seq<char>>>,
}

/// Where one chunk lies in the audio.
#[derive(Clone, Debug, PartialEq, Eq)]
pub struct ChunkSpan {
    pub start: usize,
    pub len: usize,
}

impl ChunkedTranscript {
    /// The chunk texts recorded so far, each trimmed.
    pub closed spec fn texts(&self) -> Seq<Seq<char>> {
        self.texts@
    }

    pub closed spec fn total(&self) -> nat {
        self.total_chunks as nat
    }

    pub closed spec fn chunk_size(&self) -> nat {
        self.chunk_samples as nat
    }

    pub closed spec fn sample_count(&self) -> nat {
        self.total_samples as nat
    }

    pub closed spec fn wf(&self) -> bool {
        &&& self.chunk_samples > 0
        &&& self.total_chunks == chunks_covering(self.total_samples as nat, self.chunk_samples as nat)
        &&& self.next_index == self.texts@.len()
        &&& self.next_index <= self.total_chunks
        &&& self.text@ == run_text(self.texts@)
    }

    /// A transcription of `total_samples` samples in chunks of `chunk_samples`.
    pub fn new(total_samples: usize, chunk_samples: usize) -> (r: Self)
        requires
            chunk_samples > 0,
        ensures
            r.wf(),
            r.texts() == Seq::<Seq<char>>::empty(),
            r.total() == chunks_covering(total_samples as nat, chunk_samples as nat),
            r.chunk_size() == chunk_samples,
            r.sample_count() == total_samples,
    {
        let total_chunks = if total_samples % chunk_samples == 0 {
            total_samples / chunk_samples
        } else {
            proof {
                let n = total_samples as int;
                let c = chunk_samples as int;
                assert(n / c < n) by (nonlinear_arith)
                    requires
                        c > 0,
                        n >= 0,
                        n % c != 0,
                {
                    if c == 1 {
                        assert(n % c == 0);
                    } else {
                        assert(n / c * c <= n);
                    }
                }
            }
            total_samples / chunk_samples + 1
        };
        ChunkedTranscript {
            text: String::new(),
            total_samples,
            chunk_samples,
            total_chunks,
            next_index: 0,
            texts: Ghost(Seq::empty()),
        }
    }

    /// Number of chunks: the samples divided by the chunk size, rounded up.
    pub fn total_chunks(&self) -> (r: usize)
        requires
            self.wf(),
        ensures
            r == self.total(),
    {
        self.total_chunks
    }

    /// Number of chunks recorded so far.
    pub fn decoded_chunks(&self) -> (r: usize)
        requires
            self.wf(),
        ensures
            r == self.texts().len(),
            r <= self.total(),
    {
        self.next_index
    }

    /// The next chunk to decode. All chunks are full but the last, which
    /// holds what remains.
    pub fn current_span(&self) -> (span: ChunkSpan)
        requires
            self.wf(),
            self.texts().len() < self.total(),
        ensures
            span.start == self.texts().len() * self.chunk_size(),
            span.len == if self.sample_count() - span.start < self.chunk_size() {
                (self.sample_count() - span.start) as nat
            } else {
                self.chunk_size()
            },
            span.len > 0,
            span.start + span.len <= self.sample_count(),
    {
        proof {
            let n = self.total_samples as int;
            let c = self.chunk_samples as int;
            let k = self.next_index as int;
            assert(k * c < n) by (nonlinear_arith)
                requires
                    0 <= k,
                    c > 0,
                    n >= 0,
                    k < (if n % c == 0 {
                        n / c
                    } else {
                        n / c + 1
                    }),
            {
                assert(n == (n / c) * c + n % c);
                if k < n / c {
                    assert(k * c <= (n / c - 1) * c);
                } else {
                    assert(k == n / c);
                }
            }
        }
        let start = self.next_index * self.chunk_samples;
        let remaining = self.total_samples - start;
        let len = if remaining < self.chunk_samples {
            remaining
        } else {
            self.chunk_samples
        };
        ChunkSpan { start, len }
    }

    /// The next chunk to decode, or `None` when all have been recorded.
    pub fn next_chunk(&self) -> (r: Option<ChunkSpan>)
        requires
            self.wf(),
        ensures
            match r {
                Some(span) => self.texts().len() < self.total() && span.start == self.texts().len()
                    * self.chunk_size() && span.len == if self.sample_count() - span.start
                    < self.chunk_size() {
                    (self.sample_count() - span.start) as nat
                } else {
                    self.chunk_size()
                } && span.len > 0,
                None => self.texts().len() == self.total(),
            },
    {
        if self.next_index >= self.total_chunks {
            None
        } else {
            Some(self.current_span())
        }
    }

    /// Records the decoded segments of the next chunk. Its text is the trimmed
    /// concatenation of the segments; when it is not empty it is appended to
    /// the running text and a report is returned, final when this chunk is the
    /// last one.
    pub fn add_chunk(&mut self, segments: &Vec<String>) -> (r: Option<TranscriptionProgress>)
        requires
            old(self).wf(),
            old(self).texts().len() < old(self).total(),
        ensures
            final(self).wf(),
            final(self).total() == old(self).total(),
            final(self).chunk_size() == old(self).chunk_size(),
            final(self).sample_count() == old(self).sample_count(),
            final(self).texts() == old(self).texts().push(trimmed(concat(string_views(segments@)))),
            run_events(final(self).texts(), final(self).total()) == match r {
                Some(p) => run_events(old(self).texts(), old(self).total()).push(p@),
                None => run_events(old(self).texts(), old(self).total()),
            },
    {
        let chunk_text = join_segments(segments);
        let ghost t = chunk_text@;
        let ghost old_texts = self.texts@;
        let ghost old_text = self.text@;
        proof {
            let texts = self.texts@.push(t);
            assert(texts.drop_last() =~= self.texts@);
            assert(run_text(texts) == accumulate(old_text, t));
            reveal_strlit(" ");
        }
        self.texts = Ghost(self.texts@.push(t));
        self.next_index = self.next_index + 1;
        if chunk_text.as_str().is_empty() {
            None
        } else {
            if !self.text.as_str().is_empty() {
                self.text.append(" ");
            }
            self.text.append(chunk_text.as_str());
            assert(self.text@ =~= accumulate(old_text, t));
            Some(
                TranscriptionProgress {
                    text: self.text.clone(),
                    is_final: self.next_index == self.total_chunks,
                },
            )
        }
    }

    /// The text assembled so far: the non-empty chunk texts joined by spaces.
    pub fn text(&self) -> (r: String)
        requires
            self.wf(),
        ensures
            r@ == run_text(self.texts()),
            r@ == space_join(non_silent(self.texts())),
    {
        proof {
            lemma_chunked_progress(self.texts@, self.total_chunks as nat);
        }
        self.text.clone()
    }
}

} // verus!
