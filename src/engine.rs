use vstd::prelude::*;
use vstd::string::*;
use crate::catalog::{lookup, WhisperModelInfo};
use crate::chunked::{non_silent, run_events, run_text, ChunkedTranscript, ProgressSink};
use crate::resample::{chunks_covering, pad_chunk, ConversionError};
use crate::text::{concat, join_segments, space_join, string_views, trimmed};

verus! {

/// The sample rate that the speech-recognition model requires.
pub const WHISPER_SAMPLE_RATE: u32 = 16000;

/// Why a model operation failed.
#[derive(Clone, Debug, PartialEq, Eq)]
pub enum EngineError {
    /// No model id was given and none was loaded before.
    NoModelSpecified,
    /// The catalog holds no model with this id.
    ModelNotFound(String),
    /// The model's file is not present on disk.
    ModelNotDownloaded,
    /// The native inference context could not be created.
    LoadFailed(String),
    /// A transcription was asked for before any model was loaded.
    ModelNotLoaded,
    /// The audio could not be converted to the model's sample rate.
    Conversion(ConversionError),
    /// Inference failed.
    DecodeFailed(String),
}

/// What the caller-supplied loader reports when it cannot produce a context.
#[derive(Clone, Debug, PartialEq, Eq)]
pub enum LoadFailure {
    NotDownloaded,
    InitFailed(String),
}

/// The transcription engine: at most one loaded inference context, with the
/// id of the model it was made from.
pub struct WhisperModel<C> {
    context: Option<C>,
    current_model_id: Option<String>,
}

pub open spec fn id_view(id: Option<String>) -> Option<Seq<char>> {
    match id {
        Some(s) => Some(s@),
        None => None,
    }
}

/// The model id that a load asks for: the given one, else the current one.
pub open spec fn requested_model(given: Option<String>, current: Option<Seq<char>>) -> Option<
    Seq<char>,
> {
    match given {
        Some(s) => Some(s@),
        None => current,
    }
}

impl<C> WhisperModel<C> {
    /// The loaded context, if any.
    pub closed spec fn loaded(&self) -> Option<C> {
        self.context
    }

    /// The id of the loaded model, if any.
    pub closed spec fn model_id(&self) -> Option<Seq<char>> {
        id_view(self.current_model_id)
    }

    /// An engine with no model loaded.
    pub fn new() -> (r: Self)
        ensures
            r.loaded().is_none(),
            r.model_id().is_none(),
    {
        WhisperModel { context: None, current_model_id: None }
    }

    /// The id of the loaded model, if any.
    pub fn get_current_model_id(&self) -> (r: Option<String>)
        ensures
            id_view(r) == self.model_id(),
    {
        match &self.current_model_id {
            Some(s) => Some(s.clone()),
            None => None,
        }
    }

    /// Whether a model is loaded.
    pub fn is_loaded(&self) -> (r: bool)
        ensures
            r == self.loaded().is_some(),
    {
        self.context.is_some()
    }

    /// The loaded context, which both transcription operations need.
    pub fn loaded_context(&self) -> (r: Result<&C, EngineError>)
        ensures
            match self.loaded() {
                Some(c) => r == Ok::<&C, EngineError>(&c),
                None => r == Err::<&C, EngineError>(EngineError::ModelNotLoaded),
            },
    {
        match &self.context {
            Some(c) => Ok(c),
            None => Err(EngineError::ModelNotLoaded),
        }
    }

    /// Loads the model `model_id`, or reloads the current one when `model_id`
    /// is `None`. `open` makes the inference context from the catalog entry.
    /// The engine changes only when a new context was made; on every error it
    /// keeps the model that it had.
    pub fn load_model<F>(&mut self, model_id: Option<String>, open: F) -> (r: Result<
        (),
        EngineError,
    >) where F: FnOnce(WhisperModelInfo) -> Result<C, LoadFailure>
        requires
            forall|m: WhisperModelInfo| call_requires(open, (m,)),
        ensures
            ({
                let target = requested_model(model_id, old(self).model_id());
                &&& target is None ==> r == Err::<(), EngineError>(EngineError::NoModelSpecified)
                &&& target is Some && lookup(target.unwrap()) is None ==> (r matches Err(
                    EngineError::ModelNotFound(s),
                ) && s@ == target.unwrap())
                &&& target is Some && lookup(target.unwrap()) is Some ==> match r {
                    Ok(_) => exists|m: WhisperModelInfo, c: C|
                        m@ == lookup(target.unwrap()).unwrap() && call_ensures(
                            open,
                            (m,),
                            Ok::<C, LoadFailure>(c),
                        ) && final(self).loaded() == Some(c) && final(self).model_id() == target,
                    Err(EngineError::ModelNotDownloaded) => exists|m: WhisperModelInfo|
                        m@ == lookup(target.unwrap()).unwrap() && call_ensures(
                            open,
                            (m,),
                            Err::<C, LoadFailure>(LoadFailure::NotDownloaded),
                        ),
                    Err(EngineError::LoadFailed(e)) => exists|m: WhisperModelInfo|
                        m@ == lookup(target.unwrap()).unwrap() && call_ensures(
                            open,
                            (m,),
                            Err::<C, LoadFailure>(LoadFailure::InitFailed(e)),
                        ),
                    Err(_) => false,
                }
                &&& r is Err ==> *final(self) == *old(self)
            }),
    {
        let target = match model_id {
            Some(id) => id,
            None => match &self.current_model_id {
                Some(id) => id.clone(),
                None => {
                    return Err(EngineError::NoModelSpecified);
                },
            },
        };
        let info = match WhisperModelInfo::get_by_id(target.as_str()) {
            Some(m) => m,
            None => {
                return Err(EngineError::ModelNotFound(target));
            },
        };
        match open(info) {
            Ok(c) => {
                self.context = Some(c);
                self.current_model_id = Some(target);
                Ok(())
            },
            Err(LoadFailure::NotDownloaded) => Err(EngineError::ModelNotDownloaded),
            Err(LoadFailure::InitFailed(e)) => Err(EngineError::LoadFailed(e)),
        }
    }
}

impl<C> Default for WhisperModel<C> {
    fn default() -> (r: Self)
        ensures
            r.loaded().is_none(),
            r.model_id().is_none(),
    {
        Self::new()
    }
}

/// Whether audio at `sample_rate` must be converted before inference.
pub fn needs_resampling(sample_rate: u32) -> (r: bool)
    ensures
        r == (sample_rate != WHISPER_SAMPLE_RATE),
{
    sample_rate != WHISPER_SAMPLE_RATE
}

/// The text of one decoded chunk: its segments concatenated and trimmed.
pub open spec fn segments_text(segments: Vec<String>) -> Seq<char> {
    trimmed(concat(string_views(segments@)))
}

/// The texts of decoded chunks, in order.
pub open spec fn chunk_texts(segs: Seq<Vec<String>>) -> Seq<Seq<char>> {
    segs.map_values(|v: Vec<String>| segments_text(v))
}

/// Chunk `k` of `samples` in chunks of `width`, zero padded to the width.
pub open spec fn chunk_input<S>(samples: Seq<S>, width: nat, k: int, fill: S) -> Seq<S> {
    let start = k * width;
    let len = if samples.len() - start < width {
        (samples.len() - start) as nat
    } else {
        width
    };
    samples.subrange(start, start + len) + Seq::new((width - len) as nat, |i: int| fill)
}

/// The samples inference runs on: `audio` itself at the model's rate, else
/// what `resample` returned for it.
pub open spec fn model_input<S, R: FnOnce(&[S], u32, u32) -> Result<Vec<S>, ConversionError>>(
    resample: R,
    audio: &[S],
    sample_rate: u32,
    input: Vec<S>,
) -> bool {
    if sample_rate == WHISPER_SAMPLE_RATE {
        input@ == audio@
    } else {
        call_ensures(
            resample,
            (audio, sample_rate, WHISPER_SAMPLE_RATE),
            Ok::<Vec<S>, ConversionError>(input),
        )
    }
}

/// `ins` are the padded chunks of `samples` and `segs` what `decode`
/// returned for each.
pub open spec fn chunk_decodes<C, S, D: Fn(&C, &Vec<S>) -> Result<Vec<String>, String>>(
    decode: D,
    context: &C,
    samples: Seq<S>,
    width: nat,
    fill: S,
    ins: Seq<Vec<S>>,
    segs: Seq<Vec<String>>,
) -> bool {
    &&& ins.len() == segs.len()
    &&& forall|k: int|
        0 <= k < ins.len() ==> (#[trigger] ins[k])@ == chunk_input(samples, width, k, fill)
            && call_ensures(decode, (context, &ins[k]), Ok::<Vec<String>, String>(segs[k]))
}

fn copy_samples<S: Copy>(audio: &[S]) -> (r: Vec<S>)
    ensures
        r@ == audio@,
{
    let mut r: Vec<S> = Vec::new();
    let mut i: usize = 0;
    while i < audio.len()
        invariant
            i <= audio@.len(),
            r@ == audio@.take(i as int),
        decreases audio@.len() - i,
    {
        r.push(audio[i]);
        assert(audio@.take(i + 1) =~= audio@.take(i as int).push(audio@[i as int]));
        i = i + 1;
    }
    assert(audio@.take(audio@.len() as int) =~= audio@);
    r
}

impl<C> WhisperModel<C> {
    /// The samples inference runs on: `audio` at the model's rate, converted
    /// by `resample` when captured at another.
    fn model_samples<S: Copy, R>(audio: &[S], sample_rate: u32, resample: R) -> (r: Result<
        Vec<S>,
        EngineError,
    >) where R: FnOnce(&[S], u32, u32) -> Result<Vec<S>, ConversionError>
        requires
            call_requires(resample, (audio, sample_rate, WHISPER_SAMPLE_RATE)),
        ensures
            match r {
                Ok(input) => model_input(resample, audio, sample_rate, input),
                Err(EngineError::Conversion(e)) => sample_rate != WHISPER_SAMPLE_RATE
                    && call_ensures(
                    resample,
                    (audio, sample_rate, WHISPER_SAMPLE_RATE),
                    Err::<Vec<S>, ConversionError>(e),
                ),
                Err(_) => false,
            },
            sample_rate == WHISPER_SAMPLE_RATE ==> r is Ok,
    {
        if needs_resampling(sample_rate) {
            match resample(audio, sample_rate, WHISPER_SAMPLE_RATE) {
                Ok(v) => Ok(v),
                Err(e) => Err(EngineError::Conversion(e)),
            }
        } else {
            Ok(copy_samples(audio))
        }
    }

    /// Transcribes `audio` captured at `sample_rate` in one pass. The audio
    /// is first converted to the model's rate by `resample` when it differs;
    /// `decode` runs inference on the loaded context; the text is the decoded
    /// segments concatenated and trimmed.
    pub fn transcribe<S: Copy, R, D>(&self, audio: &[S], sample_rate: u32, resample: R, decode: D) -> (r:
        Result<String, EngineError>) where
        R: FnOnce(&[S], u32, u32) -> Result<Vec<S>, ConversionError>,
        D: FnOnce(&C, &Vec<S>) -> Result<Vec<String>, String>,

        requires
            call_requires(resample, (audio, sample_rate, WHISPER_SAMPLE_RATE)),
            forall|c: &C, v: &Vec<S>| call_requires(decode, (c, v)),
        ensures
            self.loaded() is None ==> r == Err::<String, EngineError>(EngineError::ModelNotLoaded),
            self.loaded() matches Some(c) ==> match r {
                Ok(text) => exists|input: Vec<S>, segs: Vec<String>|
                    #![trigger model_input(resample, audio, sample_rate, input), segments_text(segs)]
                    model_input(resample, audio, sample_rate, input) && call_ensures(
                        decode,
                        (&c, &input),
                        Ok::<Vec<String>, String>(segs),
                    ) && text@ == segments_text(segs),
                Err(EngineError::Conversion(e)) => sample_rate != WHISPER_SAMPLE_RATE
                    && call_ensures(
                    resample,
                    (audio, sample_rate, WHISPER_SAMPLE_RATE),
                    Err::<Vec<S>, ConversionError>(e),
                ),
                Err(EngineError::DecodeFailed(m)) => exists|input: Vec<S>|
                    #[trigger] model_input(resample, audio, sample_rate, input) && call_ensures(
                        decode,
                        (&c, &input),
                        Err::<Vec<String>, String>(m),
                    ),
                Err(_) => false,
            },
    {
        let context = match &self.context {
            Some(c) => c,
            None => {
                return Err(EngineError::ModelNotLoaded);
            },
        };
        let input = match Self::model_samples(audio, sample_rate, resample) {
            Ok(v) => v,
            Err(e) => {
                return Err(e);
            },
        };
        match decode(context, &input) {
            Ok(segs) => {
                let text = join_segments(&segs);
                assert(model_input(resample, audio, sample_rate, input));
                assert(text@ == segments_text(segs));
                Ok(text)
            },
            Err(m) => {
                let r = Err(EngineError::DecodeFailed(m));
                assert(model_input(resample, audio, sample_rate, input));
                r
            },
        }
    }

    /// Transcribes `audio` captured at `sample_rate` in chunks of
    /// `chunk_samples` samples at the model's rate, the last one zero padded.
    /// The audio is converted once by `resample` when its rate differs;
    /// `decode` runs inference on each chunk independently. Each chunk whose
    /// text is not empty extends the running text, and `sink` receives that
    /// text and whether the chunk is the last one; silent chunks add neither
    /// a report nor a separator. The result is the non-empty chunk texts
    /// joined by spaces.
    pub fn transcribe_chunked<S: Copy, R, D, P: ProgressSink>(
        &self,
        audio: &[S],
        sample_rate: u32,
        chunk_samples: usize,
        fill: S,
        resample: R,
        decode: D,
        sink: &mut P,
    ) -> (r: Result<String, EngineError>) where
        R: FnOnce(&[S], u32, u32) -> Result<Vec<S>, ConversionError>,
        D: Fn(&C, &Vec<S>) -> Result<Vec<String>, String>,

        requires
            chunk_samples > 0,
            call_requires(resample, (audio, sample_rate, WHISPER_SAMPLE_RATE)),
            forall|c: &C, v: &Vec<S>| call_requires(decode, (c, v)),
            old(sink).accepts(),
        ensures
            final(sink).accepts(),
            self.loaded() is None ==> r == Err::<String, EngineError>(EngineError::ModelNotLoaded)
                && final(sink).reports() == old(sink).reports(),
            self.loaded() is Some && sample_rate == WHISPER_SAMPLE_RATE && audio@.len() == 0 ==> (
            r matches Ok(t) && t@.len() == 0 && final(sink).reports() == old(sink).reports()),
            self.loaded() matches Some(c) ==> match r {
                Ok(text) => exists|input: Vec<S>, ins: Seq<Vec<S>>, segs: Seq<Vec<String>>|
                    #![trigger model_input(resample, audio, sample_rate, input), chunk_decodes(decode, &c, input@, chunk_samples as nat, fill, ins, segs)]
                    model_input(resample, audio, sample_rate, input) && chunk_decodes(
                        decode,
                        &c,
                        input@,
                        chunk_samples as nat,
                        fill,
                        ins,
                        segs,
                    ) && segs.len() == chunks_covering(input@.len(), chunk_samples as nat) && text@
                        == run_text(chunk_texts(segs)) && text@ == space_join(
                        non_silent(chunk_texts(segs)),
                    ) && final(sink).reports() == old(sink).reports() + run_events(
                        chunk_texts(segs),
                        chunks_covering(input@.len(), chunk_samples as nat),
                    ),
                Err(EngineError::Conversion(e)) => sample_rate != WHISPER_SAMPLE_RATE
                    && call_ensures(
                    resample,
                    (audio, sample_rate, WHISPER_SAMPLE_RATE),
                    Err::<Vec<S>, ConversionError>(e),
                ) && final(sink).reports() == old(sink).reports(),
                Err(EngineError::DecodeFailed(m)) => exists|
                    input: Vec<S>,
                    ins: Seq<Vec<S>>,
                    segs: Seq<Vec<String>>,
                    failed: Vec<S>,
                |
                    #![trigger model_input(resample, audio, sample_rate, input), chunk_decodes(decode, &c, input@, chunk_samples as nat, fill, ins, segs), call_ensures(decode, (&c, &failed), Err::<Vec<String>, String>(m))]
                    model_input(resample, audio, sample_rate, input) && chunk_decodes(
                        decode,
                        &c,
                        input@,
                        chunk_samples as nat,
                        fill,
                        ins,
                        segs,
                    ) && segs.len() < chunks_covering(input@.len(), chunk_samples as nat)
                        && failed@ == chunk_input(input@, chunk_samples as nat, segs.len() as int, fill)
                        && call_ensures(decode, (&c, &failed), Err::<Vec<String>, String>(m))
                        && final(sink).reports() == old(sink).reports() + run_events(
                        chunk_texts(segs),
                        chunks_covering(input@.len(), chunk_samples as nat),
                    ),
                Err(_) => false,
            },
    {
        let context = match &self.context {
            Some(c) => c,
            None => {
                return Err(EngineError::ModelNotLoaded);
            },
        };
        let input = match Self::model_samples(audio, sample_rate, resample) {
            Ok(v) => v,
            Err(e) => {
                return Err(e);
            },
        };
        let mut run = ChunkedTranscript::new(input.len(), chunk_samples);
        let total = run.total_chunks();
        let ghost start = sink.reports();
        let ghost mut ins: Seq<Vec<S>> = Seq::empty();
        let ghost mut segs: Seq<Vec<String>> = Seq::empty();
        proof {
            crate::resample::lemma_chunks_covering(0, chunk_samples as nat);
        }
        while run.decoded_chunks() < total
            invariant
                self.loaded() == Some(*context),
                model_input(resample, audio, sample_rate, input),
                run.wf(),
                run.total() == total,
                total == chunks_covering(input@.len(), chunk_samples as nat),
                input@.len() > 0 || total == 0,
                run.chunk_size() == chunk_samples,
                run.sample_count() == input@.len(),
                run.texts() == chunk_texts(segs),
                chunk_decodes(decode, context, input@, chunk_samples as nat, fill, ins, segs),
                start == old(sink).reports(),
                sink.accepts(),
                sink.reports() == start + run_events(run.texts(), total as nat),
                forall|c: &C, v: &Vec<S>| call_requires(decode, (c, v)),
            decreases total - run.texts().len(),
        {
            let span = run.current_span();
            let chunk = pad_chunk(input.as_slice(), span.start, span.len, chunk_samples, fill);
            let ghost k = run.texts().len() as int;
            proof {
                assert(chunk@ == chunk_input(input@, chunk_samples as nat, k, fill));
            }
            let chunk_segments = match decode(context, &chunk) {
                Ok(v) => v,
                Err(m) => {
                    let r = Err(EngineError::DecodeFailed(m));
                    let ghost cc = self.loaded().unwrap();
                    assert(chunk_decodes(decode, &cc, input@, chunk_samples as nat, fill, ins, segs));
                    assert(segs.len() == chunk_texts(segs).len());
                    assert(match r {
                        Err(EngineError::DecodeFailed(m2)) => call_ensures(
                            decode,
                            (&cc, &chunk),
                            Err::<Vec<String>, String>(m2),
                        ),
                        _ => false,
                    });
                    return r;
                },
            };
            let report = run.add_chunk(&chunk_segments);
            proof {
                let old_segs = segs;
                let old_ins = ins;
                ins = ins.push(chunk);
                segs = segs.push(chunk_segments);
                assert(chunk_texts(segs) =~= chunk_texts(old_segs).push(segments_text(chunk_segments)));
                assert forall|j: int| 0 <= j < ins.len() implies (#[trigger] ins[j])@ == chunk_input(
                    input@,
                    chunk_samples as nat,
                    j,
                    fill,
                ) && call_ensures(decode, (context, &ins[j]), Ok::<Vec<String>, String>(segs[j])) by {
                    if j < k {
                        assert(ins[j] == old_ins[j]);
                        assert(segs[j] == old_segs[j]);
                    }
                }
            }
            match report {
                Some(p) => {
                    sink.report(p.text.as_str(), p.is_final);
                    assert(sink.reports() =~= start + run_events(run.texts(), total as nat));
                },
                None => {},
            }
        }
        let text = run.text();
        let ghost cc = self.loaded().unwrap();
        assert(chunk_decodes(decode, &cc, input@, chunk_samples as nat, fill, ins, segs));
        assert(segs.len() == chunk_texts(segs).len());
        Ok(text)
    }
}

} // verus!
