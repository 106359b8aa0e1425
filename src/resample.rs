use vstd::prelude::*;

verus! {

/// Why a conversion could not be planned or carried out.
#[derive(Clone, Debug, PartialEq, Eq)]
pub enum ConversionError {
    /// A sample rate of zero was given.
    ZeroRate,
    /// The resampler could not be built or failed on a chunk.
    Resampler(String),
}

/// `a / b` rounded to the nearest integer, halves away from zero.
pub open spec fn round_div(a: nat, b: nat) -> nat
    recommends
        b > 0,
{
    (2 * a + b) / (2 * b)
}

/// Input chunk size of the resampler for a conversion `from -> to`. When
/// downsampling it is `round(1024 / ratio) * ratio` with the ratio taken as
/// a whole number, at least 64; otherwise 512.
pub open spec fn chunk_size_for(from: nat, to: nat) -> nat
    recommends
        from > 0,
        to > 0,
{
    if from > to {
        let c = round_div(1024 * to, from) * (from / to);
        if c < 64 {
            64
        } else {
            c
        }
    } else {
        512
    }
}

/// Output samples kept from a padded tail chunk of `len` real samples.
pub open spec fn tail_output_len(len: nat, from: nat, to: nat) -> nat
    recommends
        from > 0,
{
    round_div(len * to, from)
}

/// Number of chunks of `chunk` samples that cover `total` samples.
pub open spec fn chunks_covering(total: nat, chunk: nat) -> nat
    recommends
        chunk > 0,
{
    if total % chunk == 0 {
        total / chunk
    } else {
        total / chunk + 1
    }
}

/// The `k`-th chunk of a conversion of `n` samples in chunks of `c`.
pub open spec fn step_at(n: nat, c: nat, from: nat, to: nat, k: int) -> ResampleStep {
    let start = k * c;
    if n - start < c {
        ResampleStep {
            start: start as usize,
            len: (n - start) as usize,
            keep: Some(tail_output_len((n - start) as nat, from, to) as u64),
        }
    } else {
        ResampleStep { start: start as usize, len: c as usize, keep: None }
    }
}

/// The chunks of a conversion of `n` samples `from -> to`, in order: full
/// chunks of the chunk size, then one shorter tail when samples remain.
pub open spec fn resample_steps(n: nat, from: nat, to: nat) -> Seq<ResampleStep> {
    let c = chunk_size_for(from, to);
    Seq::new(chunks_covering(n, c), |k: int| step_at(n, c, from, to, k))
}

/// One chunk of a conversion: the input samples `start .. start + len`, zero
/// padded to the chunk size when shorter, and how many output samples of it
/// to keep (`None`: all of them).
#[derive(Clone, Debug, PartialEq, Eq)]
pub struct ResampleStep {
    pub start: usize,
    pub len: usize,
    pub keep: Option<u64>,
}

proof fn lemma_full_chunks_fit(total: nat, chunk: nat)
    requires
        chunk > 0,
    ensures
        (total / chunk) * chunk <= total,
        total - (total / chunk) * chunk < chunk,
        (total / chunk) * chunk == total <==> total % chunk == 0,
{
    assert(total == (total / chunk) * chunk + total % chunk) by (nonlinear_arith)
        requires
            chunk > 0,
    ;
}

pub proof fn lemma_chunks_covering(total: nat, chunk: nat)
    requires
        chunk > 0,
    ensures
        chunks_covering(total, chunk) == if (total / chunk) * chunk < total {
            total / chunk + 1
        } else {
            total / chunk
        },
{
    lemma_full_chunks_fit(total, chunk);
}

/// The chunk size for a conversion `from -> to`.
pub fn resample_chunk_size(from_rate: u32, to_rate: u32) -> (r: usize)
    requires
        from_rate > 0,
        to_rate > 0,
    ensures
        r == chunk_size_for(from_rate as nat, to_rate as nat),
        64 <= r <= u32::MAX,
{
    if from_rate > to_rate {
        let from = from_rate as u64;
        let to = to_rate as u64;
        let rounded = (2048 * to + from) / (2 * from);
        let ratio = from / to;
        proof {
            lemma_rounded_bound(from as nat, to as nat);
            lemma_mul_le(rounded as nat, 1025, ratio as nat);
            lemma_mul_le(ratio as nat, 0xffff_ffff, 1025);
            lemma_chunk_size_fits(from as nat, to as nat);
        }
        let c = rounded * ratio;
        if c < 64 {
            64
        } else {
            c as usize
        }
    } else {
        512
    }
}

proof fn lemma_mul_le(a: nat, b: nat, c: nat)
    requires
        a <= b,
    ensures
        a * c <= b * c,
{
    assert(a * c <= b * c) by (nonlinear_arith)
        requires
            a <= b,
    ;
}

proof fn lemma_chunk_size_fits(from: nat, to: nat)
    requires
        from > to,
        to > 0,
    ensures
        ((2048 * to + from) / (2 * from)) * (from / to) <= 1024 + from / 2,
{
    let a = 2048 * to + from;
    let q = a / (2 * from);
    let ratio = from / to;
    assert(q * (2 * from) <= a) by (nonlinear_arith)
        requires
            from > 0,
            q == a / (2 * from),
    ;
    assert(ratio * to <= from) by (nonlinear_arith)
        requires
            to > 0,
            ratio == from / to,
    ;
    assert(q * ratio * (2 * to) <= a) by (nonlinear_arith)
        requires
            q * (2 * from) <= a,
            ratio * to <= from,
            from > 0,
            to > 0,
    {
        assert(q * ratio * (2 * to) == q * 2 * (ratio * to));
        assert(q * 2 * (ratio * to) <= q * 2 * from);
    }
    assert(q * ratio <= 1024 + from / 2) by (nonlinear_arith)
        requires
            q * ratio * (2 * to) <= 2048 * to + from,
            to > 0,
    {
        if q * ratio > 1024 + from / 2 {
            assert(q * ratio >= 1024 + from / 2 + 1);
            assert(q * ratio * (2 * to) >= (1024 + from / 2 + 1) * (2 * to));
            assert((1024 + from / 2 + 1) * (2 * to) >= 2048 * to + (from / 2 + 1) * 2);
            assert((from / 2 + 1) * 2 > from);
        }
    }
}

proof fn lemma_rounded_bound(from: nat, to: nat)
    requires
        from > to,
        to > 0,
    ensures
        (2048 * to + from) / (2 * from) <= 1025,
        from / to <= from,
{
    assert((2048 * to + from) / (2 * from) <= 1025) by (nonlinear_arith)
        requires
            from > to,
            to > 0,
    {
        assert(2048 * to + from <= 1025 * (2 * from));
    }
    assert(from / to <= from) by (nonlinear_arith)
        requires
            to > 0,
    ;
}

/// How many output samples to keep from a tail chunk of `len` input samples.
pub fn resample_tail_len(len: usize, from_rate: u32, to_rate: u32) -> (r: u64)
    requires
        from_rate > 0,
        len <= u32::MAX,
    ensures
        r == tail_output_len(len as nat, from_rate as nat, to_rate as nat),
{
    let l = len as u128;
    let from = from_rate as u128;
    let to = to_rate as u128;
    proof {
        lemma_mul_le(l as nat, 0xffff_ffff, to as nat);
        lemma_mul_le(to as nat, 0xffff_ffff, 0xffff_ffff);
        assert((2 * (l * to) + from) / (2 * from) <= 2 * (l * to) + from) by (nonlinear_arith)
            requires
                from > 0,
        ;
        assert((2 * (l * to) + from) / (2 * from) <= l * to + 1) by (nonlinear_arith)
            requires
                from > 0,
        {
            assert(2 * (l * to) + from <= (l * to + 1) * (2 * from));
        }
    }
    ((2 * (l * to) + from) / (2 * from)) as u64
}

/// The chunks of a conversion of `input_len` samples `from -> to`: full
/// chunks of the chunk size in order, then one shorter tail when samples
/// remain, whose output is cut to its share.
pub fn resample_plan(input_len: usize, from_rate: u32, to_rate: u32) -> (r: Result<
    Vec<ResampleStep>,
    ConversionError,
>)
    ensures
        (from_rate == 0 || to_rate == 0) <==> r is Err,
        r is Err ==> r == Err::<Vec<ResampleStep>, ConversionError>(ConversionError::ZeroRate),
        r matches Ok(steps) ==> steps@ == resample_steps(
            input_len as nat,
            from_rate as nat,
            to_rate as nat,
        ),
{
    if from_rate == 0 || to_rate == 0 {
        return Err(ConversionError::ZeroRate);
    }
    let c = resample_chunk_size(from_rate, to_rate);
    let full = input_len / c;
    let mut steps: Vec<ResampleStep> = Vec::new();
    let mut pos: usize = 0;
    proof {
        lemma_full_chunks_fit(input_len as nat, c as nat);
    }
    while steps.len() < full
        invariant
            c == chunk_size_for(from_rate as nat, to_rate as nat),
            c >= 64,
            full == input_len / c,
            full * c <= input_len,
            steps@.len() <= full,
            pos == steps@.len() * c,
            forall|k: int|
                0 <= k < steps@.len() ==> {
                    let s = #[trigger] steps@[k];
                    &&& s.start == k * c
                    &&& s.len == c
                    &&& s.keep is None
                },
        decreases full - steps@.len(),
    {
        proof {
            assert((steps@.len() + 1) * c <= full * c) by (nonlinear_arith)
                requires
                    steps@.len() + 1 <= full,
                    c >= 0,
            ;
            assert((steps@.len() + 1) * c == steps@.len() * c + c) by (nonlinear_arith);
        }
        steps.push(ResampleStep { start: pos, len: c, keep: None });
        pos = pos + c;
    }
    assert(pos == full * c);
    if pos < input_len {
        let remaining = input_len - pos;
        let keep = resample_tail_len(remaining, from_rate, to_rate);
        let ghost before = steps@;
        steps.push(ResampleStep { start: pos, len: remaining, keep: Some(keep) });
        assert(forall|k: int| 0 <= k < before.len() ==> steps@[k] == before[k]);
        assert(remaining < c);
    }
    proof {
        lemma_chunks_covering(input_len as nat, c as nat);
        lemma_full_chunks_fit(input_len as nat, c as nat);
        assert(steps@.len() == chunks_covering(input_len as nat, c as nat));
        assert forall|k: int| 0 <= k < steps@.len() implies {
            let s = #[trigger] steps@[k];
            &&& s.start == k * c
            &&& s.start + s.len <= input_len
            &&& s.len > 0
            &&& (s.len == c <==> s.keep is None)
        } by {
            if k < full {
                lemma_mul_le(k as nat + 1, full as nat, c as nat);
                assert((k + 1) * c == k * c + c) by (nonlinear_arith);
            }
        }
        assert(steps@ =~= resample_steps(input_len as nat, from_rate as nat, to_rate as nat));
    }
    Ok(steps)
}

/// `width` samples: `input[start .. start + len]`, then `fill` up to the width.
pub fn pad_chunk<S: Copy>(input: &[S], start: usize, len: usize, width: usize, fill: S) -> (r: Vec<
    S,
>)
    requires
        start + len <= input@.len(),
        len <= width,
    ensures
        r@ == input@.subrange(start as int, start + len) + Seq::new(
            (width - len) as nat,
            |i: int| fill,
        ),
{
    let mut r: Vec<S> = Vec::new();
    let n = input.len();
    let mut i: usize = 0;
    while i < width
        invariant
            n == input@.len(),
            start + len <= input@.len(),
            len <= width,
            i <= width,
            r@.len() == i,
            forall|j: int| 0 <= j < i && j < len ==> #[trigger] r@[j] == input@[start + j],
            forall|j: int| 0 <= j < i && len <= j ==> #[trigger] r@[j] == fill,
        decreases width - i,
    {
        if i < len {
            r.push(input[start + i]);
        } else {
            r.push(fill);
        }
        i = i + 1;
    }
    assert(r@ =~= input@.subrange(start as int, start + len) + Seq::new(
        (width - len) as nat,
        |i: int| fill,
    ));
    r
}

/// How many of `produced` output samples a step keeps.
pub open spec fn kept_len(produced: nat, keep: Option<u64>) -> nat {
    match keep {
        Some(k) => if k < produced {
            k as nat
        } else {
            produced
        },
        None => produced,
    }
}

/// Appends to `out` what a step keeps of the samples the resampler produced
/// for it: all of them, or the first `keep` when the step is a padded tail.
pub fn append_output<S: Copy>(out: &mut Vec<S>, produced: &Vec<S>, keep: Option<u64>)
    ensures
        final(out)@ == old(out)@ + produced@.take(kept_len(produced@.len(), keep) as int),
{
    let n: usize = match keep {
        Some(k) => if k < produced.len() as u64 {
            k as usize
        } else {
            produced.len()
        },
        None => produced.len(),
    };
    let ghost start = out@;
    let mut i: usize = 0;
    while i < n
        invariant
            n <= produced@.len(),
            n == kept_len(produced@.len(), keep),
            i <= n,
            out@ == start + produced@.take(i as int),
        decreases n - i,
    {
        out.push(produced[i]);
        assert(produced@.take(i + 1) =~= produced@.take(i as int).push(produced@[i as int]));
        i = i + 1;
    }
}

/// Chunk `s` of `input` as the resampler receives it: zero padded to `width`.
pub open spec fn padded_input<S>(input: Seq<S>, s: ResampleStep, width: nat, fill: S) -> Seq<S> {
    input.subrange(s.start as int, s.start + s.len) + Seq::new(
        (width - s.len) as nat,
        |i: int| fill,
    )
}

/// The converted samples: for each step in order, what it keeps of the
/// output produced for it.
pub open spec fn assemble<S>(outs: Seq<Seq<S>>, steps: Seq<ResampleStep>) -> Seq<S>
    decreases outs.len(),
{
    if outs.len() == 0 {
        Seq::empty()
    } else {
        assemble(outs.drop_last(), steps) + outs.last().take(
            kept_len(outs.last().len(), steps[outs.len() - 1].keep) as int,
        )
    }
}

pub open spec fn vec_views<S>(v: Seq<Vec<S>>) -> Seq<Seq<S>> {
    v.map_values(|x: Vec<S>| x@)
}

/// `ins` are the first padded chunks of a conversion of `input`, in order,
/// and `outs` what `process` returned for each.
pub open spec fn chunk_outputs<S, F: Fn(&Vec<S>) -> Result<Vec<S>, String>>(
    process: F,
    input: Seq<S>,
    from_rate: u32,
    to_rate: u32,
    fill: S,
    ins: Seq<Vec<S>>,
    outs: Seq<Vec<S>>,
) -> bool {
    let steps = resample_steps(input.len(), from_rate as nat, to_rate as nat);
    let c = chunk_size_for(from_rate as nat, to_rate as nat);
    &&& ins.len() == outs.len()
    &&& outs.len() <= steps.len()
    &&& forall|k: int|
        0 <= k < ins.len() ==> (#[trigger] ins[k])@ == padded_input(input, steps[k], c, fill)
            && call_ensures(process, (&ins[k],), Ok::<Vec<S>, String>(outs[k]))
}

/// The conversion failed with `m` on the chunk after those of `ins`: `failed`
/// is that padded chunk and `process` returned `Err(m)` for it.
pub open spec fn chunk_failure<S, F: Fn(&Vec<S>) -> Result<Vec<S>, String>>(
    process: F,
    input: Seq<S>,
    from_rate: u32,
    to_rate: u32,
    fill: S,
    ins: Seq<Vec<S>>,
    outs: Seq<Vec<S>>,
    failed: Vec<S>,
    m: String,
) -> bool {
    let steps = resample_steps(input.len(), from_rate as nat, to_rate as nat);
    let c = chunk_size_for(from_rate as nat, to_rate as nat);
    &&& chunk_outputs(process, input, from_rate, to_rate, fill, ins, outs)
    &&& outs.len() < steps.len()
    &&& failed@ == padded_input(input, steps[outs.len() as int], c, fill)
    &&& call_ensures(process, (&failed,), Err::<Vec<S>, String>(m))
}

/// Converts `input` from `from_rate` to `to_rate` chunk by chunk. `process`
/// resamples one padded chunk; the result is the concatenation of what each
/// step keeps of its output. The conversion fails as a whole on a zero rate
/// or when `process` fails on some chunk.
pub fn convert<S: Copy, F>(input: &[S], from_rate: u32, to_rate: u32, fill: S, process: F) -> (r:
    Result<Vec<S>, ConversionError>) where F: Fn(&Vec<S>) -> Result<Vec<S>, String>
    requires
        forall|v: &Vec<S>| call_requires(process, (v,)),
    ensures
        (from_rate == 0 || to_rate == 0) ==> r == Err::<Vec<S>, ConversionError>(
            ConversionError::ZeroRate,
        ),
        r matches Ok(out) ==> from_rate > 0 && to_rate > 0 && exists|
            ins: Seq<Vec<S>>,
            outs: Seq<Vec<S>>,
        |
            #[trigger] chunk_outputs(process, input@, from_rate, to_rate, fill, ins, outs)
                && outs.len() == resample_steps(input@.len(), from_rate as nat, to_rate as nat).len()
                && out@ == assemble(
                vec_views(outs),
                resample_steps(input@.len(), from_rate as nat, to_rate as nat),
            ),
        from_rate > 0 && to_rate > 0 && input@.len() == 0 ==> (r matches Ok(out) && out@.len() == 0),
        match r {
            Err(ConversionError::Resampler(m)) => exists|
                ins: Seq<Vec<S>>,
                outs: Seq<Vec<S>>,
                failed: Vec<S>,
            |
                #[trigger] chunk_failure(
                    process,
                    input@,
                    from_rate,
                    to_rate,
                    fill,
                    ins,
                    outs,
                    failed,
                    m,
                ),
            Err(ConversionError::ZeroRate) => from_rate == 0 || to_rate == 0,
            Ok(_) => true,
        },
{
    let steps = match resample_plan(input.len(), from_rate, to_rate) {
        Ok(steps) => steps,
        Err(e) => {
            return Err(e);
        },
    };
    let c = resample_chunk_size(from_rate, to_rate);
    let n = input.len();
    let ghost all = steps@;
    let ghost mut ins: Seq<Vec<S>> = Seq::empty();
    let ghost mut outs: Seq<Vec<S>> = Seq::empty();
    let mut out: Vec<S> = Vec::new();
    let mut k: usize = 0;
    proof {
        lemma_chunks_covering(0, c as nat);
    }
    while k < steps.len()
        invariant
            input@.len() > 0 || all.len() == 0,
            n == input@.len(),
            c <= u32::MAX,
            steps@ == all,
            all == resample_steps(input@.len(), from_rate as nat, to_rate as nat),
            c == chunk_size_for(from_rate as nat, to_rate as nat),
            from_rate > 0,
            to_rate > 0,
            forall|v: &Vec<S>| call_requires(process, (v,)),
            k <= all.len(),
            ins.len() == k,
            outs.len() == k,
            chunk_outputs(process, input@, from_rate, to_rate, fill, ins, outs),
            out@ == assemble(vec_views(outs), all),
        decreases all.len() - k,
    {
        let start = steps[k].start;
        let len = steps[k].len;
        let keep = steps[k].keep;
        proof {
            lemma_step_fits(n as nat, from_rate as nat, to_rate as nat, k as int);
        }
        let chunk = pad_chunk(input, start, len, c, fill);
        let produced = match process(&chunk) {
            Ok(p) => p,
            Err(m) => {
                let r = Err(ConversionError::Resampler(m));
                assert(match r {
                    Err(ConversionError::Resampler(m2)) => chunk_failure(
                        process,
                        input@,
                        from_rate,
                        to_rate,
                        fill,
                        ins,
                        outs,
                        chunk,
                        m2,
                    ),
                    _ => false,
                });
                return r;
            },
        };
        append_output(&mut out, &produced, keep);
        proof {
            let old_outs = outs;
            ins = ins.push(chunk);
            outs = outs.push(produced);
            assert(vec_views(outs).drop_last() =~= vec_views(old_outs));
            assert(vec_views(outs).last() == produced@);
        }
        k = k + 1;
    }
    assert(chunk_outputs(process, input@, from_rate, to_rate, fill, ins, outs));
    Ok(out)
}

proof fn lemma_step_fits(n: nat, from: nat, to: nat, k: int)
    requires
        n <= usize::MAX,
        chunk_size_for(from, to) <= u32::MAX,
        from > 0,
        to > 0,
        0 <= k < resample_steps(n, from, to).len(),
    ensures
        ({
            let s = resample_steps(n, from, to)[k];
            let c = chunk_size_for(from, to);
            &&& s.start + s.len <= n
            &&& s.len <= c
            &&& s.start == k * c
        }),
{
    let c = chunk_size_for(from, to);
    lemma_full_chunks_fit(n, c);
    lemma_chunks_covering(n, c);
    if k < n / c {
        lemma_mul_le(k as nat + 1, n / c, c);
        assert((k + 1) * c == k * c + c) by (nonlinear_arith);
    } else {
        assert(k == n / c);
    }
    lemma_mul_le(k as nat, n / c, c);
    assert(k * c <= n);
}

/// Identifies a resampler: the two rates and the input chunk size.
#[derive(Clone, Copy, Debug, PartialEq, Eq, Structural)]
pub struct ResamplerKey {
    pub from_rate: u32,
    pub to_rate: u32,
    pub chunk_size: usize,
}

/// Resamplers kept for reuse, one per key; entries are never removed and
/// their keys never change.
pub struct ResamplerCache<R> {
    entries: Vec<(ResamplerKey, R)>,
}

impl<R> ResamplerCache<R> {
    /// The cached entries in insertion order.
    pub closed spec fn entries(&self) -> Seq<(ResamplerKey, R)> {
        self.entries@
    }

    /// Keys are unique.
    pub open spec fn wf(&self) -> bool {
        forall|i: int, j: int|
            0 <= i < j < self.entries().len() ==> #[trigger] self.entries()[i].0
                != #[trigger] self.entries()[j].0
    }

    /// Whether some entry has the key `key`.
    pub open spec fn holds(&self, key: ResamplerKey) -> bool {
        exists|i: int| 0 <= i < self.entries().len() && #[trigger] self.entries()[i].0 == key
    }

    /// An empty cache.
    pub fn new() -> (r: Self)
        ensures
            r.wf(),
            r.entries() == Seq::<(ResamplerKey, R)>::empty(),
    {
        ResamplerCache { entries: Vec::new() }
    }

    /// Number of cached resamplers.
    pub fn len(&self) -> (r: usize)
        ensures
            r == self.entries().len(),
    {
        self.entries.len()
    }

    /// The position of the entry with key `key`, if there is one.
    pub fn find(&self, key: ResamplerKey) -> (r: Option<usize>)
        ensures
            match r {
                Some(i) => i < self.entries().len() && self.entries()[i as int].0 == key,
                None => !self.holds(key),
            },
    {
        let mut i: usize = 0;
        while i < self.entries.len()
            invariant
                i <= self.entries@.len(),
                forall|j: int| 0 <= j < i ==> #[trigger] self.entries@[j].0 != key,
            decreases self.entries@.len() - i,
        {
            if self.entries[i].0 == key {
                return Some(i);
            }
            i = i + 1;
        }
        None
    }

    /// The resampler at position `i`.
    pub fn get(&self, i: usize) -> (r: &R)
        requires
            i < self.entries().len(),
        ensures
            *r == self.entries()[i as int].1,
    {
        &self.entries[i].1
    }

    /// The position of the resampler for `key`; when none is cached, `make`
    /// builds one, which is added. A failure of `make` leaves the cache as it was.
    pub fn get_or_insert_with<E, F>(&mut self, key: ResamplerKey, make: F) -> (r: Result<usize, E>) where
        F: FnOnce() -> Result<R, E>,

        requires
            old(self).wf(),
            call_requires(make, ()),
        ensures
            final(self).wf(),
            old(self).holds(key) ==> final(self).entries() == old(self).entries() && (r matches Ok(
                i,
            ) && i < old(self).entries().len() && old(self).entries()[i as int].0 == key),
            !old(self).holds(key) ==> match r {
                Ok(i) => exists|v: R|
                    call_ensures(make, (), Ok::<R, E>(v)) && final(self).entries() == old(
                        self,
                    ).entries().push((key, v)) && i == old(self).entries().len(),
                Err(e) => call_ensures(make, (), Err::<R, E>(e)) && final(self).entries() == old(
                    self,
                ).entries(),
            },
    {
        match self.find(key) {
            Some(i) => Ok(i),
            None => {
                match make() {
                    Ok(v) => {
                        let i = self.entries.len();
                        self.entries.push((key, v));
                        assert forall|a: int, b: int|
                            0 <= a < b < self.entries().len() implies #[trigger] self.entries()[a].0
                            != #[trigger] self.entries()[b].0 by {
                            if b == i {
                                assert(self.entries()[a] == old(self).entries()[a]);
                            }
                        }
                        Ok(i)
                    },
                    Err(e) => Err(e),
                }
            },
        }
    }
}

} // verus!
