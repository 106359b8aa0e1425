use vstd::prelude::*;
use vstd::string::*;

verus! {

/// Completion report of a model download.
#[derive(Clone, Debug, PartialEq, Eq)]
pub struct ModelDownloadComplete {
    pub success: bool,
    pub error: Option<String>,
}

/// Why a download failed. The texts are the transport's or the file system's own.
#[derive(Clone, Debug, PartialEq, Eq)]
pub enum DownloadFailure {
    /// The request could not be sent or was answered with an error.
    Request(String),
    /// The response does not state its content length.
    MissingContentLength,
    /// The temporary file could not be created.
    CreateFile(String),
    /// Receiving a chunk failed.
    Transfer(String),
    /// Writing a chunk to the temporary file failed.
    Write(String),
    /// Flushing the temporary file or renaming it to the final name failed.
    Install(String),
}

/// What the caller observed since the last step.
#[derive(Clone, Debug, PartialEq, Eq)]
pub enum DownloadEvent {
    /// Whether the model file is already present under its final name.
    TargetChecked(bool),
    /// The response arrived, with its content length when stated.
    Responded(Option<u64>),
    RequestFailed(String),
    TempCreated,
    TempCreateFailed(String),
    /// A chunk of this many bytes was received and written to the temporary file.
    ChunkWritten(u64),
    TransferFailed(String),
    WriteFailed(String),
    /// The response body has no more chunks.
    StreamEnded,
    /// The temporary file was flushed and renamed to the final name.
    Installed,
    InstallFailed(String),
}

/// What the caller does next.
#[derive(Clone, Debug, PartialEq, Eq)]
pub enum DownloadAction {
    /// Issue the GET request for the model's URL.
    SendRequest,
    /// Create the temporary sibling file.
    CreateTemp,
    /// Receive the next chunk and write it to the temporary file.
    Receive,
    /// Report progress: bytes written so far, out of the content length.
    Progress { downloaded: u64, total: u64 },
    /// Delete the temporary file.
    RemoveTemp,
    /// Flush and close the temporary file, then rename it to the final name.
    Install,
    /// Report success and return it.
    Succeed,
    /// Report this failure and return it.
    Fail(DownloadFailure),
}

#[derive(Clone, Copy, Debug, PartialEq, Eq, Structural)]
pub enum DownloadPhase {
    Checking,
    Requesting,
    Creating,
    Transferring,
    Installing,
    Done,
}

/// Where a download stands: its phase, the bytes written and the content length.
#[derive(Clone, Copy, Debug, PartialEq, Eq, Structural)]
pub struct DownloadState {
    pub phase: DownloadPhase,
    pub downloaded: u64,
    pub total: u64,
}

pub open spec fn initial_state() -> DownloadState {
    DownloadState { phase: DownloadPhase::Checking, downloaded: 0, total: 0 }
}

pub open spec fn finished(s: DownloadState) -> DownloadState {
    DownloadState { phase: DownloadPhase::Done, ..s }
}

pub open spec fn saturating_add(a: u64, b: u64) -> u64 {
    if a + b > u64::MAX {
        u64::MAX
    } else {
        (a + b) as u64
    }
}

/// One step of the download protocol: the next state and the actions to take.
/// An event that does not belong to the current phase changes nothing.
pub open spec fn next(s: DownloadState, e: DownloadEvent) -> (DownloadState, Seq<DownloadAction>) {
    match (s.phase, e) {
        (DownloadPhase::Checking, DownloadEvent::TargetChecked(true)) => (
            finished(s),
            seq![DownloadAction::Succeed],
        ),
        (DownloadPhase::Checking, DownloadEvent::TargetChecked(false)) => (
            DownloadState { phase: DownloadPhase::Requesting, ..s },
            seq![DownloadAction::SendRequest],
        ),
        (DownloadPhase::Requesting, DownloadEvent::RequestFailed(m)) => (
            finished(s),
            seq![DownloadAction::Fail(DownloadFailure::Request(m))],
        ),
        (DownloadPhase::Requesting, DownloadEvent::Responded(None)) => (
            finished(s),
            seq![DownloadAction::Fail(DownloadFailure::MissingContentLength)],
        ),
        (DownloadPhase::Requesting, DownloadEvent::Responded(Some(n))) => (
            DownloadState { phase: DownloadPhase::Creating, downloaded: 0, total: n },
            seq![DownloadAction::CreateTemp],
        ),
        (DownloadPhase::Creating, DownloadEvent::TempCreated) => (
            DownloadState { phase: DownloadPhase::Transferring, ..s },
            seq![DownloadAction::Receive],
        ),
        (DownloadPhase::Creating, DownloadEvent::TempCreateFailed(m)) => (
            finished(s),
            seq![DownloadAction::Fail(DownloadFailure::CreateFile(m))],
        ),
        (DownloadPhase::Transferring, DownloadEvent::ChunkWritten(n)) => {
            let d = saturating_add(s.downloaded, n);
            (
                DownloadState { downloaded: d, ..s },
                seq![DownloadAction::Progress { downloaded: d, total: s.total }, DownloadAction::Receive],
            )
        },
        (DownloadPhase::Transferring, DownloadEvent::TransferFailed(m)) => (
            finished(s),
            seq![DownloadAction::RemoveTemp, DownloadAction::Fail(DownloadFailure::Transfer(m))],
        ),
        (DownloadPhase::Transferring, DownloadEvent::WriteFailed(m)) => (
            finished(s),
            seq![DownloadAction::RemoveTemp, DownloadAction::Fail(DownloadFailure::Write(m))],
        ),
        (DownloadPhase::Transferring, DownloadEvent::StreamEnded) => (
            DownloadState { phase: DownloadPhase::Installing, ..s },
            seq![DownloadAction::Install],
        ),
        (DownloadPhase::Installing, DownloadEvent::Installed) => (
            finished(s),
            seq![DownloadAction::Succeed],
        ),
        (DownloadPhase::Installing, DownloadEvent::InstallFailed(m)) => (
            finished(s),
            seq![DownloadAction::RemoveTemp, DownloadAction::Fail(DownloadFailure::Install(m))],
        ),
        _ => (s, Seq::empty()),
    }
}

/// The state after `events` from `s`, and every action asked for on the way.
pub open spec fn run(s: DownloadState, events: Seq<DownloadEvent>) -> (DownloadState, Seq<
    DownloadAction,
>)
    decreases events.len(),
{
    if events.len() == 0 {
        (s, Seq::empty())
    } else {
        let (s1, a1) = run(s, events.drop_last());
        let (s2, a2) = next(s1, events.last());
        (s2, a1 + a2)
    }
}

/// A download of one model file, driven by the caller's observations.
pub struct ModelDownload {
    state: DownloadState,
}

impl View for ModelDownload {
    type V = DownloadState;

    closed spec fn view(&self) -> DownloadState {
        self.state
    }
}

impl ModelDownload {
    /// A download that first asks whether the model file is present.
    pub fn new() -> (r: Self)
        ensures
            r@ == initial_state(),
    {
        ModelDownload {
            state: DownloadState { phase: DownloadPhase::Checking, downloaded: 0, total: 0 },
        }
    }

    /// The current state.
    pub fn state(&self) -> (r: DownloadState)
        ensures
            r == self@,
    {
        self.state
    }

    /// Whether the download has succeeded or failed.
    pub fn is_done(&self) -> (r: bool)
        ensures
            r == (self@.phase == DownloadPhase::Done),
    {
        self.state.phase == DownloadPhase::Done
    }

    /// Takes in what the caller observed and returns what it does next.
    pub fn step(&mut self, event: DownloadEvent) -> (r: Vec<DownloadAction>)
        ensures
            (final(self)@, r@) == next(old(self)@, event),
    {
        let s = self.state;
        match (s.phase, event) {
            (DownloadPhase::Checking, DownloadEvent::TargetChecked(true)) => {
                self.state = DownloadState { phase: DownloadPhase::Done, ..s };
                vec![DownloadAction::Succeed]
            },
            (DownloadPhase::Checking, DownloadEvent::TargetChecked(false)) => {
                self.state = DownloadState { phase: DownloadPhase::Requesting, ..s };
                vec![DownloadAction::SendRequest]
            },
            (DownloadPhase::Requesting, DownloadEvent::RequestFailed(m)) => {
                self.state = DownloadState { phase: DownloadPhase::Done, ..s };
                vec![DownloadAction::Fail(DownloadFailure::Request(m))]
            },
            (DownloadPhase::Requesting, DownloadEvent::Responded(None)) => {
                self.state = DownloadState { phase: DownloadPhase::Done, ..s };
                vec![DownloadAction::Fail(DownloadFailure::MissingContentLength)]
            },
            (DownloadPhase::Requesting, DownloadEvent::Responded(Some(n))) => {
                self.state = DownloadState { phase: DownloadPhase::Creating, downloaded: 0, total: n };
                vec![DownloadAction::CreateTemp]
            },
            (DownloadPhase::Creating, DownloadEvent::TempCreated) => {
                self.state = DownloadState { phase: DownloadPhase::Transferring, ..s };
                vec![DownloadAction::Receive]
            },
            (DownloadPhase::Creating, DownloadEvent::TempCreateFailed(m)) => {
                self.state = DownloadState { phase: DownloadPhase::Done, ..s };
                vec![DownloadAction::Fail(DownloadFailure::CreateFile(m))]
            },
            (DownloadPhase::Transferring, DownloadEvent::ChunkWritten(n)) => {
                let d = s.downloaded.saturating_add(n);
                self.state = DownloadState { downloaded: d, ..s };
                vec![DownloadAction::Progress { downloaded: d, total: s.total }, DownloadAction::Receive]
            },
            (DownloadPhase::Transferring, DownloadEvent::TransferFailed(m)) => {
                self.state = DownloadState { phase: DownloadPhase::Done, ..s };
                vec![DownloadAction::RemoveTemp, DownloadAction::Fail(DownloadFailure::Transfer(m))]
            },
            (DownloadPhase::Transferring, DownloadEvent::WriteFailed(m)) => {
                self.state = DownloadState { phase: DownloadPhase::Done, ..s };
                vec![DownloadAction::RemoveTemp, DownloadAction::Fail(DownloadFailure::Write(m))]
            },
            (DownloadPhase::Transferring, DownloadEvent::StreamEnded) => {
                self.state = DownloadState { phase: DownloadPhase::Installing, ..s };
                vec![DownloadAction::Install]
            },
            (DownloadPhase::Installing, DownloadEvent::Installed) => {
                self.state = DownloadState { phase: DownloadPhase::Done, ..s };
                vec![DownloadAction::Succeed]
            },
            (DownloadPhase::Installing, DownloadEvent::InstallFailed(m)) => {
                self.state = DownloadState { phase: DownloadPhase::Done, ..s };
                vec![DownloadAction::RemoveTemp, DownloadAction::Fail(DownloadFailure::Install(m))]
            },
            _ => Vec::new(),
        }
    }
}

proof fn lemma_contains_concat(a: Seq<DownloadAction>, b: Seq<DownloadAction>, x: DownloadAction)
    ensures
        (a + b).contains(x) <==> (a.contains(x) || b.contains(x)),
{
    if (a + b).contains(x) {
        let i = choose|i: int| 0 <= i < (a + b).len() && (a + b)[i] == x;
        if i >= a.len() {
            assert(b[i - a.len()] == x);
        }
    }
    if a.contains(x) {
        let i = choose|i: int| 0 <= i < a.len() && a[i] == x;
        assert((a + b)[i] == x);
    }
    if b.contains(x) {
        let i = choose|i: int| 0 <= i < b.len() && b[i] == x;
        assert((a + b)[a.len() + i] == x);
    }
}

proof fn lemma_run_done(s: DownloadState, events: Seq<DownloadEvent>)
    requires
        s.phase == DownloadPhase::Done,
    ensures
        run(s, events) == (s, Seq::<DownloadAction>::empty()),
    decreases events.len(),
{
    if events.len() > 0 {
        lemma_run_done(s, events.drop_last());
        assert(Seq::<DownloadAction>::empty() + Seq::<DownloadAction>::empty() =~= Seq::<
            DownloadAction,
        >::empty());
    }
}

proof fn lemma_run_append(s: DownloadState, a: Seq<DownloadEvent>, b: Seq<DownloadEvent>)
    ensures
        run(s, a + b) == (run(run(s, a).0, b).0, run(s, a).1 + run(run(s, a).0, b).1),
    decreases b.len(),
{
    if b.len() == 0 {
        assert(a + b =~= a);
        assert(run(s, a).1 + Seq::<DownloadAction>::empty() =~= run(s, a).1);
    } else {
        lemma_run_append(s, a, b.drop_last());
        assert((a + b).drop_last() =~= a + b.drop_last());
        assert((a + b).last() == b.last());
        let mid = run(s, a);
        let r1 = run(mid.0, b.drop_last());
        let r2 = next(r1.0, b.last());
        assert(mid.1 + r1.1 + r2.1 =~= mid.1 + (r1.1 + r2.1));
    }
}

proof fn lemma_install_only_after_transfer(events: Seq<DownloadEvent>)
    ensures
        run(initial_state(), events).1.contains(DownloadAction::Install) ==> (run(
            initial_state(),
            events,
        ).0.phase == DownloadPhase::Installing || run(initial_state(), events).0.phase
            == DownloadPhase::Done),
    decreases events.len(),
{
    if events.len() > 0 {
        let prev = run(initial_state(), events.drop_last());
        lemma_install_only_after_transfer(events.drop_last());
        let step = next(prev.0, events.last());
        lemma_contains_concat(prev.1, step.1, DownloadAction::Install);
        if step.1.contains(DownloadAction::Install) {
            let i = choose|i: int| 0 <= i < step.1.len() && step.1[i] == DownloadAction::Install;
        }
    }
}

/// A model whose file is already present completes at once with success,
/// and no request is sent whatever is observed afterwards.
pub proof fn lemma_present_model_is_not_fetched(events: Seq<DownloadEvent>)
    requires
        events.len() > 0,
        events[0] == DownloadEvent::TargetChecked(true),
    ensures
        run(initial_state(), events).1 == seq![DownloadAction::Succeed],
        run(initial_state(), events).0.phase == DownloadPhase::Done,
        !run(initial_state(), events).1.contains(DownloadAction::SendRequest),
{
    let first = events.take(1);
    let rest = events.skip(1);
    assert(events =~= first + rest);
    assert(first.drop_last() =~= Seq::<DownloadEvent>::empty());
    assert(first.last() == events[0]);
    assert(run(initial_state(), Seq::<DownloadEvent>::empty()) == (
        initial_state(),
        Seq::<DownloadAction>::empty(),
    ));
    assert(run(initial_state(), first).0.phase == DownloadPhase::Done);
    assert(Seq::<DownloadAction>::empty() + seq![DownloadAction::Succeed] =~= seq![
        DownloadAction::Succeed,
    ]);
    lemma_run_append(initial_state(), first, rest);
    lemma_run_done(run(initial_state(), first).0, rest);
    assert(seq![DownloadAction::Succeed] + Seq::<DownloadAction>::empty() =~= seq![
        DownloadAction::Succeed,
    ]);
    assert(seq![DownloadAction::Succeed][0] != DownloadAction::SendRequest);
}

/// A transfer or write failure while receiving ends the download: the
/// temporary file is removed, the failure is reported last, and the file is
/// never installed under its final name, whatever is observed afterwards.
pub proof fn lemma_interrupted_download_installs_nothing(
    before: Seq<DownloadEvent>,
    failure: DownloadEvent,
    after: Seq<DownloadEvent>,
)
    requires
        run(initial_state(), before).0.phase == DownloadPhase::Transferring,
        failure is TransferFailed || failure is WriteFailed,
    ensures
        ({
            let r = run(initial_state(), before.push(failure) + after);
            &&& r.0.phase == DownloadPhase::Done
            &&& !r.1.contains(DownloadAction::Install)
            &&& r.1.contains(DownloadAction::RemoveTemp)
            &&& r.1.last() is Fail
        }),
{
    let s0 = initial_state();
    let pre = run(s0, before);
    lemma_install_only_after_transfer(before);
    assert(before.push(failure).drop_last() =~= before);
    let mid = run(s0, before.push(failure));
    let step = next(pre.0, failure);
    assert(step.1.len() == 2 && step.1[0] == DownloadAction::RemoveTemp && step.1[1] is Fail);
    lemma_run_append(s0, before.push(failure), after);
    lemma_run_done(mid.0, after);
    let all = mid.1 + Seq::<DownloadAction>::empty();
    assert(all =~= mid.1);
    lemma_contains_concat(pre.1, step.1, DownloadAction::Install);
    lemma_contains_concat(pre.1, step.1, DownloadAction::RemoveTemp);
    assert(step.1.contains(DownloadAction::RemoveTemp));
    assert(!step.1.contains(DownloadAction::Install)) by {
        if step.1.contains(DownloadAction::Install) {
            let i = choose|i: int| 0 <= i < step.1.len() && step.1[i] == DownloadAction::Install;
        }
    }
    assert(mid.1.last() == step.1[1]);
}

/// The text that reports a failure.
pub open spec fn failure_text(f: DownloadFailure) -> Seq<char> {
    match f {
        DownloadFailure::Request(m) => "Failed to start download: "@ + m@,
        DownloadFailure::MissingContentLength => "Failed to get content length"@,
        DownloadFailure::CreateFile(m) => "Failed to create file: "@ + m@,
        DownloadFailure::Transfer(m) => "Download failed: "@ + m@,
        DownloadFailure::Write(m) => "Failed to write chunk: "@ + m@,
        DownloadFailure::Install(m) => "Failed to install model file: "@ + m@,
    }
}

impl DownloadFailure {
    /// The text that reports this failure.
    pub fn message(&self) -> (r: String)
        ensures
            r@ == failure_text(*self),
    {
        match self {
            DownloadFailure::Request(m) => String::from_str("Failed to start download: ").concat(
                m.as_str(),
            ),
            DownloadFailure::MissingContentLength => String::from_str(
                "Failed to get content length",
            ),
            DownloadFailure::CreateFile(m) => String::from_str("Failed to create file: ").concat(
                m.as_str(),
            ),
            DownloadFailure::Transfer(m) => String::from_str("Download failed: ").concat(
                m.as_str(),
            ),
            DownloadFailure::Write(m) => String::from_str("Failed to write chunk: ").concat(
                m.as_str(),
            ),
            DownloadFailure::Install(m) => String::from_str(
                "Failed to install model file: ",
            ).concat(m.as_str()),
        }
    }
}

/// The completion report an action calls for: success for `Succeed`, the
/// failure's text for `Fail`, none for the others.
pub fn completion_for(action: &DownloadAction) -> (r: Option<ModelDownloadComplete>)
    ensures
        match action {
            DownloadAction::Succeed => r matches Some(c) && c.success && c.error is None,
            DownloadAction::Fail(f) => r matches Some(c) && !c.success && c.error is Some
                && c.error.unwrap()@ == failure_text(*f),
            _ => r is None,
        },
{
    match action {
        DownloadAction::Succeed => Some(ModelDownloadComplete { success: true, error: None }),
        DownloadAction::Fail(f) => Some(
            ModelDownloadComplete { success: false, error: Some(f.message()) },
        ),
        _ => None,
    }
}

/// The name of the temporary sibling file: the final name followed by `.tmp`.
pub fn temp_file_name(filename: &str) -> (r: String)
    ensures
        r@ == filename@ + ".tmp"@,
{
    filename.to_owned().concat(".tmp")
}

} // verus!
