use vstd::prelude::*;

verus! {

/// The rate a session reports before any capture, and the preferred capture rate.
pub const DEFAULT_SAMPLE_RATE: u32 = 16000;

/// An input device as the host enumerates it; its name is its id.
#[derive(Clone, Debug, PartialEq, Eq)]
pub struct AudioDevice {
    pub name: String,
    pub id: String,
    pub is_default: bool,
}

/// Why a capture could not start.
#[derive(Clone, Debug, PartialEq, Eq)]
pub enum CaptureError {
    /// The selected device is no longer enumerated.
    DeviceNotFound,
    /// No device was selected and the host has no default input device.
    NoDefaultDevice,
    /// The device delivers samples in a format that is not handled.
    UnsupportedSampleFormat,
    /// The host refused to enumerate, open or start a stream.
    Stream(String),
}

/// Sample formats a device may report.
#[derive(Clone, Copy, Debug, PartialEq, Eq, Structural)]
pub enum SampleFormat {
    F32,
    I16,
    U16,
    Other,
}

/// Channel count and rate of an input stream.
#[derive(Clone, Copy, Debug, PartialEq, Eq, Structural)]
pub struct StreamSettings {
    pub channels: u16,
    pub sample_rate: u32,
}

/// Which device a capture opens.
#[derive(Clone, Copy, Debug, PartialEq, Eq, Structural)]
pub enum DeviceChoice {
    /// The enumerated device at this position.
    Listed(usize),
    /// The host's default input device.
    HostDefault,
}

/// Devices named `names`, the one named `default_name` marked as default.
pub fn devices_from_names(names: &Vec<String>, default_name: &Option<String>) -> (r: Vec<AudioDevice>)
    ensures
        r@.len() == names@.len(),
        forall|i: int|
            0 <= i < r@.len() ==> {
                let d = #[trigger] r@[i];
                &&& d.name@ == names@[i]@
                &&& d.id@ == names@[i]@
                &&& d.is_default == (default_name matches Some(n) && n@ == names@[i]@)
            },
{
    let mut r: Vec<AudioDevice> = Vec::new();
    let mut i: usize = 0;
    while i < names.len()
        invariant
            i <= names@.len(),
            r@.len() == i,
            forall|j: int|
                0 <= j < i ==> {
                    let d = #[trigger] r@[j];
                    &&& d.name@ == names@[j]@
                    &&& d.id@ == names@[j]@
                    &&& d.is_default == (default_name matches Some(n) && n@ == names@[j]@)
                },
        decreases names@.len() - i,
    {
        let name = &names[i];
        let is_default = match default_name {
            Some(n) => *n == *name,
            None => false,
        };
        r.push(AudioDevice { name: name.clone(), id: name.clone(), is_default });
        i = i + 1;
    }
    r
}

/// Picks the device to open: the selected one when it is enumerated in
/// `available`, else the host default when there is no selection.
pub fn resolve_device(selected: &Option<String>, available: &Vec<String>, has_default: bool) -> (r:
    Result<DeviceChoice, CaptureError>)
    ensures
        selected is Some ==> match r {
            Ok(DeviceChoice::Listed(i)) => i < available@.len() && available@[i as int]@
                == selected.unwrap()@ && forall|j: int|
                0 <= j < i ==> #[trigger] available@[j]@ != selected.unwrap()@,
            Err(CaptureError::DeviceNotFound) => forall|j: int|
                0 <= j < available@.len() ==> #[trigger] available@[j]@ != selected.unwrap()@,
            _ => false,
        },
        selected is None && has_default ==> r == Ok::<DeviceChoice, CaptureError>(
            DeviceChoice::HostDefault,
        ),
        selected is None && !has_default ==> r == Err::<DeviceChoice, CaptureError>(
            CaptureError::NoDefaultDevice,
        ),
{
    match selected {
        Some(id) => {
            let mut i: usize = 0;
            while i < available.len()
                invariant
                    selected is Some,
                    selected.unwrap()@ == id@,
                    i <= available@.len(),
                    forall|j: int| 0 <= j < i ==> #[trigger] available@[j]@ != id@,
                decreases available@.len() - i,
            {
                let same = available[i] == *id;
                assert(same == (available@[i as int]@ == id@));
                if same {
                    return Ok(DeviceChoice::Listed(i));
                }
                i = i + 1;
            }
            Err(CaptureError::DeviceNotFound)
        },
        None => if has_default {
            Ok(DeviceChoice::HostDefault)
        } else {
            Err(CaptureError::NoDefaultDevice)
        },
    }
}

/// Accepts the sample formats that can be converted to mono samples.
pub fn check_sample_format(format: SampleFormat) -> (r: Result<SampleFormat, CaptureError>)
    ensures
        format == SampleFormat::Other ==> r == Err::<SampleFormat, CaptureError>(
            CaptureError::UnsupportedSampleFormat,
        ),
        format != SampleFormat::Other ==> r == Ok::<SampleFormat, CaptureError>(format),
{
    match format {
        SampleFormat::Other => Err(CaptureError::UnsupportedSampleFormat),
        _ => Ok(format),
    }
}

/// The configuration tried first: mono at 16 kHz.
pub fn preferred_settings() -> (r: StreamSettings)
    ensures
        r == (StreamSettings { channels: 1, sample_rate: DEFAULT_SAMPLE_RATE }),
{
    StreamSettings { channels: 1, sample_rate: DEFAULT_SAMPLE_RATE }
}

/// The configuration a capture uses: the preferred one when the device
/// accepted it, else the device's own default.
pub fn negotiate_settings(preferred_accepted: bool, device_default: StreamSettings) -> (r:
    StreamSettings)
    ensures
        preferred_accepted ==> r == (StreamSettings { channels: 1, sample_rate: DEFAULT_SAMPLE_RATE }),
        !preferred_accepted ==> r == device_default,
{
    if preferred_accepted {
        preferred_settings()
    } else {
        device_default
    }
}

/// What a session is, as plain values.
pub struct SessionView<S> {
    pub device: Option<Seq<char>>,
    pub active: bool,
    pub starting: bool,
    pub samples: Seq<S>,
    pub sample_rate: u32,
}

/// The session after a `start` request, and whether a stream must be opened.
/// A session that is active, or whose start is under way, stays as it is.
pub open spec fn start_step<S>(s: SessionView<S>) -> (SessionView<S>, bool) {
    if s.active || s.starting {
        (s, false)
    } else {
        (SessionView { samples: Seq::empty(), starting: true, ..s }, true)
    }
}

/// The session once its stream runs at `rate`.
pub open spec fn activate<S>(s: SessionView<S>, rate: u32) -> SessionView<S> {
    SessionView { active: true, starting: false, sample_rate: rate, ..s }
}

/// The session after its stream could not be opened or started.
pub open spec fn abandon<S>(s: SessionView<S>) -> SessionView<S> {
    SessionView { starting: false, ..s }
}

/// The session after a `stop` request, and what it hands back.
pub open spec fn stop_step<S>(s: SessionView<S>) -> (SessionView<S>, (Seq<S>, u32)) {
    if s.active {
        (SessionView { active: false, samples: Seq::empty(), ..s }, (s.samples, s.sample_rate))
    } else {
        (s, (Seq::empty(), DEFAULT_SAMPLE_RATE))
    }
}

/// One capture session: the selected device, whether a stream is active or
/// being opened, the mono samples captured by it and the rate they were
/// captured at.
pub struct CaptureSession<S> {
    current_device: Option<String>,
    is_recording: bool,
    is_starting: bool,
    buffer: Vec<S>,
    sample_rate: u32,
}

impl<S: Copy> View for CaptureSession<S> {
    type V = SessionView<S>;

    closed spec fn view(&self) -> SessionView<S> {
        SessionView {
            device: match self.current_device {
                Some(d) => Some(d@),
                None => None,
            },
            active: self.is_recording,
            starting: self.is_starting,
            samples: self.buffer@,
            sample_rate: self.sample_rate,
        }
    }
}

impl<S: Copy> CaptureSession<S> {
    /// An idle session with no device selected.
    pub fn new() -> (r: Self)
        ensures
            r@ == (SessionView::<S> {
                device: None,
                active: false,
                starting: false,
                samples: Seq::empty(),
                sample_rate: DEFAULT_SAMPLE_RATE,
            }),
    {
        CaptureSession {
            current_device: None,
            is_recording: false,
            is_starting: false,
            buffer: Vec::new(),
            sample_rate: DEFAULT_SAMPLE_RATE,
        }
    }

    /// Records the device the next capture opens; a running capture keeps its own.
    pub fn set_current_device(&mut self, device_id: String)
        ensures
            final(self)@ == (SessionView { device: Some(device_id@), ..old(self)@ }),
    {
        self.current_device = Some(device_id);
    }

    /// The selected device, if any.
    pub fn get_current_device(&self) -> (r: Option<String>)
        ensures
            match r {
                Some(d) => self@.device == Some(d@),
                None => self@.device is None,
            },
    {
        match &self.current_device {
            Some(d) => Some(d.clone()),
            None => None,
        }
    }

    /// Whether a stream is active.
    pub fn is_recording(&self) -> (r: bool)
        ensures
            r == self@.active,
    {
        self.is_recording
    }

    /// A request to start. While a stream is active or being opened it
    /// changes nothing and returns `false`: no second stream is opened.
    /// Otherwise it clears the samples, reserves the session and returns
    /// `true`: the caller opens a stream.
    pub fn begin_start(&mut self) -> (r: bool)
        ensures
            (final(self)@, r) == start_step(old(self)@),
    {
        if self.is_recording || self.is_starting {
            return false;
        }
        self.is_starting = true;
        self.buffer.clear();
        proof {
            assert(self.buffer@ =~= Seq::<S>::empty());
        }
        true
    }

    /// Marks the session active once its stream runs at `sample_rate`.
    pub fn mark_recording(&mut self, sample_rate: u32)
        ensures
            final(self)@ == activate(old(self)@, sample_rate),
    {
        self.is_recording = true;
        self.is_starting = false;
        self.sample_rate = sample_rate;
    }

    /// Releases the reservation of a start whose stream could not be opened
    /// or started; the session stays idle.
    pub fn abandon_start(&mut self)
        ensures
            final(self)@ == abandon(old(self)@),
    {
        self.is_starting = false;
    }

    /// Appends captured mono samples; samples that arrive while no stream is
    /// active are dropped.
    pub fn append_samples(&mut self, samples: &[S])
        ensures
            old(self)@.active ==> final(self)@ == (SessionView {
                samples: old(self)@.samples + samples@,
                ..old(self)@
            }),
            !old(self)@.active ==> final(self)@ == old(self)@,
    {
        if !self.is_recording {
            return;
        }
        let ghost start = self.buffer@;
        let mut i: usize = 0;
        while i < samples.len()
            invariant
                i <= samples@.len(),
                self.buffer@ == start + samples@.take(i as int),
                self.is_recording == old(self).is_recording,
                self.is_starting == old(self).is_starting,
                self.current_device == old(self).current_device,
                self.sample_rate == old(self).sample_rate,
            decreases samples@.len() - i,
        {
            self.buffer.push(samples[i]);
            assert(samples@.take(i + 1) =~= samples@.take(i as int).push(samples@[i as int]));
            i = i + 1;
        }
        assert(samples@.take(samples@.len() as int) =~= samples@);
    }

    /// Number of samples captured so far.
    pub fn sample_count(&self) -> (r: usize)
        ensures
            r == self@.samples.len(),
    {
        self.buffer.len()
    }

    /// Ends the capture: the session becomes idle and hands back its samples
    /// and the rate they were captured at. While idle it hands back no samples
    /// and the default rate.
    pub fn stop_recording(&mut self) -> (r: (Vec<S>, u32))
        ensures
            (final(self)@, (r.0@, r.1)) == stop_step(old(self)@),
    {
        if !self.is_recording {
            return (Vec::new(), DEFAULT_SAMPLE_RATE);
        }
        self.is_recording = false;
        let mut samples: Vec<S> = Vec::new();
        core::mem::swap(&mut samples, &mut self.buffer);
        (samples, self.sample_rate)
    }
}

/// Starting twice without a stop opens exactly one stream: a second request,
/// made while the first stream is being opened or once it runs, changes
/// nothing and asks for no stream.
pub proof fn lemma_start_is_idempotent<S>(s: SessionView<S>, rate: u32)
    ensures
        start_step(s).1 ==> {
            let pending = start_step(s).0;
            let running = activate(pending, rate);
            &&& !start_step(pending).1
            &&& start_step(pending).0 == pending
            &&& !start_step(running).1
            &&& start_step(running).0 == running
        },
        s.active ==> !start_step(s).1 && start_step(s).0 == s,
{
}

/// A stop before any start hands back no samples and the default rate.
pub proof fn lemma_stop_when_idle<S>(s: SessionView<S>)
    requires
        !s.active,
    ensures
        stop_step(s).1 == (Seq::<S>::empty(), DEFAULT_SAMPLE_RATE),
        stop_step(s).0 == s,
{
}

/// A capture cycle hands back exactly the samples appended while it ran.
pub proof fn lemma_capture_cycle<S>(s: SessionView<S>, rate: u32, batches: Seq<Seq<S>>)
    requires
        !s.active,
        !s.starting,
    ensures
        ({
            let running = activate(start_step(s).0, rate);
            let filled = SessionView { samples: running.samples + batches.flatten(), ..running };
            stop_step(filled).1 == (batches.flatten(), rate)
        }),
{
    assert(Seq::<S>::empty() + batches.flatten() =~= batches.flatten());
}

} // verus!
