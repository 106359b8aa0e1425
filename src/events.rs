use vstd::prelude::*;

verus! {

/// A capture started or stopped.
#[derive(Clone, Debug, PartialEq, Eq)]
pub struct RecordingStateChanged {
    pub is_recording: bool,
}

/// The running total of dictated words changed.
#[derive(Clone, Debug, PartialEq, Eq)]
pub struct WordCountUpdated {
    pub count: u32,
}

/// The dictation hotkey was pressed or released.
#[derive(Clone, Debug, PartialEq, Eq)]
pub struct HotkeyPressed {
    pub pressed: bool,
}

/// The function key was pressed or released.
#[derive(Clone, Debug, PartialEq, Eq)]
pub struct FnKeyStateChanged {
    pub is_pressed: bool,
}

} // verus!
