use vstd::prelude::*;

verus! {

/// Whether the function key is held, owned by whoever tracks it.
pub struct FnKeyMonitor {
    pressed: bool,
}

impl View for FnKeyMonitor {
    type V = bool;

    closed spec fn view(&self) -> bool {
        self.pressed
    }
}

impl FnKeyMonitor {
    /// A monitor that starts with the key released.
    pub fn new() -> (r: Self)
        ensures
            !r@,
    {
        FnKeyMonitor { pressed: false }
    }
}

/// Whether the function key is held.
pub fn is_fn_pressed(monitor: &FnKeyMonitor) -> (r: bool)
    ensures
        r == monitor@,
{
    monitor.pressed
}

/// Records whether the function key is held.
pub fn set_fn_pressed(monitor: &mut FnKeyMonitor, pressed: bool)
    ensures
        final(monitor)@ == pressed,
{
    monitor.pressed = pressed;
}

/// Flips the recorded key state and returns the new one.
pub fn toggle_fn_pressed(monitor: &mut FnKeyMonitor) -> (r: bool)
    ensures
        r == !old(monitor)@,
        final(monitor)@ == r,
{
    let current = monitor.pressed;
    monitor.pressed = !current;
    !current
}

} // verus!
