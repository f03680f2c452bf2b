pub mod adc;
pub mod debounce;
pub mod decoder;
pub mod longpress;
pub mod poller;

use vstd::prelude::*;

verus! {

/// One of the six physical buttons on the X4 board.
#[derive(Debug, Clone, Copy, PartialEq, Eq, Structural)]
pub enum ButtonId {
    Up,
    Down,
    Left,
    Right,
    Select,
    Back,
}

/// A resolved button action emitted by the input pipeline.
#[derive(Debug, Clone, Copy, PartialEq, Eq, Structural)]
pub enum ButtonEvent {
    /// Button became stably pressed.
    Press(ButtonId),
    /// Button was released.
    Release(ButtonId),
    /// Button held for at least `threshold_ticks` polling ticks.
    LongPress(ButtonId),
    /// Button repeat after long-press.
    Repeat(ButtonId),
}

/// `a == b` on optional buttons.
pub fn same_button(a: Option<ButtonId>, b: Option<ButtonId>) -> (r: bool)
    ensures
        r == (a == b),
{
    match (a, b) {
        (None, None) => true,
        (Some(x), Some(y)) => x == y,
        _ => false,
    }
}

} // verus!
