use vstd::prelude::*;

use crate::abi::{PD_BTN_BACK, PD_BTN_DOWN, PD_BTN_LEFT, PD_BTN_OK, PD_BTN_RIGHT, PD_BTN_UP};
use crate::input::{ButtonEvent, ButtonId};

verus! {

/// The `PD_BTN_*` bit of each button.
pub open spec fn spec_button_mask(id: ButtonId) -> u32 {
    match id {
        ButtonId::Up => PD_BTN_UP,
        ButtonId::Down => PD_BTN_DOWN,
        ButtonId::Left => PD_BTN_LEFT,
        ButtonId::Right => PD_BTN_RIGHT,
        ButtonId::Select => PD_BTN_OK,
        ButtonId::Back => PD_BTN_BACK,
    }
}

/// The button an event is about.
pub open spec fn event_button(event: ButtonEvent) -> ButtonId {
    match event {
        ButtonEvent::Press(id) => id,
        ButtonEvent::Release(id) => id,
        ButtonEvent::LongPress(id) => id,
        ButtonEvent::Repeat(id) => id,
    }
}

/// Map a [`ButtonId`] to the corresponding `PD_BTN_*` bitmask bit.
pub fn button_id_to_mask(id: ButtonId) -> (m: u32)
    ensures
        m == spec_button_mask(id),
{
    match id {
        ButtonId::Up => PD_BTN_UP,
        ButtonId::Down => PD_BTN_DOWN,
        ButtonId::Left => PD_BTN_LEFT,
        ButtonId::Right => PD_BTN_RIGHT,
        ButtonId::Select => PD_BTN_OK,
        ButtonId::Back => PD_BTN_BACK,
    }
}

/// Map a [`ButtonEvent`] to the `PD_BTN_*` bitmask of the underlying button.
pub fn button_event_to_mask(event: ButtonEvent) -> (m: u32)
    ensures
        m == spec_button_mask(event_button(event)),
{
    match event {
        ButtonEvent::Press(id) | ButtonEvent::Release(id) | ButtonEvent::LongPress(id)
        | ButtonEvent::Repeat(id) => button_id_to_mask(id),
    }
}

/// Distinct buttons have distinct mask bits, each a single bit.
pub proof fn law_button_masks_distinct(a: ButtonId, b: ButtonId)
    ensures
        a != b ==> spec_button_mask(a) != spec_button_mask(b),
        spec_button_mask(a) == 1 || spec_button_mask(a) == 2 || spec_button_mask(a) == 4
            || spec_button_mask(a) == 8 || spec_button_mask(a) == 16 || spec_button_mask(a) == 32,
{
}

} // verus!
