use vstd::prelude::*;

use crate::input::ButtonId;

verus! {

/// The first `(center, tolerance, button)` entry whose band `[center - tolerance,
/// center + tolerance]` (saturating) holds `mv`, searching from entry `k`.
pub open spec fn spec_decode_ladder(mv: u16, t: Seq<(u16, u16, ButtonId)>, k: int) -> Option<ButtonId>
    decreases t.len() - k,
{
    if k < 0 || k >= t.len() {
        None
    } else {
        let (center, tolerance, button) = t[k];
        let low = if center >= tolerance {
            center - tolerance
        } else {
            0
        };
        let high = if center + tolerance <= u16::MAX {
            center + tolerance
        } else {
            u16::MAX as int
        };
        if low <= mv <= high {
            Some(button)
        } else {
            spec_decode_ladder(mv, t, k + 1)
        }
    }
}

/// The GPIO1 ladder: Right, Left, Select and Back bands in calibrated millivolts.
pub open spec fn spec_decode_gpio1(mv: u16) -> Option<ButtonId> {
    if mv <= 53 {
        Some(ButtonId::Right)
    } else if 963 <= mv <= 1263 {
        Some(ButtonId::Left)
    } else if 1834 <= mv <= 2134 {
        Some(ButtonId::Select)
    } else if 2406 <= mv <= 2706 {
        Some(ButtonId::Back)
    } else {
        None
    }
}

/// The GPIO2 ladder: Down and Up bands in calibrated millivolts.
pub open spec fn spec_decode_gpio2(mv: u16) -> Option<ButtonId> {
    if mv <= 53 {
        Some(ButtonId::Down)
    } else if 1509 <= mv <= 1809 {
        Some(ButtonId::Up)
    } else {
        None
    }
}

/// GPIO1 4-button resistor ladder in calibrated millivolts.
pub fn decode_gpio1(mv: u16) -> (r: Option<ButtonId>)
    ensures
        r == spec_decode_gpio1(mv),
{
    let thresholds: [(u16, u16, ButtonId); 4] = [
        (3, 50, ButtonId::Right),
        (1113, 150, ButtonId::Left),
        (1984, 150, ButtonId::Select),
        (2556, 150, ButtonId::Back),
    ];
    let r = decode_ladder(mv, &thresholds);
    proof {
        reveal_with_fuel(spec_decode_ladder, 5);
    }
    r
}

/// GPIO2 2-button resistor ladder in calibrated millivolts.
pub fn decode_gpio2(mv: u16) -> (r: Option<ButtonId>)
    ensures
        r == spec_decode_gpio2(mv),
{
    let thresholds: [(u16, u16, ButtonId); 2] = [(3, 50, ButtonId::Down), (1659, 150, ButtonId::Up)];
    let r = decode_ladder(mv, &thresholds);
    proof {
        reveal_with_fuel(spec_decode_ladder, 3);
    }
    r
}

fn decode_ladder(mv: u16, thresholds: &[(u16, u16, ButtonId)]) -> (r: Option<ButtonId>)
    ensures
        r == spec_decode_ladder(mv, thresholds@, 0),
{
    let mut k: usize = 0;
    while k < thresholds.len()
        invariant
            k <= thresholds@.len(),
            spec_decode_ladder(mv, thresholds@, 0) == spec_decode_ladder(mv, thresholds@, k as int),
        decreases thresholds@.len() - k,
    {
        let (center, tolerance, button) = thresholds[k];
        let low = center.saturating_sub(tolerance);
        let high = center.saturating_add(tolerance);
        if mv >= low && mv <= high {
            return Some(button);
        }
        k += 1;
    }
    None
}

} // verus!
