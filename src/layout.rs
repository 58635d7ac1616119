use vstd::prelude::*;
use crate::history::HistoryBuffer;
use crate::input::ButtonId;
use crate::snapshot::{ButtonSet, StickAxis};

verus! {

/// Number of button slots in the on-screen grid.
pub const SLOT_COUNT: usize = 8;

/// Radius of a drawn button, in pixels.
pub const BUTTON_RADIUS: i32 = 56;

/// Distance between neighbouring button centres, in pixels.
pub const BUTTON_SPACING: i32 = 120;

/// Left edge of the button grid, in pixels.
pub const GRID_LEFT: i32 = 336;

/// Top edge of the button grid, in pixels.
pub const GRID_TOP: i32 = 67;

/// Distance the drawn stick travels from its centre per direction level, in pixels.
pub const STICK_TRAVEL: i32 = 90;

/// The button shown in each grid slot, column by column.
pub open spec fn spec_slot_button(i: int) -> ButtonId {
    if i == 0 {
        ButtonId::West
    } else if i == 1 {
        ButtonId::South
    } else if i == 2 {
        ButtonId::North
    } else if i == 3 {
        ButtonId::East
    } else if i == 4 {
        ButtonId::RightTrigger
    } else if i == 5 {
        ButtonId::RightTrigger2
    } else if i == 6 {
        ButtonId::LeftTrigger
    } else {
        ButtonId::LeftTrigger2
    }
}

/// The button shown in grid slot `i`.
pub fn slot_button(i: usize) -> (r: ButtonId)
    requires
        i < SLOT_COUNT,
    ensures
        r == spec_slot_button(i as int),
{
    if i == 0 {
        ButtonId::West
    } else if i == 1 {
        ButtonId::South
    } else if i == 2 {
        ButtonId::North
    } else if i == 3 {
        ButtonId::East
    } else if i == 4 {
        ButtonId::RightTrigger
    } else if i == 5 {
        ButtonId::RightTrigger2
    } else if i == 6 {
        ButtonId::LeftTrigger
    } else {
        ButtonId::LeftTrigger2
    }
}

/// For each grid slot, whether its button is held.
pub fn lit_slots(buttons: &ButtonSet) -> (r: Vec<bool>)
    ensures
        r@.len() == SLOT_COUNT,
        forall|i: int| 0 <= i < SLOT_COUNT ==> r@[i] == buttons@.contains(spec_slot_button(i)),
{
    let mut r: Vec<bool> = Vec::new();
    let mut i: usize = 0;
    while i < SLOT_COUNT
        invariant
            i <= SLOT_COUNT,
            r@.len() == i,
            forall|j: int| 0 <= j < i ==> r@[j] == buttons@.contains(spec_slot_button(j)),
        decreases SLOT_COUNT - i,
    {
        r.push(buttons.contains(slot_button(i)));
        i = i + 1;
    }
    r
}

/// Pixel centre of grid slot `i`: two rows, slots in pairs per column, the
/// first column lowered by one radius.
pub fn slot_center(i: usize) -> (r: (i32, i32))
    requires
        i < SLOT_COUNT,
    ensures
        r.0 == GRID_LEFT + BUTTON_SPACING * (i as int / 2 + 1),
        r.1 == GRID_TOP + BUTTON_SPACING * (i as int % 2 + 1) + if i < 2 {
            BUTTON_RADIUS as int
        } else {
            0
        },
{
    let col = (i / 2 + 1) as i32;
    let row = (i % 2 + 1) as i32;
    let drop = if i < 2 { BUTTON_RADIUS } else { 0 };
    (GRID_LEFT + BUTTON_SPACING * col, GRID_TOP + BUTTON_SPACING * row + drop)
}

/// Pixel offset of the drawn stick from its centre; screen y grows downwards.
pub fn stick_offset(axis: StickAxis) -> (r: (i32, i32))
    requires
        axis.wf(),
    ensures
        r.0 == STICK_TRAVEL * axis.x,
        r.1 == -STICK_TRAVEL * axis.y,
{
    (STICK_TRAVEL * axis.x as i32, -STICK_TRAVEL * axis.y as i32)
}

/// The stick trail: the offset of each kept snapshot, newest first.
pub fn trail_offsets(history: &HistoryBuffer) -> (r: Vec<(i32, i32)>)
    requires
        history.wf(),
    ensures
        r@.len() == history@.len(),
        forall|i: int|
            0 <= i < r@.len() ==> (#[trigger] r@[i]).0 == STICK_TRAVEL * history@[history@.len() - 1 - i].x
                && r@[i].1 == -STICK_TRAVEL * history@[history@.len() - 1 - i].y,
{
    let snaps = history.newest_first();
    let n = snaps.len();
    let mut r: Vec<(i32, i32)> = Vec::new();
    let mut k: usize = 0;
    while k < n
        invariant
            n == snaps@.len(),
            n == history@.len(),
            history.wf(),
            k <= n,
            r@.len() == k,
            forall|i: int| 0 <= i < n ==> (#[trigger] snaps@[i])@ == history@[n - 1 - i],
            forall|i: int|
                0 <= i < k ==> (#[trigger] r@[i]).0 == STICK_TRAVEL * history@[n - 1 - i].x
                    && r@[i].1 == -STICK_TRAVEL * history@[n - 1 - i].y,
        decreases n - k,
    {
        proof {
            assert(history@[n - 1 - k as int].wf());
        }
        r.push(stick_offset(snaps[k].axis));
        k = k + 1;
    }
    r
}

} // verus!
