use vstd::prelude::*;
use crate::input::{AxisId, ButtonId, RawEvent, DEAD_ZONE, quantize, pressed};
use crate::snapshot::{ButtonSet, Snapshot, SnapshotModel, StickAxis, is_level, lemma_without_props, without};

verus! {

/// `s` with `b` added at the end, unless already present.
pub open spec fn with_button(s: Seq<ButtonId>, b: ButtonId) -> Seq<ButtonId> {
    if s.contains(b) {
        s
    } else {
        s.push(b)
    }
}

/// The model of a stick direction together with a button sequence.
pub open spec fn model_of(axis: StickAxis, buttons: Seq<ButtonId>) -> SnapshotModel {
    SnapshotModel { x: axis.x as int, y: axis.y as int, buttons }
}

/// Effect of a button changing to analog value `v`.
///
/// A directional-pad button sets its stick component from this one event:
/// pressed Left / Down give -1, pressed Right / Up give 1, released gives 0.
/// Any other button is added when pressed and removed when released.
pub open spec fn button_step(m: SnapshotModel, b: ButtonId, v: int) -> SnapshotModel {
    if b.spec_is_dpad() {
        if b == ButtonId::DPadLeft || b == ButtonId::DPadRight {
            SnapshotModel {
                x: if !pressed(v) { 0 } else if b == ButtonId::DPadLeft { -1 } else { 1 },
                ..m
            }
        } else {
            SnapshotModel {
                y: if !pressed(v) { 0 } else if b == ButtonId::DPadDown { -1 } else { 1 },
                ..m
            }
        }
    } else if pressed(v) {
        SnapshotModel { buttons: with_button(m.buttons, b), ..m }
    } else {
        SnapshotModel { buttons: without(m.buttons, b), ..m }
    }
}

/// Effect of an axis changing to analog value `v`.
///
/// Horizontal and vertical stick / pad axes set the matching stick component
/// to the quantized value. An analog trigger above the dead zone adds its
/// virtual trigger-2 button; at or below it, the first of LeftTrigger2 and
/// RightTrigger2 that is held is removed, whichever trigger moved.
pub open spec fn axis_step(m: SnapshotModel, a: AxisId, v: int) -> SnapshotModel {
    if a == AxisId::DPadX || a == AxisId::LeftStickX {
        SnapshotModel { x: quantize(v), ..m }
    } else if a == AxisId::DPadY || a == AxisId::LeftStickY {
        SnapshotModel { y: quantize(v), ..m }
    } else if a == AxisId::LeftZ || a == AxisId::RightZ {
        if pressed(v) {
            let t = if a == AxisId::LeftZ { ButtonId::LeftTrigger2 } else { ButtonId::RightTrigger2 };
            SnapshotModel { buttons: with_button(m.buttons, t), ..m }
        } else if m.buttons.contains(ButtonId::LeftTrigger2) {
            SnapshotModel { buttons: without(m.buttons, ButtonId::LeftTrigger2), ..m }
        } else if m.buttons.contains(ButtonId::RightTrigger2) {
            SnapshotModel { buttons: without(m.buttons, ButtonId::RightTrigger2), ..m }
        } else {
            m
        }
    } else {
        m
    }
}

/// Effect of one raw event on the working snapshot. A disconnect leaves
/// the snapshot alone: the caller resets the state.
pub open spec fn event_step(m: SnapshotModel, e: RawEvent) -> SnapshotModel {
    match e {
        RawEvent::ButtonChanged(b, v) => button_step(m, b, v as int),
        RawEvent::AxisChanged(a, v) => axis_step(m, a, v as int),
        _ => m,
    }
}

/// The quantized level of an analog value.
fn level_of(v: i32) -> (r: i8)
    ensures
        r as int == quantize(v as int),
{
    if v > DEAD_ZONE {
        1
    } else if v < -DEAD_ZONE {
        -1
    } else {
        0
    }
}

/// Applies a button event to the held buttons and the stick direction.
pub fn handle_buttons(buttons: &mut ButtonSet, axis: &mut StickAxis, button: ButtonId, val: i32)
    requires
        old(buttons).wf(),
    ensures
        final(buttons).wf(),
        model_of(*final(axis), final(buttons)@) == button_step(
            model_of(*old(axis), old(buttons)@),
            button,
            val as int,
        ),
{
    let on = val > DEAD_ZONE;
    if button.is_dpad() {
        if button == ButtonId::DPadLeft || button == ButtonId::DPadRight {
            axis.x = if !on {
                0
            } else if button == ButtonId::DPadLeft {
                -1
            } else {
                1
            };
        } else {
            axis.y = if !on {
                0
            } else if button == ButtonId::DPadDown {
                -1
            } else {
                1
            };
        }
    } else if on {
        buttons.insert(button);
    } else {
        buttons.remove(button);
    }
}

/// Applies an axis event to the held buttons and the stick direction.
pub fn handle_axis(buttons: &mut ButtonSet, axis: &mut StickAxis, ax: AxisId, val: i32)
    requires
        old(buttons).wf(),
    ensures
        final(buttons).wf(),
        model_of(*final(axis), final(buttons)@) == axis_step(
            model_of(*old(axis), old(buttons)@),
            ax,
            val as int,
        ),
{
    if ax == AxisId::DPadX || ax == AxisId::LeftStickX {
        axis.x = level_of(val);
    } else if ax == AxisId::DPadY || ax == AxisId::LeftStickY {
        axis.y = level_of(val);
    } else if ax == AxisId::LeftZ || ax == AxisId::RightZ {
        if val > DEAD_ZONE {
            if ax == AxisId::LeftZ {
                buttons.insert(ButtonId::LeftTrigger2);
            } else {
                buttons.insert(ButtonId::RightTrigger2);
            }
        } else if buttons.contains(ButtonId::LeftTrigger2) {
            buttons.remove(ButtonId::LeftTrigger2);
        } else if buttons.contains(ButtonId::RightTrigger2) {
            buttons.remove(ButtonId::RightTrigger2);
        }
    }
}

/// Folds one raw event into the working snapshot; returns whether the event
/// was a disconnect, on which the caller discards all state.
pub fn apply_event(working: &mut Snapshot, event: RawEvent) -> (disconnected: bool)
    requires
        old(working).wf(),
    ensures
        final(working).wf(),
        final(working)@ == event_step(old(working)@, event),
        disconnected == (event == RawEvent::Disconnected),
{
    proof {
        lemma_event_step_wf(working@, event);
    }
    match event {
        RawEvent::ButtonChanged(b, v) => {
            handle_buttons(&mut working.buttons, &mut working.axis, b, v);
            false
        },
        RawEvent::AxisChanged(a, v) => {
            handle_axis(&mut working.buttons, &mut working.axis, a, v);
            false
        },
        RawEvent::Disconnected => true,
        RawEvent::Other => false,
    }
}

/// Normalization keeps a snapshot well formed: no button is held twice and
/// each stick component stays in {-1, 0, 1}, whatever the event.
pub proof fn lemma_event_step_wf(m: SnapshotModel, e: RawEvent)
    requires
        m.wf(),
    ensures
        event_step(m, e).wf(),
{
    match e {
        RawEvent::ButtonChanged(b, v) => lemma_button_step_wf(m, b, v as int),
        RawEvent::AxisChanged(a, v) => lemma_axis_quantized(m, a, v as int),
        _ => {},
    }
}

proof fn lemma_with_button_no_duplicates(s: Seq<ButtonId>, b: ButtonId)
    requires
        s.no_duplicates(),
    ensures
        with_button(s, b).no_duplicates(),
        with_button(s, b).contains(b),
{
    if !s.contains(b) {
        assert forall|i: int, j: int|
            0 <= i < j < s.len() + 1 implies s.push(b)[i] != s.push(b)[j] by {
            if j == s.len() {
                assert(s.contains(s[i]));
            }
        }
        assert(s.push(b)[s.len() as int] == b);
    }
}

proof fn lemma_button_step_wf(m: SnapshotModel, b: ButtonId, v: int)
    requires
        m.wf(),
    ensures
        button_step(m, b, v).wf(),
{
    lemma_with_button_no_duplicates(m.buttons, b);
    lemma_without_props(m.buttons, b);
}

/// An axis event leaves both stick components in {-1, 0, 1} and the
/// held buttons free of duplicates.
pub proof fn lemma_axis_quantized(m: SnapshotModel, a: AxisId, v: int)
    requires
        m.wf(),
    ensures
        is_level(axis_step(m, a, v).x),
        is_level(axis_step(m, a, v).y),
        axis_step(m, a, v).wf(),
{
    lemma_with_button_no_duplicates(m.buttons, ButtonId::LeftTrigger2);
    lemma_with_button_no_duplicates(m.buttons, ButtonId::RightTrigger2);
    lemma_without_props(m.buttons, ButtonId::LeftTrigger2);
    lemma_without_props(m.buttons, ButtonId::RightTrigger2);
}

} // verus!
