//! The camera's reaction to pointer input.
//!
//! The camera has a pan offset and a zoom scale.  Dragging with the pan
//! button held shifts the offset; a notch of the scroll wheel multiplies or
//! divides the scale.  This module decides, for each input event, what is to
//! be done to the view.  Gains are whole percentages, so that the decision
//! is exact; the view itself is kept by whoever draws it.

use vstd::prelude::*;
use crate::single::{encodes, lemma_unit_encodings, MINUS_ONE, ONE};

verus! {

/// How far the view moves for a pointer motion of one unit, and by how much
/// one notch of a line-stepped wheel zooms, in percent.
pub const MOUSE_SENSITIVITY: u32 = 150;

/// By how much one notch of a pixel-precise wheel zooms, in percent.
pub const PIXEL_ZOOM: u32 = 125;

/// A scroll amount of one notch up: the encoding of `1.0`.
pub const NOTCH_UP: u32 = ONE;

/// A scroll amount of one notch down: the encoding of `-1.0`.
pub const NOTCH_DOWN: u32 = MINUS_ONE;

/// The step in which a scroll wheel reports.
#[derive(Clone, Copy, Debug, PartialEq, Eq, Structural)]
pub enum ScrollUnit {
    /// Whole lines, as a notched wheel reports.
    Line,
    /// Pixels, as a precise wheel or touch pad reports.
    Pixel,
}

/// What a scroll event does to the zoom scale.
#[derive(Clone, Copy, Debug, PartialEq, Eq, Structural)]
pub enum ZoomChange {
    /// The scale stays as it is.
    Unchanged,
    /// The scale is multiplied by `percent` hundredths: the view zooms out.
    Multiply { percent: u32 },
    /// The scale is divided by `percent` hundredths: the view zooms in.
    Divide { percent: u32 },
}

/// The pan button as one frame sees it.
#[derive(Clone, Copy, Debug, PartialEq, Eq, Structural)]
pub struct PanButton {
    /// The button is down.
    pub pressed: bool,
    /// The button went down in this very frame.
    pub just_pressed: bool,
}

/// What a pointer motion does to the pan offset.
#[derive(Clone, Copy, Debug, PartialEq, Eq, Structural)]
pub enum PanChange {
    /// The offset stays as it is.
    Unchanged,
    /// The offset moves by `x_percent` hundredths of the motion along x and
    /// by `y_percent` hundredths of the motion along y.
    Shift { x_percent: i32, y_percent: i32 },
}

/// The zoom gain of one notch of a wheel that reports in `unit`.
pub open spec fn zoom_gain(unit: ScrollUnit) -> u32 {
    match unit {
        ScrollUnit::Line => MOUSE_SENSITIVITY,
        ScrollUnit::Pixel => PIXEL_ZOOM,
    }
}

/// What a scroll of `amount`, given in its single-precision encoding, does
/// to the zoom scale: one notch down zooms out, one notch up zooms in, and
/// every other amount is passed over.
pub open spec fn zoom_change(unit: ScrollUnit, amount: u32) -> ZoomChange {
    if amount == NOTCH_DOWN {
        ZoomChange::Multiply { percent: zoom_gain(unit) }
    } else if amount == NOTCH_UP {
        ZoomChange::Divide { percent: zoom_gain(unit) }
    } else {
        ZoomChange::Unchanged
    }
}

/// What a pointer motion does to the pan offset while the pan button is as
/// `button` says: the view follows the drag unless the button is up or has
/// only just gone down.
pub open spec fn pan_change(button: PanButton) -> PanChange {
    if button.pressed && !button.just_pressed {
        PanChange::Shift {
            x_percent: (-(MOUSE_SENSITIVITY as int)) as i32,
            y_percent: MOUSE_SENSITIVITY as i32,
        }
    } else {
        PanChange::Unchanged
    }
}

/// A zoom scale after `change`, as an exact fraction: numerator first, then
/// denominator.
pub open spec fn zoomed(scale: (int, int), change: ZoomChange) -> (int, int) {
    match change {
        ZoomChange::Unchanged => scale,
        ZoomChange::Multiply { percent } => (scale.0 * percent, scale.1 * 100),
        ZoomChange::Divide { percent } => (scale.0 * 100, scale.1 * percent),
    }
}

/// Two fractions with positive denominators stand for the same number.
pub open spec fn same_fraction(a: (int, int), b: (int, int)) -> bool {
    a.0 * b.1 == b.0 * a.1
}

/// A pan offset, in hundredths of the unit in which motion is measured,
/// after `change` has been applied to a pointer motion of `motion`.
pub open spec fn shifted(offset: (int, int), change: PanChange, motion: (int, int)) -> (
    int,
    int,
) {
    match change {
        PanChange::Unchanged => offset,
        PanChange::Shift { x_percent, y_percent } => (
            offset.0 + x_percent * motion.0,
            offset.1 + y_percent * motion.1,
        ),
    }
}

/// A pan offset after `events` pointer motions of `motion` each, all seen
/// with the pan button as `button` says.
pub open spec fn dragged(
    offset: (int, int),
    button: PanButton,
    motion: (int, int),
    events: nat,
) -> (int, int)
    decreases events,
{
    if events == 0 {
        offset
    } else {
        shifted(dragged(offset, button, motion, (events - 1) as nat), pan_change(button), motion)
    }
}

/// Decides what a scroll event does to the zoom scale.
pub fn zoom_control(unit: ScrollUnit, amount: u32) -> (change: ZoomChange)
    ensures
        change == zoom_change(unit, amount),
{
    let percent: u32 = match unit {
        ScrollUnit::Line => MOUSE_SENSITIVITY,
        ScrollUnit::Pixel => PIXEL_ZOOM,
    };
    if amount == NOTCH_DOWN {
        ZoomChange::Multiply { percent }
    } else if amount == NOTCH_UP {
        ZoomChange::Divide { percent }
    } else {
        ZoomChange::Unchanged
    }
}

/// Decides what a pointer motion does to the pan offset.
pub fn handle_camera_pan(button: PanButton) -> (change: PanChange)
    ensures
        change == pan_change(button),
{
    if button.pressed && !button.just_pressed {
        let gain: i32 = MOUSE_SENSITIVITY as i32;
        PanChange::Shift { x_percent: -gain, y_percent: gain }
    } else {
        PanChange::Unchanged
    }
}

/// A scroll event changes the zoom exactly where its amount is the number
/// one or the number minus one; an amount that is any other number, an
/// infinity or a NaN leaves the zoom as it is.
pub proof fn lemma_zoom_takes_single_notches(unit: ScrollUnit, amount: u32)
    ensures
        encodes(amount, -1) <==> zoom_change(unit, amount) == (ZoomChange::Multiply {
            percent: zoom_gain(unit),
        }),
        encodes(amount, 1) <==> zoom_change(unit, amount) == (ZoomChange::Divide {
            percent: zoom_gain(unit),
        }),
        !encodes(amount, 1) && !encodes(amount, -1) <==> zoom_change(unit, amount)
            == ZoomChange::Unchanged,
{
    lemma_unit_encodings(amount);
}

/// One notch up and one notch down of the same wheel undo each other, in
/// either order: the scale comes back to the very number it was, and a
/// positive scale stays positive on the way.
pub proof fn lemma_zoom_round_trip(unit: ScrollUnit, scale: (int, int))
    requires
        scale.0 > 0,
        scale.1 > 0,
    ensures
        same_fraction(
            zoomed(zoomed(scale, zoom_change(unit, NOTCH_UP)), zoom_change(unit, NOTCH_DOWN)),
            scale,
        ),
        same_fraction(
            zoomed(zoomed(scale, zoom_change(unit, NOTCH_DOWN)), zoom_change(unit, NOTCH_UP)),
            scale,
        ),
        zoomed(scale, zoom_change(unit, NOTCH_UP)).0 > 0,
        zoomed(scale, zoom_change(unit, NOTCH_UP)).1 > 0,
        zoomed(scale, zoom_change(unit, NOTCH_DOWN)).0 > 0,
        zoomed(scale, zoom_change(unit, NOTCH_DOWN)).1 > 0,
{
    let gain: int = zoom_gain(unit) as int;
    let (n, d) = scale;
    assert((n * 100 * gain) * d == n * (d * gain * 100) && (n * gain * 100) * d == n * (d * 100
        * gain) && n * 100 > 0 && d * gain > 0 && n * gain > 0 && d * 100 > 0)
        by (nonlinear_arith)
        requires
            n > 0,
            d > 0,
            gain > 0,
    ;
}

/// While the pan button is held, and was already held when the frame began,
/// any number of equal pointer motions move the view by that number times
/// the motion scaled by the sensitivity: against the motion along x, with
/// it along y.
pub proof fn lemma_pan_accumulates(
    offset: (int, int),
    button: PanButton,
    motion: (int, int),
    events: nat,
)
    requires
        button.pressed,
        !button.just_pressed,
    ensures
        dragged(offset, button, motion, events) == (
            offset.0 + events * (-(MOUSE_SENSITIVITY as int) * motion.0),
            offset.1 + events * (MOUSE_SENSITIVITY * motion.1),
        ),
    decreases events,
{
    let gx: int = -(MOUSE_SENSITIVITY as int) * motion.0;
    let gy: int = MOUSE_SENSITIVITY * motion.1;
    if events > 0 {
        lemma_pan_accumulates(offset, button, motion, (events - 1) as nat);
        assert(events * gx == (events - 1) * gx + gx && events * gy == (events - 1) * gy + gy)
            by (nonlinear_arith);
    } else {
        assert(events * gx == 0 && events * gy == 0) by (nonlinear_arith)
            requires
                events == 0,
        ;
    }
}

/// With the pan button up, or only just pressed, pointer motion leaves the
/// view where it is.
pub proof fn lemma_pan_needs_held_button(
    offset: (int, int),
    button: PanButton,
    motion: (int, int),
    events: nat,
)
    requires
        !button.pressed || button.just_pressed,
    ensures
        dragged(offset, button, motion, events) == offset,
    decreases events,
{
    if events > 0 {
        lemma_pan_needs_held_button(offset, button, motion, (events - 1) as nat);
    }
}

} // verus!
