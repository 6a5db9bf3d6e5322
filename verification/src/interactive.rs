//! Region selection by dragging over the screen: the rectangle a drag
//! describes, and how the selection overlay reacts to each window message.
use vstd::prelude::*;

use crate::rect::Rect;
use crate::text::{push_str, string_from_chars};

verus! {

/// Why no region was selected.
#[derive(Debug, Clone, Copy, PartialEq, Eq, Structural)]
pub enum InteractiveError {
    Unsupported,
    Canceled,
    Window,
}

/// The text shown for the error.
pub open spec fn interactive_error_text(e: InteractiveError) -> Seq<char> {
    match e {
        InteractiveError::Unsupported => "interactive region selection is not supported on this platform"@,
        InteractiveError::Canceled => "region selection was canceled"@,
        InteractiveError::Window => "window error"@,
    }
}

impl InteractiveError {
    /// The text shown for the error.
    pub fn message(&self) -> (s: String)
        ensures
            s@ == interactive_error_text(*self),
    {
        let mut out: Vec<char> = Vec::new();
        match self {
            InteractiveError::Unsupported => push_str(
                &mut out,
                "interactive region selection is not supported on this platform",
            ),
            InteractiveError::Canceled => push_str(&mut out, "region selection was canceled"),
            InteractiveError::Window => push_str(&mut out, "window error"),
        }
        string_from_chars(&out)
    }
}

/// Selects a region interactively. Outside Windows there is no overlay to select with.
pub fn select_region() -> (r: Result<Rect, InteractiveError>)
    ensures
        r == Err::<Rect, InteractiveError>(InteractiveError::Unsupported),
{
    Err(InteractiveError::Unsupported)
}

pub open spec fn min_i(a: int, b: int) -> int {
    if a <= b { a } else { b }
}

pub open spec fn max_i(a: int, b: int) -> int {
    if a <= b { b } else { a }
}

pub open spec fn abs_diff(a: int, b: int) -> int {
    if a <= b { b - a } else { a - b }
}

/// The rectangle spanned by two corners of a drag in overlay coordinates,
/// moved to screen coordinates by the overlay's origin; none when the drag
/// has no width or no height.
pub open spec fn drag_rect(start: (i32, i32), end: (i32, i32), origin_x: int, origin_y: int) -> Option<Rect> {
    let width = abs_diff(start.0 as int, end.0 as int);
    let height = abs_diff(start.1 as int, end.1 as int);
    if width == 0 || height == 0 {
        None
    } else {
        Some(
            Rect {
                x: (origin_x + min_i(start.0 as int, end.0 as int)) as i32,
                y: (origin_y + min_i(start.1 as int, end.1 as int)) as i32,
                width: width as u32,
                height: height as u32,
            },
        )
    }
}

pub open spec fn fits_i32(v: int) -> bool {
    i32::MIN <= v <= i32::MAX
}

/// The rectangle between two drag corners, in screen coordinates.
pub fn rect_from_points(start: (i32, i32), end: (i32, i32), origin_x: i32, origin_y: i32) -> (r: Option<Rect>)
    requires
        fits_i32(origin_x + min_i(start.0 as int, end.0 as int)),
        fits_i32(origin_y + min_i(start.1 as int, end.1 as int)),
    ensures
        r == drag_rect(start, end, origin_x as int, origin_y as int),
{
    let left = if start.0 <= end.0 { start.0 } else { end.0 };
    let top = if start.1 <= end.1 { start.1 } else { end.1 };
    let width: u32 = if start.0 <= end.0 { (end.0 as i64 - start.0 as i64) as u32 } else { (start.0 as i64 - end.0 as i64) as u32 };
    let height: u32 = if start.1 <= end.1 { (end.1 as i64 - start.1 as i64) as u32 } else { (start.1 as i64 - end.1 as i64) as u32 };
    if width == 0 || height == 0 {
        return None;
    }
    Some(Rect { x: origin_x + left, y: origin_y + top, width, height })
}

/// The rectangle a drag selects does not depend on which corner the drag
/// started from, and spans exactly the dragged area: there is none when the
/// drag has no width or no height; otherwise each of its sides lies on a
/// corner of the drag, the left and top edges on one corner's coordinates and
/// the right and bottom edges (exclusive) on the other's, in screen
/// coordinates.
pub proof fn lemma_drag_rect_spans_corners(start: (i32, i32), end: (i32, i32), origin_x: int, origin_y: int)
    requires
        fits_i32(origin_x + min_i(start.0 as int, end.0 as int)),
        fits_i32(origin_y + min_i(start.1 as int, end.1 as int)),
    ensures
        drag_rect(start, end, origin_x, origin_y) == drag_rect(end, start, origin_x, origin_y),
        drag_rect(start, end, origin_x, origin_y) is None <==> (start.0 == end.0 || start.1 == end.1),
        drag_rect(start, end, origin_x, origin_y) matches Some(r) ==> {
            &&& r.width > 0 && r.height > 0
            &&& (r.x == origin_x + start.0 && r.x + r.width == origin_x + end.0)
                || (r.x == origin_x + end.0 && r.x + r.width == origin_x + start.0)
            &&& (r.y == origin_y + start.1 && r.y + r.height == origin_y + end.1)
                || (r.y == origin_y + end.1 && r.y + r.height == origin_y + start.1)
        },
{
}

/// A 16-bit value read as a signed one.
pub open spec fn signed16(v: u16) -> int {
    if v >= 0x8000 { v - 0x10000 } else { v as int }
}

/// The point a mouse message carries: the low and high 16-bit words of its
/// parameter, each read as a signed coordinate.
pub fn lparam_point(lparam: isize) -> (p: (i32, i32))
    ensures
        p.0 == signed16((lparam & 0xffff) as u16),
        p.1 == signed16(((lparam >> 16) & 0xffff) as u16),
{
    let low = (lparam & 0xffff) as u16;
    let high = ((lparam >> 16) & 0xffff) as u16;
    let x = low as i16 as i32;
    let y = high as i16 as i32;
    assert(x == signed16(low)) by (bit_vector)
        requires
            x == low as i16 as i32,
    ;
    assert(y == signed16(high)) by (bit_vector)
        requires
            y == high as i16 as i32,
    ;
    (x, y)
}

/// A point in overlay coordinates.
#[derive(Clone, Copy, Debug, PartialEq, Eq, Structural)]
pub struct Point {
    pub x: i32,
    pub y: i32,
}

/// What the selection overlay knows while it is open.
#[derive(Clone, Copy, Debug, PartialEq, Eq, Structural)]
pub struct OverlayState {
    pub origin_x: i32,
    pub origin_y: i32,
    pub start: Option<Point>,
    pub current: Option<Point>,
    pub result: Option<Rect>,
    pub canceled: bool,
}

/// A window message, as far as the overlay cares.
#[derive(Clone, Copy, Debug, PartialEq, Eq, Structural)]
pub enum OverlayEvent {
    LeftDown { x: i32, y: i32 },
    MouseMove { x: i32, y: i32, left_held: bool },
    LeftUp { x: i32, y: i32 },
    RightDown,
    KeyDown { escape: bool },
    Other,
}

/// What the window must do after a message.
#[derive(Clone, Copy, Debug, PartialEq, Eq, Structural)]
pub enum OverlayEffect {
    Nothing,
    /// Capture the mouse: a drag began.
    CaptureMouse,
    /// Repaint the selection frame.
    Redraw,
    /// Release the mouse and close the overlay: the drag ended.
    ReleaseAndClose,
    /// Close the overlay: the selection was canceled.
    Close,
}

/// A fresh overlay whose client area starts at `(origin_x, origin_y)` on the screen.
pub fn overlay_start(origin_x: i32, origin_y: i32) -> (s: OverlayState)
    ensures
        s == (OverlayState { origin_x, origin_y, start: None, current: None, result: None, canceled: false }),
{
    OverlayState { origin_x, origin_y, start: None, current: None, result: None, canceled: false }
}

/// Points of the overlay are 16-bit coordinates and the origin leaves room
/// for them, so screen coordinates fit in an `i32`.
pub open spec fn overlay_coordinates_fit(origin_x: i32, origin_y: i32) -> bool {
    &&& i32::MIN + 0x8000 <= origin_x <= i32::MAX - 0x8000
    &&& i32::MIN + 0x8000 <= origin_y <= i32::MAX - 0x8000
}

pub open spec fn point16(p: Point) -> bool {
    -0x8000 <= p.x < 0x8000 && -0x8000 <= p.y < 0x8000
}

pub open spec fn opt_point16(p: Option<Point>) -> bool {
    match p {
        Some(q) => point16(q),
        None => true,
    }
}

pub open spec fn event_points16(e: OverlayEvent) -> bool {
    match e {
        OverlayEvent::LeftDown { x, y } => point16(Point { x, y }),
        OverlayEvent::MouseMove { x, y, .. } => point16(Point { x, y }),
        OverlayEvent::LeftUp { x, y } => point16(Point { x, y }),
        _ => true,
    }
}

/// How the overlay's state changes with a message, and what the window must do.
pub open spec fn overlay_transition(s: OverlayState, e: OverlayEvent) -> (OverlayState, OverlayEffect) {
    match e {
        OverlayEvent::LeftDown { x, y } => (
            OverlayState { start: Some(Point { x, y }), current: Some(Point { x, y }), ..s },
            OverlayEffect::CaptureMouse,
        ),
        OverlayEvent::MouseMove { x, y, left_held } => if left_held {
            (OverlayState { current: Some(Point { x, y }), ..s }, OverlayEffect::Redraw)
        } else {
            (s, OverlayEffect::Nothing)
        },
        OverlayEvent::LeftUp { x, y } => {
            let result = match s.start {
                Some(start) => drag_rect((start.x, start.y), (x, y), s.origin_x as int, s.origin_y as int),
                None => s.result,
            };
            (OverlayState { current: Some(Point { x, y }), result, ..s }, OverlayEffect::ReleaseAndClose)
        },
        OverlayEvent::RightDown => (OverlayState { canceled: true, ..s }, OverlayEffect::Close),
        OverlayEvent::KeyDown { escape } => if escape {
            (OverlayState { canceled: true, ..s }, OverlayEffect::Close)
        } else {
            (s, OverlayEffect::Nothing)
        },
        OverlayEvent::Other => (s, OverlayEffect::Nothing),
    }
}

/// Reacts to one window message.
pub fn overlay_step(state: OverlayState, event: OverlayEvent) -> (r: (OverlayState, OverlayEffect))
    requires
        overlay_coordinates_fit(state.origin_x, state.origin_y),
        opt_point16(state.start),
        event_points16(event),
    ensures
        r == overlay_transition(state, event),
        overlay_coordinates_fit(r.0.origin_x, r.0.origin_y),
        opt_point16(r.0.start),
{
    match event {
        OverlayEvent::LeftDown { x, y } => (
            OverlayState { start: Some(Point { x, y }), current: Some(Point { x, y }), ..state },
            OverlayEffect::CaptureMouse,
        ),
        OverlayEvent::MouseMove { x, y, left_held } => if left_held {
            (OverlayState { current: Some(Point { x, y }), ..state }, OverlayEffect::Redraw)
        } else {
            (state, OverlayEffect::Nothing)
        },
        OverlayEvent::LeftUp { x, y } => {
            let result = match state.start {
                Some(start) => rect_from_points((start.x, start.y), (x, y), state.origin_x, state.origin_y),
                None => state.result,
            };
            (OverlayState { current: Some(Point { x, y }), result, ..state }, OverlayEffect::ReleaseAndClose)
        },
        OverlayEvent::RightDown => (OverlayState { canceled: true, ..state }, OverlayEffect::Close),
        OverlayEvent::KeyDown { escape } => if escape {
            (OverlayState { canceled: true, ..state }, OverlayEffect::Close)
        } else {
            (state, OverlayEffect::Nothing)
        },
        OverlayEvent::Other => (state, OverlayEffect::Nothing),
    }
}

/// The frame to paint while dragging: left, top, right and bottom edges in
/// overlay coordinates; none before a drag began.
pub fn selection_frame(state: OverlayState) -> (r: Option<(i32, i32, i32, i32)>)
    ensures
        r == match (state.start, state.current) {
            (Some(a), Some(b)) => Some(
                (
                    min_i(a.x as int, b.x as int) as i32,
                    min_i(a.y as int, b.y as int) as i32,
                    max_i(a.x as int, b.x as int) as i32,
                    max_i(a.y as int, b.y as int) as i32,
                ),
            ),
            _ => None,
        },
{
    match (state.start, state.current) {
        (Some(a), Some(b)) => {
            let left = if a.x <= b.x { a.x } else { b.x };
            let top = if a.y <= b.y { a.y } else { b.y };
            let right = if a.x <= b.x { b.x } else { a.x };
            let bottom = if a.y <= b.y { b.y } else { a.y };
            Some((left, top, right, bottom))
        },
        _ => None,
    }
}

/// The outcome once the overlay has closed: a cancel, or a drag without
/// area, selects nothing.
pub fn selection_result(state: OverlayState) -> (r: Result<Rect, InteractiveError>)
    ensures
        state.canceled ==> r == Err::<Rect, InteractiveError>(InteractiveError::Canceled),
        !state.canceled ==> r == match state.result {
            Some(rect) => Ok::<Rect, InteractiveError>(rect),
            None => Err(InteractiveError::Canceled),
        },
{
    if state.canceled {
        return Err(InteractiveError::Canceled);
    }
    match state.result {
        Some(rect) => Ok(rect),
        None => Err(InteractiveError::Canceled),
    }
}

/// A drag from `a` to `b` on a fresh overlay selects the rectangle between
/// the two corners, moved by the overlay's origin, and closes the overlay.
pub proof fn lemma_drag_selects_between_corners(origin_x: i32, origin_y: i32, a: Point, b: Point)
    ensures
        ({
            let down = overlay_transition(
                OverlayState { origin_x, origin_y, start: None, current: None, result: None, canceled: false },
                OverlayEvent::LeftDown { x: a.x, y: a.y },
            );
            let up = overlay_transition(down.0, OverlayEvent::LeftUp { x: b.x, y: b.y });
            &&& down.1 == OverlayEffect::CaptureMouse
            &&& up.1 == OverlayEffect::ReleaseAndClose
            &&& !up.0.canceled
            &&& up.0.result == drag_rect((a.x, a.y), (b.x, b.y), origin_x as int, origin_y as int)
        }),
{
}

/// Escape or a right click cancels the selection from any state: the
/// overlay closes and nothing is selected, whatever was dragged before.
pub proof fn lemma_cancel_selects_nothing(s: OverlayState, e: OverlayEvent)
    requires
        e == OverlayEvent::RightDown || e == (OverlayEvent::KeyDown { escape: true }),
    ensures
        overlay_transition(s, e).1 == OverlayEffect::Close,
        overlay_transition(s, e).0.canceled,
{
}

/// A Windows `COLORREF`: red in the low byte, then green, then blue.
pub fn rgb(r: u8, g: u8, b: u8) -> (c: u32)
    ensures
        c == r as u32 + 256 * g as u32 + 65536 * b as u32,
{
    let c = (r as u32) | ((g as u32) << 8) | ((b as u32) << 16);
    assert(c == r as u32 + 256 * g as u32 + 65536 * b as u32) by (bit_vector)
        requires
            c == (r as u32) | ((g as u32) << 8) | ((b as u32) << 16),
    ;
    c
}

} // verus!
