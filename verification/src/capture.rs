//! Capture geometry: the desktop spanned by the monitors, where a region lies,
//! and the name a new screenshot is saved under.
use vstd::prelude::*;

use crate::rect::{rect_text, Rect};
use crate::text::{
    decimal, push_chars, push_str, push_zero_padded, string_from_chars, zero_padded,
};

verus! {

/// Why a capture failed.
#[derive(Debug)]
pub enum CaptureError {
    NoMonitors,
    Capture(String),
    CreateOutputDir { path: String, reason: String },
    Save { path: String, reason: String },
    InteractiveRegionUnsupported,
    RegionOutOfBounds { rect: Rect },
}

/// Position and size of one monitor on the virtual desktop.
#[derive(Clone, Copy, Debug, PartialEq, Eq, Structural)]
pub struct MonitorGeometry {
    pub x: i32,
    pub y: i32,
    pub width: u32,
    pub height: u32,
}

/// The smallest rectangle that holds every monitor.
#[derive(Clone, Copy, Debug, PartialEq, Eq, Structural)]
pub struct Bounds {
    pub x: i32,
    pub y: i32,
    pub width: u32,
    pub height: u32,
}

/// Where a region lies on the monitor that holds it.
#[derive(Clone, Copy, Debug, PartialEq, Eq, Structural)]
pub struct RegionPlacement {
    /// Position of the monitor in the list it was found in.
    pub monitor: usize,
    /// Left edge relative to the monitor.
    pub x: u32,
    /// Top edge relative to the monitor.
    pub y: u32,
    pub width: u32,
    pub height: u32,
}

/// A local date and time, as the clock reports it.
#[derive(Clone, Copy, Debug, PartialEq, Eq, Structural)]
pub struct LocalTimestamp {
    pub year: i32,
    pub month: u32,
    pub day: u32,
    pub hour: u32,
    pub minute: u32,
    pub second: u32,
}

impl LocalTimestamp {
    /// The fields are within the ranges of a calendar date and a time of day
    /// (a leap second may read 60).
    pub open spec fn valid(&self) -> bool {
        &&& 1 <= self.month <= 12
        &&& 1 <= self.day <= 31
        &&& self.hour < 24
        &&& self.minute < 60
        &&& self.second <= 60
    }
}

/// `a + b` when it fits in an `i32`.
pub open spec fn fits_i32(v: int) -> bool {
    i32::MIN <= v <= i32::MAX
}

/// The rectangle lies wholly on the monitor, and neither reaches past the
/// largest `i32` coordinate.
pub open spec fn inside_monitor(rect: Rect, mx: int, my: int, mw: int, mh: int) -> bool {
    &&& fits_i32(rect.x + rect.width)
    &&& fits_i32(rect.y + rect.height)
    &&& fits_i32(mx + mw)
    &&& fits_i32(my + mh)
    &&& rect.x >= mx
    &&& rect.y >= my
    &&& rect.x + rect.width <= mx + mw
    &&& rect.y + rect.height <= my + mh
}

/// Whether a region lies wholly on one monitor.
pub fn rect_inside_monitor(rect: Rect, monitor_x: i32, monitor_y: i32, monitor_width: u32, monitor_height: u32) -> (r: bool)
    ensures
        r == inside_monitor(rect, monitor_x as int, monitor_y as int, monitor_width as int, monitor_height as int),
{
    let rect_right = rect.x as i64 + rect.width as i64;
    let rect_bottom = rect.y as i64 + rect.height as i64;
    let monitor_right = monitor_x as i64 + monitor_width as i64;
    let monitor_bottom = monitor_y as i64 + monitor_height as i64;
    if rect_right > i32::MAX as i64 || rect_bottom > i32::MAX as i64 || monitor_right > i32::MAX as i64
        || monitor_bottom > i32::MAX as i64 {
        return false;
    }
    rect.x >= monitor_x && rect.y >= monitor_y && rect_right <= monitor_right && rect_bottom <= monitor_bottom
}

/// Right and bottom edges of every monitor fit in an `i32`.
pub open spec fn edges_fit(monitors: Seq<MonitorGeometry>) -> bool {
    forall|i: int| 0 <= i < monitors.len() ==> fits_i32(#[trigger] monitors[i].x + monitors[i].width)
        && fits_i32(monitors[i].y + monitors[i].height)
}

/// The bounds hold monitor `m`.
pub open spec fn bounds_hold(b: Bounds, m: MonitorGeometry) -> bool {
    &&& b.x <= m.x
    &&& b.y <= m.y
    &&& m.x + m.width <= b.x + b.width
    &&& m.y + m.height <= b.y + b.height
}

/// Each edge of the bounds is the edge of some monitor.
pub open spec fn bounds_tight(b: Bounds, monitors: Seq<MonitorGeometry>) -> bool {
    &&& exists|i: int| 0 <= i < monitors.len() && #[trigger] monitors[i].x == b.x
    &&& exists|i: int| 0 <= i < monitors.len() && #[trigger] monitors[i].y == b.y
    &&& exists|i: int| 0 <= i < monitors.len() && #[trigger] monitors[i].x + monitors[i].width == b.x + b.width
    &&& exists|i: int| 0 <= i < monitors.len() && #[trigger] monitors[i].y + monitors[i].height == b.y + b.height
}

/// The smallest rectangle holding every monitor.
///
/// An empty list, or a monitor whose right or bottom edge does not fit in an
/// `i32`, gives `NoMonitors`.
pub fn bounds_from_geometries(monitors: &[MonitorGeometry]) -> (r: Result<Bounds, CaptureError>)
    ensures
        (monitors@.len() == 0 || !edges_fit(monitors@)) ==> (r matches Err(CaptureError::NoMonitors)),
        (monitors@.len() > 0 && edges_fit(monitors@)) ==> (r matches Ok(b) && bounds_tight(b, monitors@)
            && forall|i: int| 0 <= i < monitors@.len() ==> bounds_hold(b, #[trigger] monitors@[i])),
{
    if monitors.len() == 0 {
        return Err(CaptureError::NoMonitors);
    }
    let mut left: i64 = i32::MAX as i64;
    let mut top: i64 = i32::MAX as i64;
    let mut right: i64 = i32::MIN as i64;
    let mut bottom: i64 = i32::MIN as i64;
    let mut i: usize = 0;
    while i < monitors.len()
        invariant
            0 < monitors@.len(),
            i <= monitors@.len(),
            forall|k: int| 0 <= k < i ==> fits_i32(#[trigger] monitors@[k].x + monitors@[k].width)
                && fits_i32(monitors@[k].y + monitors@[k].height),
            i32::MIN <= left <= i32::MAX,
            i32::MIN <= top <= i32::MAX,
            i32::MIN <= right <= i32::MAX,
            i32::MIN <= bottom <= i32::MAX,
            i == 0 ==> left == i32::MAX && top == i32::MAX && right == i32::MIN && bottom == i32::MIN,
            forall|k: int| 0 <= k < i ==> left <= #[trigger] monitors@[k].x && top <= monitors@[k].y
                && monitors@[k].x + monitors@[k].width <= right && monitors@[k].y + monitors@[k].height <= bottom,
            i > 0 ==> exists|k: int| 0 <= k < i && #[trigger] monitors@[k].x == left,
            i > 0 ==> exists|k: int| 0 <= k < i && #[trigger] monitors@[k].y == top,
            i > 0 ==> exists|k: int| 0 <= k < i && #[trigger] monitors@[k].x + monitors@[k].width == right,
            i > 0 ==> exists|k: int| 0 <= k < i && #[trigger] monitors@[k].y + monitors@[k].height == bottom,
        decreases monitors@.len() - i,
    {
        let m = monitors[i];
        let ghost (old_left, old_top, old_right, old_bottom) = (left, top, right, bottom);
        let monitor_right = m.x as i64 + m.width as i64;
        let monitor_bottom = m.y as i64 + m.height as i64;
        if monitor_right > i32::MAX as i64 || monitor_bottom > i32::MAX as i64 {
            proof {
                assert(!fits_i32(monitors@[i as int].x + monitors@[i as int].width) || !fits_i32(
                    monitors@[i as int].y + monitors@[i as int].height,
                ));
            }
            return Err(CaptureError::NoMonitors);
        }
        if (m.x as i64) < left {
            left = m.x as i64;
        }
        if (m.y as i64) < top {
            top = m.y as i64;
        }
        if monitor_right > right {
            right = monitor_right;
        }
        if monitor_bottom > bottom {
            bottom = monitor_bottom;
        }
        proof {
            let mi = monitors@[i as int];
            if left == mi.x {
                assert(monitors@[i as int].x == left);
            } else {
                assert(i > 0);
                let k = choose|k: int| 0 <= k < i && #[trigger] monitors@[k].x == old_left;
                assert(monitors@[k].x == left);
            }
            if top == mi.y {
                assert(monitors@[i as int].y == top);
            } else {
                let k = choose|k: int| 0 <= k < i && #[trigger] monitors@[k].y == old_top;
                assert(monitors@[k].y == top);
            }
            if right == monitor_right {
                assert(monitors@[i as int].x + monitors@[i as int].width == right);
            } else {
                let k = choose|k: int| 0 <= k < i && #[trigger] monitors@[k].x + monitors@[k].width == old_right;
                assert(monitors@[k].x + monitors@[k].width == right);
            }
            if bottom == monitor_bottom {
                assert(monitors@[i as int].y + monitors@[i as int].height == bottom);
            } else {
                let k = choose|k: int| 0 <= k < i && #[trigger] monitors@[k].y + monitors@[k].height == old_bottom;
                assert(monitors@[k].y + monitors@[k].height == bottom);
            }
            assert(mi == m);
            assert(mi.x + mi.width == monitor_right);
            assert(mi.y + mi.height == monitor_bottom);
        }
        i = i + 1;
    }
    let b = Bounds { x: left as i32, y: top as i32, width: (right - left) as u32, height: (bottom - top) as u32 };
    Ok(b)
}

/// Where each monitor's picture goes on a canvas covering `bounds`.
pub fn overlay_offsets(bounds: Bounds, monitors: &[MonitorGeometry]) -> (offsets: Vec<(i64, i64)>)
    ensures
        offsets@.len() == monitors@.len(),
        forall|i: int| 0 <= i < monitors@.len() ==> #[trigger] offsets@[i] == (
            (monitors@[i].x - bounds.x) as i64,
            (monitors@[i].y - bounds.y) as i64,
        ),
{
    let mut offsets: Vec<(i64, i64)> = Vec::new();
    let mut i: usize = 0;
    while i < monitors.len()
        invariant
            i <= monitors@.len(),
            offsets@.len() == i,
            forall|k: int| 0 <= k < i ==> #[trigger] offsets@[k] == (
                (monitors@[k].x - bounds.x) as i64,
                (monitors@[k].y - bounds.y) as i64,
            ),
        decreases monitors@.len() - i,
    {
        let m = monitors[i];
        offsets.push((m.x as i64 - bounds.x as i64, m.y as i64 - bounds.y as i64));
        i = i + 1;
    }
    offsets
}

/// The first monitor that holds the whole region, and where the region lies on it.
///
/// Without a rectangle there is nothing to place (`InteractiveRegionUnsupported`);
/// a region that no single monitor holds gives `RegionOutOfBounds`.
pub fn place_region(rect: Option<Rect>, monitors: &[MonitorGeometry]) -> (r: Result<RegionPlacement, CaptureError>)
    ensures
        rect is None ==> (r matches Err(CaptureError::InteractiveRegionUnsupported)),
        rect matches Some(rc) ==> {
            &&& (forall|i: int| 0 <= i < monitors@.len() ==> !inside_monitor(rc, #[trigger] monitors@[i].x as int, monitors@[i].y as int, monitors@[i].width as int, monitors@[i].height as int))
                ==> (r matches Err(CaptureError::RegionOutOfBounds { rect: e }) && e == rc)
            &&& (r matches Ok(p) ==> {
                &&& p.monitor < monitors@.len()
                &&& inside_monitor(rc, monitors@[p.monitor as int].x as int, monitors@[p.monitor as int].y as int, monitors@[p.monitor as int].width as int, monitors@[p.monitor as int].height as int)
                &&& forall|j: int| 0 <= j < p.monitor ==> !inside_monitor(rc, #[trigger] monitors@[j].x as int, monitors@[j].y as int, monitors@[j].width as int, monitors@[j].height as int)
                &&& p.x == rc.x - monitors@[p.monitor as int].x
                &&& p.y == rc.y - monitors@[p.monitor as int].y
                &&& p.width == rc.width
                &&& p.height == rc.height
            })
            &&& (r is Ok || r matches Err(CaptureError::RegionOutOfBounds { .. }))
            &&& (exists|i: int| 0 <= i < monitors@.len() && inside_monitor(rc, #[trigger] monitors@[i].x as int, monitors@[i].y as int, monitors@[i].width as int, monitors@[i].height as int))
                ==> r is Ok
        },
{
    let region = match rect {
        Some(region) => region,
        None => return Err(CaptureError::InteractiveRegionUnsupported),
    };
    let mut i: usize = 0;
    while i < monitors.len()
        invariant
            rect == Some(region),
            i <= monitors@.len(),
            forall|j: int| 0 <= j < i ==> !inside_monitor(region, #[trigger] monitors@[j].x as int, monitors@[j].y as int, monitors@[j].width as int, monitors@[j].height as int),
        decreases monitors@.len() - i,
    {
        let m = monitors[i];
        if rect_inside_monitor(region, m.x, m.y, m.width, m.height) {
            let local_x = (region.x as i64 - m.x as i64) as u32;
            let local_y = (region.y as i64 - m.y as i64) as u32;
            return Ok(RegionPlacement { monitor: i, x: local_x, y: local_y, width: region.width, height: region.height });
        }
        i = i + 1;
    }
    Err(CaptureError::RegionOutOfBounds { rect: region })
}

/// `%Y` of a time format: four digits for years 0 through 9999, otherwise an
/// explicit sign followed by at least four digits.
pub open spec fn year_text(year: int) -> Seq<char> {
    if 0 <= year <= 9999 {
        zero_padded(year as nat, 4)
    } else if year < 0 {
        seq!['-'] + zero_padded((-year) as nat, 4)
    } else {
        seq!['+'] + zero_padded(year as nat, 4)
    }
}

/// `screenshot-YYYYmmdd-HHMMSS.png` for the given time.
pub open spec fn screenshot_name(t: LocalTimestamp) -> Seq<char> {
    "screenshot-"@ + year_text(t.year as int) + zero_padded(t.month as nat, 2) + zero_padded(t.day as nat, 2)
        + seq!['-'] + zero_padded(t.hour as nat, 2) + zero_padded(t.minute as nat, 2) + zero_padded(t.second as nat, 2)
        + ".png"@
}

/// The file name a screenshot taken at `now` is saved under.
pub fn screenshot_filename(now: &LocalTimestamp) -> (name: String)
    requires
        now.valid(),
    ensures
        name@ == screenshot_name(*now),
{
    let mut out: Vec<char> = Vec::new();
    push_str(&mut out, "screenshot-");
    let ghost before_year = out@;
    if 0 <= now.year && now.year <= 9999 {
        push_zero_padded(&mut out, now.year as u64, 4);
    } else if now.year < 0 {
        out.push('-');
        push_zero_padded(&mut out, (0 - now.year as i64) as u64, 4);
    } else {
        out.push('+');
        push_zero_padded(&mut out, now.year as u64, 4);
    }
    assert(out@ =~= before_year + year_text(now.year as int));
    push_zero_padded(&mut out, now.month as u64, 2);
    push_zero_padded(&mut out, now.day as u64, 2);
    out.push('-');
    push_zero_padded(&mut out, now.hour as u64, 2);
    push_zero_padded(&mut out, now.minute as u64, 2);
    push_zero_padded(&mut out, now.second as u64, 2);
    push_str(&mut out, ".png");
    assert(out@ =~= screenshot_name(*now));
    string_from_chars(&out)
}

/// The text shown for the error.
pub open spec fn capture_error_text(e: CaptureError) -> Seq<char> {
    match e {
        CaptureError::NoMonitors => "no monitors found"@,
        CaptureError::Capture(reason) => "capture failed: "@ + reason@,
        CaptureError::CreateOutputDir { path, reason } => "failed to create output directory "@ + path@ + ": "@ + reason@,
        CaptureError::Save { path, reason } => "failed to save "@ + path@ + ": "@ + reason@,
        CaptureError::InteractiveRegionUnsupported => "interactive region selection is not implemented; pass --rect x,y,w,h"@,
        CaptureError::RegionOutOfBounds { rect } => "region "@ + rect_text(rect) + " is not fully inside one monitor"@,
    }
}

impl CaptureError {
    /// The text shown for the error.
    pub fn message(&self) -> (s: String)
        ensures
            s@ == capture_error_text(*self),
    {
        let mut out: Vec<char> = Vec::new();
        match self {
            CaptureError::NoMonitors => push_str(&mut out, "no monitors found"),
            CaptureError::Capture(reason) => {
                push_str(&mut out, "capture failed: ");
                push_str(&mut out, reason.as_str());
            },
            CaptureError::CreateOutputDir { path, reason } => {
                push_str(&mut out, "failed to create output directory ");
                push_str(&mut out, path.as_str());
                push_str(&mut out, ": ");
                push_str(&mut out, reason.as_str());
            },
            CaptureError::Save { path, reason } => {
                push_str(&mut out, "failed to save ");
                push_str(&mut out, path.as_str());
                push_str(&mut out, ": ");
                push_str(&mut out, reason.as_str());
            },
            CaptureError::InteractiveRegionUnsupported => push_str(
                &mut out,
                "interactive region selection is not implemented; pass --rect x,y,w,h",
            ),
            CaptureError::RegionOutOfBounds { rect } => {
                push_str(&mut out, "region ");
                let text = rect.to_text();
                push_str(&mut out, text.as_str());
                push_str(&mut out, " is not fully inside one monitor");
            },
        }
        string_from_chars(&out)
    }
}

} // verus!
