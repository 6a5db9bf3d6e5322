//! The image editor: what each edit does to an image, where the edited copy
//! goes, and the outline drawn around the selection.
use vstd::prelude::*;

use crate::paths::{
    ends_with, file_name_text, joins, no_separators, parent_text, plain_name, portable_path, sibling_name, sibling_output_path,
    stem_choice, stem_text, verbatim_like,
};
use crate::pixels::{
    apply_highlight, apply_redaction, crop_image, is_crop_of, is_highlight_of, is_redaction_of,
    lemma_index_in_grid, lemma_index_injective, pixel_index, redaction_black, Rgba, RgbaImage,
};
use crate::interactive::{drag_rect, rect_from_points, Point};
use crate::rect::{rect_fits, redact_error_text, Rect, RedactError};
use crate::text::{push_str, string_from_chars};

verus! {

/// An edit applied to the selected rectangle.
#[derive(Clone, Copy, Debug, PartialEq, Eq, Structural)]
pub enum EditorOperation {
    Redact,
    Highlight,
    Crop,
}

/// Why the editor stopped without writing a file.
#[derive(Debug)]
pub enum EditorError {
    Open { path: String, reason: String },
    Canceled,
    Window(String),
    Redact(RedactError),
}

impl EditorError {
    /// The text shown for the error.
    pub fn message(&self) -> (s: String)
        ensures
            match *self {
                EditorError::Open { path, reason } => s@ == "failed to open "@ + path@ + ": "@ + reason@,
                EditorError::Canceled => s@ == "editor was closed without saving"@,
                EditorError::Window(reason) => s@ == "window error: "@ + reason@,
                EditorError::Redact(e) => s@ == redact_error_text(e),
            },
    {
        match self {
            EditorError::Open { path, reason } => {
                let mut out: Vec<char> = Vec::new();
                push_str(&mut out, "failed to open ");
                push_str(&mut out, path.as_str());
                push_str(&mut out, ": ");
                push_str(&mut out, reason.as_str());
                string_from_chars(&out)
            },
            EditorError::Canceled => "editor was closed without saving".to_owned(),
            EditorError::Window(reason) => {
                let mut out: Vec<char> = Vec::new();
                push_str(&mut out, "window error: ");
                push_str(&mut out, reason.as_str());
                string_from_chars(&out)
            },
            EditorError::Redact(e) => e.message(),
        }
    }
}

/// The word an edit adds to the name of the file it writes.
pub open spec fn operation_suffix(op: EditorOperation) -> Seq<char> {
    match op {
        EditorOperation::Redact => "redacted"@,
        EditorOperation::Highlight => "highlighted"@,
        EditorOperation::Crop => "cropped"@,
    }
}

/// The word an edit adds to the name of the file it writes.
pub fn output_suffix(op: EditorOperation) -> (s: &'static str)
    ensures
        s@ == operation_suffix(op),
{
    match op {
        EditorOperation::Redact => "redacted",
        EditorOperation::Highlight => "highlighted",
        EditorOperation::Crop => "cropped",
    }
}

proof fn lemma_suffix_plain(op: EditorOperation)
    ensures
        no_separators(operation_suffix(op)),
{
    reveal_strlit("redacted");
    reveal_strlit("highlighted");
    reveal_strlit("cropped");
    assert("redacted"@ =~= seq!['r', 'e', 'd', 'a', 'c', 't', 'e', 'd']);
    assert("highlighted"@ =~= seq!['h', 'i', 'g', 'h', 'l', 'i', 'g', 'h', 't', 'e', 'd']);
    assert("cropped"@ =~= seq!['c', 'r', 'o', 'p', 'p', 'e', 'd']);
}

/// Where an edit of `input` is written: `output` when one is given, else
/// `<stem>-<suffix>.png` next to the input.
pub fn edit_output_path(op: EditorOperation, input: &str, output: Option<&str>) -> (path: String)
    ensures
        output matches Some(o) ==> path@ == o@,
        output is None ==> exists|stem: Seq<char>| #[trigger] stem_choice(input@, operation_suffix(op), stem)
            && (plain_name(sibling_name(stem, operation_suffix(op))) ==> ends_with(path@, sibling_name(stem, operation_suffix(op))))
            && (!verbatim_like(input@) ==> ends_with(path@, sibling_name(stem, operation_suffix(op)))),
        output is None && portable_path(input@) ==> joins(
            parent_text(input@),
            sibling_name(stem_text(file_name_text(input@)), operation_suffix(op)),
            path@,
        ),
{
    proof {
        lemma_suffix_plain(op);
    }
    match output {
        Some(o) => o.to_owned(),
        None => sibling_output_path(input, output_suffix(op)),
    }
}

/// What an edit leaves: the redacted or highlighted image, or the cropped
/// part. A rectangle that does not lie inside the image is refused with
/// the image size.
pub fn edit_image(op: EditorOperation, image: RgbaImage, rect: Rect) -> (r: Result<RgbaImage, RedactError>)
    requires
        image.wf(),
    ensures
        rect_fits(rect, image.spec_width() as int, image.spec_height() as int) ==> (r matches Ok(edited)
            && match op {
                EditorOperation::Redact => is_redaction_of(image, edited, rect, redaction_black()),
                EditorOperation::Highlight => is_highlight_of(image, edited, rect),
                EditorOperation::Crop => is_crop_of(image, rect, edited),
            }),
        !rect_fits(rect, image.spec_width() as int, image.spec_height() as int) ==> (r matches Err(
            RedactError::RectOutOfBounds { image_width, image_height },
        ) && image_width == image.spec_width() && image_height == image.spec_height()),
{
    match op {
        EditorOperation::Redact => {
            let mut edited = image;
            match apply_redaction(&mut edited, rect, Rgba { red: 0, green: 0, blue: 0, alpha: 255 }) {
                Ok(()) => Ok(edited),
                Err(e) => Err(e),
            }
        },
        EditorOperation::Highlight => {
            let mut edited = image;
            match apply_highlight(&mut edited, rect) {
                Ok(()) => Ok(edited),
                Err(e) => Err(e),
            }
        },
        EditorOperation::Crop => crop_image(&image, rect),
    }
}

/// Where the editor stands between frames: where the current drag began
/// (window coordinates), and the selected rectangle (image coordinates).
#[derive(Clone, Copy, Debug, PartialEq, Eq, Structural)]
pub struct EditorSession {
    pub drag_start: Option<Point>,
    pub selection: Option<Rect>,
}

/// A session with no drag and nothing selected.
pub fn editor_session() -> (s: EditorSession)
    ensures
        s == (EditorSession { drag_start: None, selection: None }),
{
    EditorSession { drag_start: None, selection: None }
}

/// How a frame's mouse state moves the drag: while the left button is
/// down, the drag starts at the first known position, and the rectangle
/// from there to the pointer (`Some(None)` when it has no area) replaces
/// the selection once it is brought to image coordinates; when the button
/// is up the drag ends and the selection stays.
pub open spec fn drag_update(session: EditorSession, mouse_down: bool, mouse: Option<Point>) -> (EditorSession, Option<Option<Rect>>) {
    if mouse_down {
        let start = match session.drag_start {
            Some(p) => Some(p),
            None => mouse,
        };
        let spanned = match (start, mouse) {
            (Some(a), Some(b)) => Some(drag_rect((a.x, a.y), (b.x, b.y), 0, 0)),
            _ => None,
        };
        (EditorSession { drag_start: start, ..session }, spanned)
    } else {
        (EditorSession { drag_start: None, ..session }, None)
    }
}

/// Moves the drag for one frame; see [`drag_update`]. The caller brings a
/// spanned rectangle to image coordinates and stores it as the selection.
pub fn editor_drag(session: EditorSession, mouse_down: bool, mouse: Option<Point>) -> (r: (EditorSession, Option<Option<Rect>>))
    ensures
        r == drag_update(session, mouse_down, mouse),
{
    if mouse_down {
        let start = match session.drag_start {
            Some(p) => Some(p),
            None => mouse,
        };
        let spanned = match (start, mouse) {
            (Some(a), Some(b)) => Some(rect_from_points((a.x, a.y), (b.x, b.y), 0, 0)),
            _ => None,
        };
        (EditorSession { drag_start: start, ..session }, spanned)
    } else {
        (EditorSession { drag_start: None, ..session }, None)
    }
}

/// What the editor does after a frame.
#[derive(Clone, Copy, Debug, PartialEq, Eq, Structural)]
pub enum EditorStep {
    /// Keep the window open.
    Continue,
    /// Apply the edit to the selection and close.
    Apply(EditorOperation, Rect),
    /// The window was closed or Escape pressed: close without writing.
    Cancel,
}

/// The step for a frame: a closed window or Escape cancels; an edit key
/// applies its edit, but only once something is selected.
pub fn editor_step(session: EditorSession, window_open: bool, escape: bool, pressed: Option<EditorOperation>) -> (step: EditorStep)
    ensures
        step == if !window_open || escape {
            EditorStep::Cancel
        } else {
            match (session.selection, pressed) {
                (Some(rect), Some(op)) => EditorStep::Apply(op, rect),
                _ => EditorStep::Continue,
            }
        },
{
    if !window_open || escape {
        return EditorStep::Cancel;
    }
    match (session.selection, pressed) {
        (Some(rect), Some(op)) => EditorStep::Apply(op, rect),
        _ => EditorStep::Continue,
    }
}

/// The color of the selection outline.
pub const SELECTION_COLOR: u32 = 0xffd000;

pub open spec fn max_of(a: int, b: int) -> int {
    if a < b { b } else { a }
}

pub open spec fn clamp_to(v: int, lo: int, hi: int) -> int {
    if v < lo { lo } else if v > hi { hi } else { v }
}

/// The selection clipped to a `width` by `height` window: left, top, right
/// and bottom edges, the right and bottom ones exclusive.
pub open spec fn outline_box(width: int, height: int, rect: Rect) -> (int, int, int, int) {
    (
        max_of(rect.x as int, 0),
        max_of(rect.y as int, 0),
        clamp_to(rect.x + rect.width, 0, width),
        clamp_to(rect.y + rect.height, 0, height),
    )
}

/// The pixel `(px, py)` lies on the one-pixel frame of the clipped
/// selection (nothing is drawn when the clipped selection is empty).
pub open spec fn on_outline(width: int, height: int, rect: Rect, px: int, py: int) -> bool {
    let (l, t, r, b) = outline_box(width, height, rect);
    &&& l < r
    &&& t < b
    &&& ((l <= px < r && (py == t || py == b - 1)) || (t <= py < b && (px == l || px == r - 1)))
}

pub open spec fn on_rows(l: int, t: int, b: int, x_end: int, px: int, py: int) -> bool {
    l <= px < x_end && (py == t || py == b - 1)
}

pub open spec fn on_columns(l: int, r: int, t: int, y_end: int, px: int, py: int) -> bool {
    t <= py < y_end && (px == l || px == r - 1)
}

pub open spec fn in_window(width: int, height: int, px: int, py: int) -> bool {
    0 <= px < width && 0 <= py < height
}

/// Draws the frame of `rect`, clipped to the window, into a `width` by
/// `height` buffer of window pixels; every other pixel stays as it was.
pub fn draw_selection_outline(buffer: &mut Vec<u32>, width: usize, height: usize, rect: Rect)
    requires
        old(buffer)@.len() == width * height,
        width <= i32::MAX,
        height <= i32::MAX,
        rect.x + rect.width <= i32::MAX,
        rect.y + rect.height <= i32::MAX,
    ensures
        final(buffer)@.len() == old(buffer)@.len(),
        forall|px: int, py: int| #[trigger] in_window(width as int, height as int, px, py) ==> final(buffer)@[pixel_index(width as int, px, py)]
            == if on_outline(width as int, height as int, rect, px, py) {
                SELECTION_COLOR
            } else {
                old(buffer)@[pixel_index(width as int, px, py)]
            },
{
    let ghost start = buffer@;
    let total: usize = buffer.len();
    let wide_w = width as i64;
    let wide_h = height as i64;
    let x = rect.x as i64;
    let y = rect.y as i64;
    let x_end = x + rect.width as i64;
    let y_end = y + rect.height as i64;
    let l64 = if x < 0 { 0 } else { x };
    let t64 = if y < 0 { 0 } else { y };
    let r64 = if x_end < 0 { 0 } else if x_end > wide_w { wide_w } else { x_end };
    let b64 = if y_end < 0 { 0 } else if y_end > wide_h { wide_h } else { y_end };
    if l64 >= r64 || t64 >= b64 {
        assert forall|px: int, py: int| #[trigger] in_window(width as int, height as int, px, py) implies !on_outline(width as int, height as int, rect, px, py) by {}
        return;
    }
    let left = l64 as usize;
    let top = t64 as usize;
    let right = r64 as usize;
    let bottom = b64 as usize;
    assert(outline_box(width as int, height as int, rect) == (left as int, top as int, right as int, bottom as int));
    let mut cx: usize = left;
    while cx < right
        invariant
            buffer@.len() == width * height,
            start.len() == width * height,
            total == width * height,
            left <= cx <= right <= width,
            top < bottom <= height,
            forall|px: int, py: int| #[trigger] in_window(width as int, height as int, px, py) ==> buffer@[pixel_index(width as int, px, py)]
                == if on_rows(left as int, top as int, bottom as int, cx as int, px, py) {
                    SELECTION_COLOR
                } else {
                    start[pixel_index(width as int, px, py)]
                },
        decreases right - cx,
    {
        proof {
            lemma_index_in_grid(width as int, height as int, cx as int, top as int);
            lemma_index_in_grid(width as int, height as int, cx as int, bottom - 1);
        }
        let k_top = top * width + cx;
        buffer.set(k_top, SELECTION_COLOR);
        let k_bottom = (bottom - 1) * width + cx;
        buffer.set(k_bottom, SELECTION_COLOR);
        proof {
            assert forall|px: int, py: int| #[trigger] in_window(width as int, height as int, px, py) implies buffer@[pixel_index(width as int, px, py)]
                == if on_rows(left as int, top as int, bottom as int, cx + 1, px, py) {
                    SELECTION_COLOR
                } else {
                    start[pixel_index(width as int, px, py)]
                } by {
                lemma_index_in_grid(width as int, height as int, px, py);
                if pixel_index(width as int, px, py) == k_top {
                    lemma_index_injective(width as int, px, py, cx as int, top as int);
                }
                if pixel_index(width as int, px, py) == k_bottom {
                    lemma_index_injective(width as int, px, py, cx as int, bottom - 1);
                }
            }
        }
        cx = cx + 1;
    }
    let mut cy: usize = top;
    while cy < bottom
        invariant
            buffer@.len() == width * height,
            start.len() == width * height,
            total == width * height,
            left < right <= width,
            top <= cy <= bottom <= height,
            forall|px: int, py: int| #[trigger] in_window(width as int, height as int, px, py) ==> buffer@[pixel_index(width as int, px, py)]
                == if on_rows(left as int, top as int, bottom as int, right as int, px, py) || on_columns(
                    left as int,
                    right as int,
                    top as int,
                    cy as int,
                    px,
                    py,
                ) {
                    SELECTION_COLOR
                } else {
                    start[pixel_index(width as int, px, py)]
                },
        decreases bottom - cy,
    {
        proof {
            lemma_index_in_grid(width as int, height as int, left as int, cy as int);
            lemma_index_in_grid(width as int, height as int, right - 1, cy as int);
        }
        let k_left = cy * width + left;
        buffer.set(k_left, SELECTION_COLOR);
        let k_right = cy * width + right - 1;
        buffer.set(k_right, SELECTION_COLOR);
        proof {
            assert forall|px: int, py: int| #[trigger] in_window(width as int, height as int, px, py) implies buffer@[pixel_index(width as int, px, py)]
                == if on_rows(left as int, top as int, bottom as int, right as int, px, py) || on_columns(
                    left as int,
                    right as int,
                    top as int,
                    cy + 1,
                    px,
                    py,
                ) {
                    SELECTION_COLOR
                } else {
                    start[pixel_index(width as int, px, py)]
                } by {
                lemma_index_in_grid(width as int, height as int, px, py);
                if pixel_index(width as int, px, py) == k_left {
                    lemma_index_injective(width as int, px, py, left as int, cy as int);
                }
                if pixel_index(width as int, px, py) == k_right {
                    lemma_index_injective(width as int, px, py, right - 1, cy as int);
                }
            }
        }
        cy = cy + 1;
    }
}

} // verus!
