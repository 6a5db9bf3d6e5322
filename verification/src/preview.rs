//! The preview window: its size, its action bar, the pixels it shows, and
//! which action a key or a click asks for.
use vstd::prelude::*;

use crate::pixels::{lemma_index_in_grid, lemma_index_injective, pixel_index, Rgba, RgbaImage};
use crate::text::chars_of;

verus! {

/// Height of the action bar under the image, in pixels.
pub const ACTION_BAR_HEIGHT: usize = 48;

/// Number of buttons in the action bar.
pub const BUTTON_COUNT: usize = 7;

/// What the user asked to do with the previewed screenshot.
#[derive(Clone, Copy, Debug, PartialEq, Eq, Structural)]
pub enum PreviewAction {
    Copy,
    CopyPath,
    Edit,
    Open,
    Reveal,
    Delete,
}

/// The keys the preview window listens to.
#[derive(Clone, Copy, Debug, PartialEq, Eq, Structural)]
pub enum PreviewKey {
    Escape,
    C,
    P,
    E,
    O,
    R,
    Delete,
    Other,
}

/// What one key asks for: `Some(None)` closes the preview, `None` is no request.
pub open spec fn key_request(key: PreviewKey) -> Option<Option<PreviewAction>> {
    match key {
        PreviewKey::Escape => Some(None),
        PreviewKey::C => Some(Some(PreviewAction::Copy)),
        PreviewKey::P => Some(Some(PreviewAction::CopyPath)),
        PreviewKey::E => Some(Some(PreviewAction::Edit)),
        PreviewKey::O => Some(Some(PreviewAction::Open)),
        PreviewKey::R => Some(Some(PreviewAction::Reveal)),
        PreviewKey::Delete => Some(Some(PreviewAction::Delete)),
        PreviewKey::Other => None,
    }
}

/// The request of the first key, in the given order, that asks for something.
pub open spec fn first_key_request(keys: Seq<PreviewKey>) -> Option<Option<PreviewAction>>
    decreases keys.len(),
{
    if keys.len() == 0 {
        None
    } else {
        match key_request(keys[0]) {
            Some(request) => Some(request),
            None => first_key_request(keys.drop_first()),
        }
    }
}

/// What the pressed keys ask for; the first key in the list that means
/// something decides.
pub fn preview_action_from_keys(keys: &[PreviewKey]) -> (r: Option<Option<PreviewAction>>)
    ensures
        r == first_key_request(keys@),
{
    let mut i: usize = 0;
    assert(keys@.skip(0) =~= keys@);
    while i < keys.len()
        invariant
            i <= keys@.len(),
            first_key_request(keys@) == first_key_request(keys@.skip(i as int)),
        decreases keys@.len() - i,
    {
        assert(keys@.skip(i as int)[0] == keys@[i as int]);
        assert(keys@.skip(i as int).drop_first() =~= keys@.skip(i + 1));
        let request = match keys[i] {
            PreviewKey::Escape => Some(None),
            PreviewKey::C => Some(Some(PreviewAction::Copy)),
            PreviewKey::P => Some(Some(PreviewAction::CopyPath)),
            PreviewKey::E => Some(Some(PreviewAction::Edit)),
            PreviewKey::O => Some(Some(PreviewAction::Open)),
            PreviewKey::R => Some(Some(PreviewAction::Reveal)),
            PreviewKey::Delete => Some(Some(PreviewAction::Delete)),
            PreviewKey::Other => None,
        };
        if request.is_some() {
            return request;
        }
        i = i + 1;
    }
    None
}

/// One button of the action bar, by its position from the left.
#[derive(Clone, Copy, Debug, PartialEq, Eq, Structural)]
pub struct PreviewButton {
    pub index: usize,
    pub action: Option<PreviewAction>,
}

/// The action of the button at `index`; the last button only closes.
pub open spec fn button_action(index: int) -> Option<PreviewAction> {
    if index == 0 {
        Some(PreviewAction::Copy)
    } else if index == 1 {
        Some(PreviewAction::CopyPath)
    } else if index == 2 {
        Some(PreviewAction::Edit)
    } else if index == 3 {
        Some(PreviewAction::Open)
    } else if index == 4 {
        Some(PreviewAction::Reveal)
    } else if index == 5 {
        Some(PreviewAction::Delete)
    } else {
        None
    }
}

/// The label of the button at `index`.
pub open spec fn button_label(index: int) -> Seq<char> {
    if index == 0 {
        "Copy"@
    } else if index == 1 {
        "Path"@
    } else if index == 2 {
        "Edit"@
    } else if index == 3 {
        "Open"@
    } else if index == 4 {
        "Reveal"@
    } else if index == 5 {
        "Delete"@
    } else {
        "Close"@
    }
}

fn button(index: usize) -> (b: PreviewButton)
    requires
        index < BUTTON_COUNT,
    ensures
        b.index == index,
        b.action == button_action(index as int),
{
    let action = if index == 0 {
        Some(PreviewAction::Copy)
    } else if index == 1 {
        Some(PreviewAction::CopyPath)
    } else if index == 2 {
        Some(PreviewAction::Edit)
    } else if index == 3 {
        Some(PreviewAction::Open)
    } else if index == 4 {
        Some(PreviewAction::Reveal)
    } else if index == 5 {
        Some(PreviewAction::Delete)
    } else {
        None
    };
    PreviewButton { index, action }
}

fn label(index: usize) -> (s: &'static str)
    requires
        index < BUTTON_COUNT,
    ensures
        s@ == button_label(index as int),
{
    if index == 0 {
        "Copy"
    } else if index == 1 {
        "Path"
    } else if index == 2 {
        "Edit"
    } else if index == 3 {
        "Open"
    } else if index == 4 {
        "Reveal"
    } else if index == 5 {
        "Delete"
    } else {
        "Close"
    }
}

/// The size of the preview window and how much the image is scaled down.
#[derive(Clone, Copy, Debug, PartialEq, Eq, Structural)]
pub struct PreviewView {
    pub width: usize,
    pub height: usize,
    pub image_height: usize,
    pub scale_percent: u32,
}

pub open spec fn at_least_one(v: int) -> int {
    if v < 1 { 1 } else { v }
}

pub open spec fn saturating(v: int, max: int) -> int {
    if v > max { max } else { v }
}

pub open spec fn clamp(v: int, lo: int, hi: int) -> int {
    if v < lo { lo } else if v > hi { hi } else { v }
}

pub open spec fn min_int(a: int, b: int) -> int {
    if a <= b { a } else { b }
}

/// The preview of an `image_width` by `image_height` image in a window of
/// at most `max_width` by `max_height` (plus the action bar): the image is
/// scaled down by a whole percentage so that it fits, never up, and never to
/// less than one percent or one pixel.
pub open spec fn preview_layout(image_width: u32, image_height: u32, max_width: u32, max_height: u32) -> PreviewView {
    let width_scale = saturating(max_width * 100, u32::MAX as int) / at_least_one(image_width as int);
    let height_scale = saturating(max_height * 100, u32::MAX as int) / at_least_one(image_height as int);
    let scale = clamp(min_int(width_scale, height_scale), 1, 100);
    let width = at_least_one(at_least_one(image_width as int) * scale / 100);
    let shown_height = at_least_one(at_least_one(image_height as int) * scale / 100);
    PreviewView {
        width: width as usize,
        height: (shown_height + ACTION_BAR_HEIGHT) as usize,
        image_height: shown_height as usize,
        scale_percent: scale as u32,
    }
}

proof fn lemma_scaled_fits(side: int, total: int, scale: int)
    requires
        1 <= side <= u32::MAX,
        0 <= total <= u32::MAX,
        1 <= scale <= 100,
        scale == 1 || scale <= total / side,
    ensures
        side * scale <= u32::MAX,
        side * scale / 100 <= u32::MAX / 100,
{
    if scale == 1 {
        assert(side * scale == side);
    } else {
        assert(scale <= total / side);
        assert(side * scale <= side * (total / side)) by (nonlinear_arith)
            requires
                side >= 1,
                scale <= total / side,
        ;
        vstd::arithmetic::div_mod::lemma_fundamental_div_mod(total, side);
        assert(side * (total / side) <= total) by (nonlinear_arith)
            requires
                side >= 1,
                total >= 0,
                total == side * (total / side) + total % side,
                total % side >= 0,
        ;
    }
    assert(side * scale / 100 <= u32::MAX / 100) by (nonlinear_arith)
        requires
            side * scale <= u32::MAX,
    ;
}

/// `v * 100`, or the largest `u32` when that does not fit.
fn times_100_saturating(v: u32) -> (r: u32)
    ensures
        r == saturating(v * 100, u32::MAX as int),
{
    let wide = v as u64 * 100;
    if wide > u32::MAX as u64 {
        u32::MAX
    } else {
        wide as u32
    }
}

/// The preview window for an image of the given size.
pub fn preview_view_size(image_width: u32, image_height: u32, max_width: u32, max_height: u32) -> (view: PreviewView)
    ensures
        view == preview_layout(image_width, image_height, max_width, max_height),
        view.width <= u32::MAX / 100 + 1,
        view.image_height <= u32::MAX / 100 + 1,
{
    let width_scale = times_100_saturating(max_width) / if image_width < 1 { 1 } else { image_width };
    let height_scale = times_100_saturating(max_height) / if image_height < 1 { 1 } else { image_height };
    let smaller = if width_scale <= height_scale { width_scale } else { height_scale };
    let scale_percent = if smaller < 1 { 1 } else if smaller > 100 { 100 } else { smaller };
    let side_w = if image_width < 1 { 1 } else { image_width };
    let side_h = if image_height < 1 { 1 } else { image_height };
    proof {
        assert(width_scale == saturating(max_width * 100, u32::MAX as int) / (side_w as int));
        assert(height_scale == saturating(max_height * 100, u32::MAX as int) / (side_h as int));
        assert(scale_percent == 1 || scale_percent <= width_scale);
        assert(scale_percent == 1 || scale_percent <= height_scale);
        lemma_scaled_fits(side_w as int, saturating(max_width * 100, u32::MAX as int), scale_percent as int);
        lemma_scaled_fits(side_h as int, saturating(max_height * 100, u32::MAX as int), scale_percent as int);
    }
    let scaled_w = side_w * scale_percent / 100;
    let scaled_h = side_h * scale_percent / 100;
    let width = (if scaled_w < 1 { 1 } else { scaled_w }) as usize;
    let shown_height = (if scaled_h < 1 { 1 } else { scaled_h }) as usize;
    PreviewView {
        width,
        height: shown_height + ACTION_BAR_HEIGHT,
        image_height: shown_height,
        scale_percent,
    }
}

/// The preview fits its bound on both sides: unless the scale is already down
/// to one percent, `scale_percent` percent of the image's width (an empty side
/// counts as one pixel) is at most `max_width`, and the same of its height is
/// at most `max_height`, so the shown image is no wider than `max_width` and no
/// taller than `max_height`. The scale is the largest whole percentage, up to
/// a hundred, with that property, and the shown sides are that percentage of
/// the image's sides, rounded down but at least one pixel, with the action bar
/// under the image.
pub proof fn lemma_preview_fits_bounds(image_width: u32, image_height: u32, max_width: u32, max_height: u32)
    ensures
        ({
            let view = preview_layout(image_width, image_height, max_width, max_height);
            let w = at_least_one(image_width as int);
            let h = at_least_one(image_height as int);
            let s = view.scale_percent as int;
            &&& 1 <= s <= 100
            &&& s == 1 || (w * s <= 100 * max_width && h * s <= 100 * max_height)
            &&& s == 100 || w * (s + 1) > saturating(100 * max_width, u32::MAX as int) || h * (s + 1)
                > saturating(100 * max_height, u32::MAX as int)
            &&& view.width == at_least_one(w * s / 100)
            &&& view.image_height == at_least_one(h * s / 100)
            &&& view.height == view.image_height + ACTION_BAR_HEIGHT
            &&& s > 1 ==> view.width <= max_width && view.image_height <= max_height
        }),
{
    let w = at_least_one(image_width as int);
    let h = at_least_one(image_height as int);
    let tw = saturating(max_width * 100, u32::MAX as int);
    let th = saturating(max_height * 100, u32::MAX as int);
    let ws = tw / w;
    let hs = th / h;
    let s = clamp(min_int(ws, hs), 1, 100);
    vstd::arithmetic::div_mod::lemma_fundamental_div_mod(tw, w);
    vstd::arithmetic::div_mod::lemma_fundamental_div_mod(th, h);
    assert(0 <= ws && 0 <= hs) by (nonlinear_arith)
        requires
            tw >= 0,
            th >= 0,
            w >= 1,
            h >= 1,
            ws == tw / w,
            hs == th / h,
    ;
    assert(w * ws <= tw < w * (ws + 1)) by (nonlinear_arith)
        requires
            tw == w * ws + tw % w,
            0 <= tw % w < w,
    ;
    assert(h * hs <= th < h * (hs + 1)) by (nonlinear_arith)
        requires
            th == h * hs + th % h,
            0 <= th % h < h,
    ;
    lemma_scaled_fits(w, tw, s);
    lemma_scaled_fits(h, th, s);
    if s > 1 {
        assert(s <= ws && s <= hs);
        assert(w * s <= w * ws) by (nonlinear_arith)
            requires
                w >= 1,
                s <= ws,
        ;
        assert(h * s <= h * hs) by (nonlinear_arith)
            requires
                h >= 1,
                s <= hs,
        ;
        assert(w * s / 100 <= max_width) by (nonlinear_arith)
            requires
                w * s <= 100 * max_width,
        ;
        assert(h * s / 100 <= max_height) by (nonlinear_arith)
            requires
                h * s <= 100 * max_height,
        ;
        assert(w * 2 <= w * s && h * 2 <= h * s) by (nonlinear_arith)
            requires
                s >= 2,
                w >= 1,
                h >= 1,
        ;
    }
    if s < 100 {
        assert(s + 1 >= ws + 1 || s + 1 >= hs + 1);
        if s + 1 >= ws + 1 {
            assert(w * (s + 1) >= w * (ws + 1)) by (nonlinear_arith)
                requires
                    w >= 1,
                    s + 1 >= ws + 1,
            ;
        } else {
            assert(h * (s + 1) >= h * (hs + 1)) by (nonlinear_arith)
                requires
                    h >= 1,
                    s + 1 >= hs + 1,
            ;
        }
    }
}

/// The index of the button under column `x`: the bar is cut into equal
/// parts, one per button.
pub open spec fn button_index(view: PreviewView, x: int) -> int {
    min_int(saturating(x * BUTTON_COUNT, usize::MAX as int) / at_least_one(view.width as int), BUTTON_COUNT - 1)
}

/// The button under `(x, y)`; none above the bar or outside the window.
pub open spec fn button_at_spec(view: PreviewView, x: int, y: int) -> Option<PreviewButton> {
    if y < view.image_height || y >= view.height || x >= view.width {
        None
    } else {
        let index = button_index(view, x);
        Some(PreviewButton { index: index as usize, action: button_action(index) })
    }
}

proof fn lemma_button_index_range(view: PreviewView, x: int)
    requires
        x >= 0,
    ensures
        0 <= button_index(view, x) < BUTTON_COUNT,
{
    let s = saturating(x * BUTTON_COUNT, usize::MAX as int);
    assert(s >= 0);
    assert(s / at_least_one(view.width as int) >= 0) by (nonlinear_arith)
        requires
            s >= 0,
            at_least_one(view.width as int) >= 1,
    ;
}

/// The button under window position `(x, y)`.
pub fn button_at(view: PreviewView, x: usize, y: usize) -> (r: Option<PreviewButton>)
    ensures
        r == button_at_spec(view, x as int, y as int),
{
    if y < view.image_height || y >= view.height || x >= view.width {
        return None;
    }
    proof {
        lemma_button_index_range(view, x as int);
    }
    let divisor = if view.width < 1 { 1 } else { view.width };
    let scaled = match x.checked_mul(BUTTON_COUNT) {
        Some(v) => v,
        None => usize::MAX,
    };
    let by_position = scaled / divisor;
    let index = if by_position < BUTTON_COUNT - 1 { by_position } else { BUTTON_COUNT - 1 };
    Some(button(index))
}

/// What a click at window position `(x, y)` asks for: `Some(None)` for the
/// close button, `None` outside the bar.
pub fn preview_action_at(view: PreviewView, x: usize, y: usize) -> (r: Option<Option<PreviewAction>>)
    ensures
        r == match button_at_spec(view, x as int, y as int) {
            Some(b) => Some(b.action),
            None => None,
        },
{
    match button_at(view, x, y) {
        Some(b) => Some(b.action),
        None => None,
    }
}

/// Five columns by seven rows of a glyph, one byte per row, the leftmost
/// column in bit 4.
pub open spec fn glyph_rows(ch: char) -> Seq<u8> {
    let c = if 'a' <= ch && ch <= 'z' { ((ch as u32) - 32) as char } else { ch };
    if c == 'A' {
        seq![0b01110u8, 0b10001, 0b10001, 0b11111, 0b10001, 0b10001, 0b10001]
    } else if c == 'C' {
        seq![0b01111u8, 0b10000, 0b10000, 0b10000, 0b10000, 0b10000, 0b01111]
    } else if c == 'D' {
        seq![0b11110u8, 0b10001, 0b10001, 0b10001, 0b10001, 0b10001, 0b11110]
    } else if c == 'E' {
        seq![0b11111u8, 0b10000, 0b10000, 0b11110, 0b10000, 0b10000, 0b11111]
    } else if c == 'H' {
        seq![0b10001u8, 0b10001, 0b10001, 0b11111, 0b10001, 0b10001, 0b10001]
    } else if c == 'I' {
        seq![0b11111u8, 0b00100, 0b00100, 0b00100, 0b00100, 0b00100, 0b11111]
    } else if c == 'L' {
        seq![0b10000u8, 0b10000, 0b10000, 0b10000, 0b10000, 0b10000, 0b11111]
    } else if c == 'N' {
        seq![0b10001u8, 0b11001, 0b10101, 0b10011, 0b10001, 0b10001, 0b10001]
    } else if c == 'O' {
        seq![0b01110u8, 0b10001, 0b10001, 0b10001, 0b10001, 0b10001, 0b01110]
    } else if c == 'P' {
        seq![0b11110u8, 0b10001, 0b10001, 0b11110, 0b10000, 0b10000, 0b10000]
    } else if c == 'R' {
        seq![0b11110u8, 0b10001, 0b10001, 0b11110, 0b10100, 0b10010, 0b10001]
    } else if c == 'S' {
        seq![0b01111u8, 0b10000, 0b10000, 0b01110, 0b00001, 0b00001, 0b11110]
    } else if c == 'T' {
        seq![0b11111u8, 0b00100, 0b00100, 0b00100, 0b00100, 0b00100, 0b00100]
    } else if c == 'V' {
        seq![0b10001u8, 0b10001, 0b10001, 0b10001, 0b10001, 0b01010, 0b00100]
    } else if c == 'Y' {
        seq![0b10001u8, 0b10001, 0b01010, 0b00100, 0b00100, 0b00100, 0b00100]
    } else {
        seq![0u8, 0, 0, 0, 0, 0, 0]
    }
}

/// The rows of the glyph drawn for `ch`; letters are drawn in upper case and
/// characters without a glyph are blank.
pub fn glyph_for(ch: char) -> (rows: [u8; 7])
    ensures
        rows@ == glyph_rows(ch),
{
    let c = if 'a' <= ch && ch <= 'z' { ((ch as u8) - 32) as char } else { ch };
    let rows: [u8; 7] = if c == 'A' {
        [0b01110, 0b10001, 0b10001, 0b11111, 0b10001, 0b10001, 0b10001]
    } else if c == 'C' {
        [0b01111, 0b10000, 0b10000, 0b10000, 0b10000, 0b10000, 0b01111]
    } else if c == 'D' {
        [0b11110, 0b10001, 0b10001, 0b10001, 0b10001, 0b10001, 0b11110]
    } else if c == 'E' {
        [0b11111, 0b10000, 0b10000, 0b11110, 0b10000, 0b10000, 0b11111]
    } else if c == 'H' {
        [0b10001, 0b10001, 0b10001, 0b11111, 0b10001, 0b10001, 0b10001]
    } else if c == 'I' {
        [0b11111, 0b00100, 0b00100, 0b00100, 0b00100, 0b00100, 0b11111]
    } else if c == 'L' {
        [0b10000, 0b10000, 0b10000, 0b10000, 0b10000, 0b10000, 0b11111]
    } else if c == 'N' {
        [0b10001, 0b11001, 0b10101, 0b10011, 0b10001, 0b10001, 0b10001]
    } else if c == 'O' {
        [0b01110, 0b10001, 0b10001, 0b10001, 0b10001, 0b10001, 0b01110]
    } else if c == 'P' {
        [0b11110, 0b10001, 0b10001, 0b11110, 0b10000, 0b10000, 0b10000]
    } else if c == 'R' {
        [0b11110, 0b10001, 0b10001, 0b11110, 0b10100, 0b10010, 0b10001]
    } else if c == 'S' {
        [0b01111, 0b10000, 0b10000, 0b01110, 0b00001, 0b00001, 0b11110]
    } else if c == 'T' {
        [0b11111, 0b00100, 0b00100, 0b00100, 0b00100, 0b00100, 0b00100]
    } else if c == 'V' {
        [0b10001, 0b10001, 0b10001, 0b10001, 0b10001, 0b01010, 0b00100]
    } else if c == 'Y' {
        [0b10001, 0b10001, 0b01010, 0b00100, 0b00100, 0b00100, 0b00100]
    } else {
        [0; 7]
    };
    assert(rows@ =~= glyph_rows(ch));
    rows
}

/// Column `column` (0 is leftmost) of a glyph row is lit.
pub open spec fn glyph_bit(pattern: u8, column: int) -> bool {
    pattern & (1u8 << ((4 - column) as u8)) != 0u8
}

/// Pixel `(px, py)` is lit when glyph `ch` is drawn with its top left corner
/// at `(x, y)`, every glyph dot a `scale` by `scale` square.
pub open spec fn glyph_pixel(ch: char, x: int, y: int, scale: int, px: int, py: int) -> bool {
    &&& x <= px < x + 5 * scale
    &&& y <= py < y + 7 * scale
    &&& glyph_bit(glyph_rows(ch)[(py - y) / scale], (px - x) / scale)
}

/// The buffer position of pixel `(px, py)` lies in a `width` by `height` target.
pub open spec fn in_target(width: int, height: int, px: int, py: int) -> bool {
    0 <= px < width && 0 <= py < height
}

/// `(dx, dy)` was reached before `(c, r)` in row-major order.
pub open spec fn reached_before(dx: int, dy: int, c: int, r: int) -> bool {
    dy < r || (dy == r && dx < c)
}

proof fn lemma_glyph_offsets(r: int, c: int, scale: int)
    requires
        scale >= 1,
        0 <= r < 7 * scale,
        0 <= c < 5 * scale,
    ensures
        0 <= r / scale < 7,
        0 <= c / scale < 5,
{
    assert(0 <= r / scale < 7) by (nonlinear_arith)
        requires
            scale >= 1,
            0 <= r < 7 * scale,
    ;
    assert(0 <= c / scale < 5) by (nonlinear_arith)
        requires
            scale >= 1,
            0 <= c < 5 * scale,
    ;
}

/// Draws glyph `ch` with its top left corner at `(x, y)`, each dot a
/// `scale` by `scale` square; only pixels inside the `width` by `height`
/// target change.
fn draw_char(buffer: &mut Vec<u32>, width: usize, height: usize, x: i32, y: i32, ch: char, color: u32, scale: i32)
    requires
        width * height <= old(buffer)@.len(),
        scale > 0 ==> x + 5 * scale <= i32::MAX && y + 7 * scale <= i32::MAX && 7 * scale <= i32::MAX,
    ensures
        final(buffer)@.len() == old(buffer)@.len(),
        forall|px: int, py: int| #[trigger] in_target(width as int, height as int, px, py) ==> final(buffer)@[pixel_index(width as int, px, py)]
            == if glyph_pixel(ch, x as int, y as int, scale as int, px, py) { color } else { old(buffer)@[pixel_index(width as int, px, py)] },
        forall|i: int| width * height <= i < old(buffer)@.len() ==> #[trigger] final(buffer)@[i] == old(buffer)@[i],
{
    let ghost start = buffer@;
    if scale <= 0 {
        return;
    }
    let rows = glyph_for(ch);
    let total = buffer.len();
    let mut r: i32 = 0;
    while r < 7 * scale
        invariant
            scale > 0,
            x + 5 * scale <= i32::MAX,
            y + 7 * scale <= i32::MAX,
            7 * scale <= i32::MAX,
            total == start.len(),
            rows@ == glyph_rows(ch),
            width * height <= start.len(),
            buffer@.len() == start.len(),
            0 <= r <= 7 * scale,
            forall|px: int, py: int| #[trigger] in_target(width as int, height as int, px, py) ==> buffer@[pixel_index(width as int, px, py)]
                == if glyph_pixel(ch, x as int, y as int, scale as int, px, py) && reached_before(px - x, py - y, 0, r as int) { color } else { start[pixel_index(width as int, px, py)] },
            forall|i: int| width * height <= i < start.len() ==> #[trigger] buffer@[i] == start[i],
        decreases 7 * scale - r,
    {
        let mut c: i32 = 0;
        while c < 5 * scale
            invariant
                scale > 0,
                x + 5 * scale <= i32::MAX,
                y + 7 * scale <= i32::MAX,
                7 * scale <= i32::MAX,
                total == start.len(),
                rows@ == glyph_rows(ch),
                width * height <= start.len(),
                buffer@.len() == start.len(),
                0 <= r < 7 * scale,
                0 <= c <= 5 * scale,
                forall|px: int, py: int| #[trigger] in_target(width as int, height as int, px, py) ==> buffer@[pixel_index(width as int, px, py)]
                    == if glyph_pixel(ch, x as int, y as int, scale as int, px, py) && reached_before(px - x, py - y, c as int, r as int) { color } else { start[pixel_index(width as int, px, py)] },
                forall|i: int| width * height <= i < start.len() ==> #[trigger] buffer@[i] == start[i],
            decreases 5 * scale - c,
        {
            let px = x + c;
            let py = y + r;
            proof {
                lemma_glyph_offsets(r as int, c as int, scale as int);
            }
            if px >= 0 && py >= 0 && (px as usize) < width && (py as usize) < height {
                let pattern = rows[(r / scale) as usize];
                let column = c / scale;
                if pattern & (1u8 << ((4 - column) as u8)) != 0 {
                    let ghost before = buffer@;
                    proof {
                        lemma_index_in_grid(width as int, height as int, px as int, py as int);
                    }
                    let k = (py as usize) * width + (px as usize);
                    buffer.set(k, color);
                    proof {
                        assert forall|qx: int, qy: int| #[trigger] in_target(width as int, height as int, qx, qy) implies buffer@[pixel_index(width as int, qx, qy)]
                            == if glyph_pixel(ch, x as int, y as int, scale as int, qx, qy) && reached_before(qx - x, qy - y, c + 1, r as int) { color } else { start[pixel_index(width as int, qx, qy)] } by {
                            lemma_index_in_grid(width as int, height as int, qx, qy);
                            if pixel_index(width as int, qx, qy) == k {
                                lemma_index_injective(width as int, qx, qy, px as int, py as int);
                            }
                        }
                    }
                } else {
                    assert(!glyph_pixel(ch, x as int, y as int, scale as int, px as int, py as int));
                }
            }
            c = c + 1;
        }
        r = r + 1;
    }
}

/// Pixel `(px, py)` is lit when `text` is drawn at scale 2 from `(x, y)`,
/// one glyph every 12 pixels.
pub open spec fn text_pixel(text: Seq<char>, x: int, y: int, px: int, py: int) -> bool {
    exists|k: int| 0 <= k < text.len() && #[trigger] glyph_pixel(text[k], x + 12 * k, y, 2, px, py)
}

/// `a - b`, or zero when `b` is larger.
pub open spec fn saturating_sub(a: int, b: int) -> int {
    if a >= b { a - b } else { 0 }
}

/// Left edge of text of `len` characters centered on column `center_x`.
pub open spec fn text_left(center_x: int, len: int) -> int {
    saturating_sub(center_x, len * 12 / 2)
}

/// Top edge of text centered on row `center_y`.
pub open spec fn text_top(center_y: int) -> int {
    saturating_sub(center_y, 7)
}

/// Draws `text` centered on `(center_x, center_y)`, twice the glyph size.
fn draw_text_centered(buffer: &mut Vec<u32>, width: usize, height: usize, center_x: usize, center_y: usize, text: &str, color: u32)
    requires
        width * height <= old(buffer)@.len(),
        center_x + 12 * text@.len() + 16 <= i32::MAX,
        center_y + 16 <= i32::MAX,
    ensures
        final(buffer)@.len() == old(buffer)@.len(),
        forall|px: int, py: int| #[trigger] in_target(width as int, height as int, px, py) ==> final(buffer)@[pixel_index(width as int, px, py)]
            == if text_pixel(text@, text_left(center_x as int, text@.len() as int), text_top(center_y as int), px, py) { color } else { old(buffer)@[pixel_index(width as int, px, py)] },
        forall|i: int| width * height <= i < old(buffer)@.len() ==> #[trigger] final(buffer)@[i] == old(buffer)@[i],
{
    let ghost start = buffer@;
    let chars = chars_of(text);
    let n = chars.len();
    let text_width = n * 12;
    let x = center_x.saturating_sub(text_width / 2) as i32;
    let y = center_y.saturating_sub(7) as i32;
    let ghost left = text_left(center_x as int, n as int);
    let ghost top = text_top(center_y as int);
    assert(x == left && y == top);
    let mut index: usize = 0;
    while index < n
        invariant
            chars@ == text@,
            n == chars@.len(),
            x == left,
            y == top,
            0 <= left <= center_x,
            0 <= top <= center_y,
            center_x + 12 * n + 16 <= i32::MAX,
            center_y + 16 <= i32::MAX,
            width * height <= start.len(),
            buffer@.len() == start.len(),
            index <= n,
            forall|px: int, py: int| #[trigger] in_target(width as int, height as int, px, py) ==> buffer@[pixel_index(width as int, px, py)]
                == if text_pixel(text@.take(index as int), left, top, px, py) { color } else { start[pixel_index(width as int, px, py)] },
            forall|i: int| width * height <= i < start.len() ==> #[trigger] buffer@[i] == start[i],
        decreases n - index,
    {
        let ghost before = buffer@;
        let cx = x + (index * 12) as i32;
        draw_char(buffer, width, height, cx, y, chars[index], color, 2);
        proof {
            assert forall|px: int, py: int| #[trigger] in_target(width as int, height as int, px, py) implies buffer@[pixel_index(width as int, px, py)]
                == if text_pixel(text@.take(index + 1), left, top, px, py) { color } else { start[pixel_index(width as int, px, py)] } by {
                let prefix = text@.take(index as int);
                let longer = text@.take(index + 1);
                if text_pixel(longer, left, top, px, py) {
                    let k = choose|k: int| 0 <= k < longer.len() && #[trigger] glyph_pixel(longer[k], left + 12 * k, top, 2, px, py);
                    if k < index {
                        assert(prefix[k] == longer[k]);
                        assert(glyph_pixel(prefix[k], left + 12 * k, top, 2, px, py));
                    }
                } else {
                    if text_pixel(prefix, left, top, px, py) {
                        let k = choose|k: int| 0 <= k < prefix.len() && #[trigger] glyph_pixel(prefix[k], left + 12 * k, top, 2, px, py);
                        assert(longer[k] == prefix[k]);
                        assert(glyph_pixel(longer[k], left + 12 * k, top, 2, px, py));
                    }
                    assert(!glyph_pixel(longer[index as int], left + 12 * index, top, 2, px, py));
                }
            }
        }
        index = index + 1;
    }
    assert(text@.take(n as int) =~= text@);
}

/// Background of the action bar at `(x, y)`: a divider where a new button
/// starts, otherwise the button's face (darker for the close button).
pub open spec fn bar_background(view: PreviewView, x: int) -> u32 {
    let index = button_index(view, x);
    if x > 0 && button_index(view, x - 1) != index {
        0x505050
    } else if button_action(index) is Some {
        0x303030
    } else {
        0x282828
    }
}

/// Left edge of button `index`.
pub open spec fn button_left(view: PreviewView, index: int) -> int {
    view.width * index / BUTTON_COUNT as int
}

/// Column that the label of button `index` is centered on.
pub open spec fn label_center_x(view: PreviewView, index: int) -> int {
    let left = button_left(view, index);
    let right = button_left(view, index + 1);
    left + saturating_sub(right, left) / 2
}

/// Row that the labels are centered on.
pub open spec fn label_center_y(view: PreviewView) -> int {
    view.image_height + ACTION_BAR_HEIGHT / 2
}

/// Pixel `(px, py)` belongs to the label of one of the first `count` buttons.
pub open spec fn label_pixel(view: PreviewView, count: int, px: int, py: int) -> bool {
    exists|index: int| 0 <= index < count && #[trigger] text_pixel(
        button_label(index),
        text_left(label_center_x(view, index), button_label(index).len() as int),
        text_top(label_center_y(view)),
        px,
        py,
    )
}

/// The window is small enough that every coordinate of the bar and its
/// labels fits in an `i32`.
pub open spec fn bar_fits(view: PreviewView) -> bool {
    &&& view.width + 100 <= i32::MAX
    &&& view.width * BUTTON_COUNT <= usize::MAX
    &&& view.height + 100 <= i32::MAX
    &&& view.image_height <= view.height
}

/// What the action bar leaves at `(px, py)`, over what was there before.
pub open spec fn with_action_bar(view: PreviewView, before: u32, px: int, py: int) -> u32 {
    if label_pixel(view, BUTTON_COUNT as int, px, py) {
        0xf0f0f0
    } else if view.image_height <= py < view.height {
        bar_background(view, px)
    } else {
        before
    }
}

proof fn lemma_button_left_bounds(view: PreviewView, index: int)
    requires
        0 <= index < BUTTON_COUNT,
        view.width + 100 <= i32::MAX,
        view.width * BUTTON_COUNT <= usize::MAX,
    ensures
        0 <= button_left(view, index) <= button_left(view, index + 1) <= view.width,
        view.width * (index + 1) <= usize::MAX,
        view.width * index <= usize::MAX,
{
    let w = view.width as int;
    assert(0 <= w * index / 7 <= w * (index + 1) / 7 <= w) by (nonlinear_arith)
        requires
            0 <= index < 7,
            w >= 0,
    ;
    assert(w * index <= w * (index + 1) <= w * 7) by (nonlinear_arith)
        requires
            0 <= index < 7,
            w >= 0,
    ;
}

/// Paints the action bar: button faces with dividers, then the labels.
fn draw_action_bar(view: PreviewView, buffer: &mut Vec<u32>)
    requires
        view.width * view.height <= old(buffer)@.len(),
        bar_fits(view),
    ensures
        final(buffer)@.len() == old(buffer)@.len(),
        forall|px: int, py: int| #[trigger] in_target(view.width as int, view.height as int, px, py) ==> final(buffer)@[pixel_index(view.width as int, px, py)]
            == with_action_bar(view, old(buffer)@[pixel_index(view.width as int, px, py)], px, py),
{
    let ghost start = buffer@;
    let width = view.width;
    let height = view.height;
    let total = buffer.len();
    let mut y = view.image_height;
    while y < height
        invariant
            width == view.width,
            height == view.height,
            total == start.len(),
            bar_fits(view),
            width * height <= start.len(),
            buffer@.len() == start.len(),
            view.image_height <= y <= height,
            forall|px: int, py: int| #[trigger] in_target(width as int, height as int, px, py) ==> buffer@[pixel_index(width as int, px, py)]
                == if view.image_height <= py < y { bar_background(view, px) } else { start[pixel_index(width as int, px, py)] },
        decreases height - y,
    {
        let mut x: usize = 0;
        while x < width
            invariant
                width == view.width,
                height == view.height,
                total == start.len(),
                bar_fits(view),
                width * height <= start.len(),
                buffer@.len() == start.len(),
                view.image_height <= y < height,
                x <= width,
                forall|px: int, py: int| #[trigger] in_target(width as int, height as int, px, py) ==> buffer@[pixel_index(width as int, px, py)]
                    == if view.image_height <= py < y || (py == y && px < x) { bar_background(view, px) } else { start[pixel_index(width as int, px, py)] },
            decreases width - x,
        {
            let here = button_at(view, x, y);
            proof {
                lemma_index_in_grid(width as int, height as int, x as int, y as int);
            }
            let k = y * width + x;
            let color = match here {
                Some(b) => {
                    let divider = if x > 0 {
                        match button_at(view, x - 1, y) {
                            Some(p) => p.index != b.index,
                            None => true,
                        }
                    } else {
                        false
                    };
                    if divider {
                        0x505050u32
                    } else if b.action.is_some() {
                        0x303030u32
                    } else {
                        0x282828u32
                    }
                },
                None => 0x202020u32,
            };
            proof {
                lemma_button_index_range(view, x as int);
                if x > 0 {
                    lemma_button_index_range(view, x - 1);
                }
                assert(color == bar_background(view, x as int));
            }
            buffer.set(k, color);
            proof {
                assert forall|px: int, py: int| #[trigger] in_target(width as int, height as int, px, py) implies buffer@[pixel_index(width as int, px, py)]
                    == if view.image_height <= py < y || (py == y && px < x + 1) { bar_background(view, px) } else { start[pixel_index(width as int, px, py)] } by {
                    lemma_index_in_grid(width as int, height as int, px, py);
                    if pixel_index(width as int, px, py) == k {
                        lemma_index_injective(width as int, px, py, x as int, y as int);
                    }
                }
            }
            x = x + 1;
        }
        y = y + 1;
    }
    let mut index: usize = 0;
    while index < BUTTON_COUNT
        invariant
            width == view.width,
            height == view.height,
            bar_fits(view),
            width * height <= start.len(),
            buffer@.len() == start.len(),
            index <= BUTTON_COUNT,
            forall|px: int, py: int| #[trigger] in_target(width as int, height as int, px, py) ==> buffer@[pixel_index(width as int, px, py)]
                == if label_pixel(view, index as int, px, py) { 0xf0f0f0 } else if view.image_height <= py < height { bar_background(view, px) } else { start[pixel_index(width as int, px, py)] },
        decreases BUTTON_COUNT - index,
    {
        proof {
            lemma_button_left_bounds(view, index as int);
        }
        let left = width * index / BUTTON_COUNT;
        let right = width * (index + 1) / BUTTON_COUNT;
        let center_x = left + right.saturating_sub(left) / 2;
        let center_y = view.image_height + ACTION_BAR_HEIGHT / 2;
        let text = label(index);
        assert(center_x == label_center_x(view, index as int));
        proof {
            reveal_strlit("Copy");
            reveal_strlit("Path");
            reveal_strlit("Edit");
            reveal_strlit("Open");
            reveal_strlit("Reveal");
            reveal_strlit("Delete");
            reveal_strlit("Close");
        }
        assert(text@.len() <= 6);
        draw_text_centered(buffer, width, height, center_x, center_y, text, 0xf0f0f0);
        proof {
            assert forall|px: int, py: int| #[trigger] in_target(width as int, height as int, px, py) implies buffer@[pixel_index(width as int, px, py)]
                == if label_pixel(view, index + 1, px, py) { 0xf0f0f0 } else if view.image_height <= py < height { bar_background(view, px) } else { start[pixel_index(width as int, px, py)] } by {
                let this_label = text_pixel(
                    button_label(index as int),
                    text_left(label_center_x(view, index as int), button_label(index as int).len() as int),
                    text_top(label_center_y(view)),
                    px,
                    py,
                );
                if label_pixel(view, index + 1, px, py) && !this_label {
                    let j = choose|j: int| 0 <= j < index + 1 && #[trigger] text_pixel(
                        button_label(j),
                        text_left(label_center_x(view, j), button_label(j).len() as int),
                        text_top(label_center_y(view)),
                        px,
                        py,
                    );
                    assert(j < index);
                }
            }
        }
        index = index + 1;
    }
}

/// The color a window pixel shows for an image pixel (red, green, blue; no alpha).
pub open spec fn rgb24(p: Rgba) -> u32 {
    (p.red as int * 65536 + p.green as int * 256 + p.blue as int) as u32
}

/// The image pixel shown at window position `(x, y)`: positions are scaled
/// back by the view's percentage, and clamped to the last row and column.
pub open spec fn shown_pixel(view: PreviewView, image: RgbaImage, x: int, y: int) -> u32 {
    let sx = min_int(x * 100 / view.scale_percent as int, image.spec_width() - 1);
    let sy = min_int(y * 100 / view.scale_percent as int, image.spec_height() - 1);
    rgb24(image.pixel(sx, sy))
}

/// What the preview window shows at `(x, y)`: the scaled image above the
/// action bar, a dark gray where neither reaches.
pub open spec fn preview_pixel(view: PreviewView, image: RgbaImage, x: int, y: int) -> u32 {
    with_action_bar(view, if y < view.image_height { shown_pixel(view, image, x, y) } else { 0x202020 }, x, y)
}

impl PreviewView {
    /// The preview window for `image`, at most 900 by 700 pixels plus the bar.
    pub fn new(image: &RgbaImage) -> (view: PreviewView)
        ensures
            view == preview_layout(image.spec_width(), image.spec_height(), 900, 700),
    {
        preview_view_size(image.width(), image.height(), 900, 700)
    }

    /// The window's pixels, row after row: the scaled image and the action bar.
    pub fn buffer_for(&self, image: &RgbaImage) -> (buffer: Vec<u32>)
        requires
            image.wf(),
            image.spec_width() >= 1,
            image.spec_height() >= 1,
            self.scale_percent >= 1,
            self.width * self.height <= usize::MAX,
            self.width * 100 <= u32::MAX,
            self.image_height * 100 <= u32::MAX,
            bar_fits(*self),
        ensures
            buffer@.len() == self.width * self.height,
            forall|x: int, y: int| #[trigger] in_target(self.width as int, self.height as int, x, y) ==> buffer@[pixel_index(self.width as int, x, y)]
                == preview_pixel(*self, *image, x, y),
    {
        let view = *self;
        let width = view.width;
        let height = view.height;
        let count = width * height;
        let mut buffer: Vec<u32> = Vec::new();
        let mut filled: usize = 0;
        while filled < count
            invariant
                filled <= count,
                buffer@.len() == filled,
                forall|i: int| 0 <= i < filled ==> #[trigger] buffer@[i] == 0x202020u32,
            decreases count - filled,
        {
            buffer.push(0x202020u32);
            filled = filled + 1;
        }
        proof {
            assert forall|px: int, py: int| #[trigger] in_target(width as int, height as int, px, py) implies buffer@[pixel_index(width as int, px, py)] == 0x202020u32 by {
                lemma_index_in_grid(width as int, height as int, px, py);
            }
        }
        let mut y: usize = 0;
        while y < view.image_height
            invariant
                view == *self,
                width == view.width,
                height == view.height,
                count == width * height,
                buffer@.len() == count,
                image.wf(),
                image.spec_width() >= 1,
                image.spec_height() >= 1,
                view.scale_percent >= 1,
                view.width * 100 <= u32::MAX,
                view.image_height * 100 <= u32::MAX,
                bar_fits(view),
                y <= view.image_height,
                forall|px: int, py: int| #[trigger] in_target(width as int, height as int, px, py) ==> buffer@[pixel_index(width as int, px, py)]
                    == if py < y { shown_pixel(view, *image, px, py) } else { 0x202020 },
            decreases view.image_height - y,
        {
            let mut x: usize = 0;
            while x < width
                invariant
                    view == *self,
                    width == view.width,
                    height == view.height,
                    count == width * height,
                    buffer@.len() == count,
                    image.wf(),
                    image.spec_width() >= 1,
                    image.spec_height() >= 1,
                    view.scale_percent >= 1,
                    view.width * 100 <= u32::MAX,
                    view.image_height * 100 <= u32::MAX,
                    bar_fits(view),
                    y < view.image_height,
                    x <= width,
                    forall|px: int, py: int| #[trigger] in_target(width as int, height as int, px, py) ==> buffer@[pixel_index(width as int, px, py)]
                        == if py < y || (py == y && px < x) { shown_pixel(view, *image, px, py) } else { 0x202020 },
                decreases width - x,
            {
                let by_x = (x as u32 * 100) / view.scale_percent;
                let by_y = (y as u32 * 100) / view.scale_percent;
                let source_x = if by_x < image.width() - 1 { by_x } else { image.width() - 1 };
                let source_y = if by_y < image.height() - 1 { by_y } else { image.height() - 1 };
                let pixel = image.get_pixel(source_x, source_y);
                let color = ((pixel.red as u32) << 16) | ((pixel.green as u32) << 8) | (pixel.blue as u32);
                proof {
                    let (r, g, b) = (pixel.red, pixel.green, pixel.blue);
                    assert(((r as u32) << 16) | ((g as u32) << 8) | (b as u32) == r as u32 * 65536 + g as u32 * 256 + b as u32) by (bit_vector);
                    assert(color == shown_pixel(view, *image, x as int, y as int));
                    lemma_index_in_grid(width as int, height as int, x as int, y as int);
                }
                let k = y * width + x;
                buffer.set(k, color);
                proof {
                    assert forall|px: int, py: int| #[trigger] in_target(width as int, height as int, px, py) implies buffer@[pixel_index(width as int, px, py)]
                        == if py < y || (py == y && px < x + 1) { shown_pixel(view, *image, px, py) } else { 0x202020 } by {
                        lemma_index_in_grid(width as int, height as int, px, py);
                        if pixel_index(width as int, px, py) == k {
                            lemma_index_injective(width as int, px, py, x as int, y as int);
                        }
                    }
                }
                x = x + 1;
            }
            y = y + 1;
        }
        let ghost base = buffer@;
        draw_action_bar(view, &mut buffer);
        proof {
            assert forall|x: int, y: int| #[trigger] in_target(width as int, height as int, x, y) implies buffer@[pixel_index(width as int, x, y)]
                == preview_pixel(view, *image, x, y) by {
                assert(base[pixel_index(width as int, x, y)] == if y < view.image_height { shown_pixel(view, *image, x, y) } else { 0x202020 });
            }
        }
        buffer
    }
}

} // verus!
