//! An RGBA pixel grid and the destructive edits made on it: redaction,
//! highlighting and cropping.
use vstd::prelude::*;

use crate::rect::{rect_covers, rect_fits, ImageRect, Rect, RedactError};

verus! {

/// One RGBA pixel.
#[derive(Clone, Copy, Debug, PartialEq, Eq, Structural)]
pub struct Rgba {
    pub red: u8,
    pub green: u8,
    pub blue: u8,
    pub alpha: u8,
}

impl Rgba {
    pub fn new(red: u8, green: u8, blue: u8, alpha: u8) -> (c: Rgba)
        ensures
            c == (Rgba { red, green, blue, alpha }),
    {
        Rgba { red, green, blue, alpha }
    }
}

/// The solid black that redaction writes.
pub open spec fn redaction_black() -> Rgba {
    Rgba { red: 0, green: 0, blue: 0, alpha: 255 }
}

/// The yellow that highlighting mixes in.
pub open spec fn highlight_yellow() -> Rgba {
    Rgba { red: 255, green: 230, blue: 0, alpha: 255 }
}

/// A `width` by `height` grid of pixels, stored row by row.
#[derive(Debug)]
pub struct RgbaImage {
    width: u32,
    height: u32,
    pixels: Vec<Rgba>,
}

/// Row-major position of the pixel at column `x` of row `y`.
pub open spec fn pixel_index(width: int, x: int, y: int) -> int {
    y * width + x
}

pub(crate) proof fn lemma_index_in_grid(width: int, height: int, x: int, y: int)
    requires
        0 <= x < width,
        0 <= y < height,
    ensures
        0 <= y * width,
        0 <= pixel_index(width, x, y) < width * height,
        pixel_index(width, x, y) < height * width,
{
    assert(width * height == height * width) by (nonlinear_arith);
    assert(0 <= y * width) by (nonlinear_arith)
        requires
            0 <= y,
            0 <= width,
    ;
    assert(y * width + x < width * height) by (nonlinear_arith)
        requires
            0 <= x < width,
            0 <= y < height,
    ;
}

pub(crate) proof fn lemma_index_injective(width: int, x1: int, y1: int, x2: int, y2: int)
    requires
        0 <= x1 < width,
        0 <= x2 < width,
        0 <= y1,
        0 <= y2,
        pixel_index(width, x1, y1) == pixel_index(width, x2, y2),
    ensures
        x1 == x2,
        y1 == y2,
{
    assert(y1 == y2) by (nonlinear_arith)
        requires
            0 <= x1 < width,
            0 <= x2 < width,
            y1 * width + x1 == y2 * width + x2,
    ;
}

impl RgbaImage {
    pub closed spec fn spec_width(&self) -> u32 {
        self.width
    }

    pub closed spec fn spec_height(&self) -> u32 {
        self.height
    }

    /// The pixels, row after row.
    pub closed spec fn pixels(&self) -> Seq<Rgba> {
        self.pixels@
    }

    /// The grid holds exactly one pixel per position.
    pub open spec fn wf(&self) -> bool {
        self.pixels().len() == self.spec_width() * self.spec_height()
    }

    /// The pixel at column `x` of row `y`.
    pub open spec fn pixel(&self, x: int, y: int) -> Rgba {
        self.pixels()[pixel_index(self.spec_width() as int, x, y)]
    }

    /// The pixel lies in the grid.
    pub open spec fn in_bounds(&self, x: int, y: int) -> bool {
        0 <= x < self.spec_width() && 0 <= y < self.spec_height()
    }

    #[verifier::when_used_as_spec(spec_width)]
    pub fn width(&self) -> (r: u32)
        ensures
            r == self.spec_width(),
    {
        self.width
    }

    #[verifier::when_used_as_spec(spec_height)]
    pub fn height(&self) -> (r: u32)
        ensures
            r == self.spec_height(),
    {
        self.height
    }

    /// An image whose every pixel is `color`.
    pub fn from_pixel(width: u32, height: u32, color: Rgba) -> (image: RgbaImage)
        requires
            width as nat * height as nat <= usize::MAX,
        ensures
            image.wf(),
            image.spec_width() == width,
            image.spec_height() == height,
            forall|x: int, y: int| image.in_bounds(x, y) ==> #[trigger] image.pixel(x, y) == color,
    {
        let count = (width as usize) * (height as usize);
        let mut pixels: Vec<Rgba> = Vec::new();
        let mut i: usize = 0;
        while i < count
            invariant
                i <= count,
                pixels@.len() == i,
                forall|k: int| 0 <= k < i ==> #[trigger] pixels@[k] == color,
            decreases count - i,
        {
            pixels.push(color);
            i = i + 1;
        }
        let image = RgbaImage { width, height, pixels };
        proof {
            assert forall|x: int, y: int| image.in_bounds(x, y) implies #[trigger] image.pixel(x, y) == color by {
                lemma_index_in_grid(width as int, height as int, x, y);
            }
        }
        image
    }

    /// An image made of raw RGBA bytes, four per pixel, row after row; `None`
    /// unless there are exactly `4 * width * height` bytes.
    pub fn from_raw(width: u32, height: u32, data: Vec<u8>) -> (r: Option<RgbaImage>)
        ensures
            (r is Some) == (data@.len() == 4 * (width as nat * height as nat)),
            r matches Some(image) ==> {
                &&& image.wf()
                &&& image.spec_width() == width
                &&& image.spec_height() == height
                &&& forall|i: int| 0 <= i < image.pixels().len() ==> #[trigger] image.pixels()[i] == (Rgba {
                    red: data@[4 * i],
                    green: data@[4 * i + 1],
                    blue: data@[4 * i + 2],
                    alpha: data@[4 * i + 3],
                })
            },
    {
        proof {
            lemma_u32_product(width, height);
        }
        let count = (width as u64) * (height as u64);
        if data.len() % 4 != 0 || (data.len() / 4) as u64 != count {
            return None;
        }
        let len = data.len();
        let n = len / 4;
        let mut pixels: Vec<Rgba> = Vec::new();
        let mut i: usize = 0;
        while i < n
            invariant
                n == data@.len() / 4,
                len == data@.len(),
                data@.len() % 4 == 0,
                i <= n,
                pixels@.len() == i,
                forall|k: int| 0 <= k < i ==> #[trigger] pixels@[k] == (Rgba {
                    red: data@[4 * k],
                    green: data@[4 * k + 1],
                    blue: data@[4 * k + 2],
                    alpha: data@[4 * k + 3],
                }),
            decreases n - i,
        {
            assert(4 * i + 3 < data@.len());
            let base = 4 * i;
            pixels.push(Rgba { red: data[base], green: data[base + 1], blue: data[base + 2], alpha: data[base + 3] });
            i = i + 1;
        }
        Some(RgbaImage { width, height, pixels })
    }

    /// The raw RGBA bytes, four per pixel, row after row.
    pub fn into_raw(self) -> (data: Vec<u8>)
        ensures
            data@.len() == 4 * self.pixels().len(),
            forall|i: int| 0 <= i < self.pixels().len() ==> {
                &&& #[trigger] data@[4 * i] == self.pixels()[i].red
                &&& data@[4 * i + 1] == self.pixels()[i].green
                &&& data@[4 * i + 2] == self.pixels()[i].blue
                &&& data@[4 * i + 3] == self.pixels()[i].alpha
            },
    {
        let mut data: Vec<u8> = Vec::new();
        let mut i: usize = 0;
        while i < self.pixels.len()
            invariant
                i <= self.pixels@.len(),
                data@.len() == 4 * i,
                forall|k: int| 0 <= k < i ==> {
                    &&& #[trigger] data@[4 * k] == self.pixels@[k].red
                    &&& data@[4 * k + 1] == self.pixels@[k].green
                    &&& data@[4 * k + 2] == self.pixels@[k].blue
                    &&& data@[4 * k + 3] == self.pixels@[k].alpha
                },
            decreases self.pixels@.len() - i,
        {
            let p = self.pixels[i];
            let ghost before = data@;
            data.push(p.red);
            data.push(p.green);
            data.push(p.blue);
            data.push(p.alpha);
            proof {
                assert(data@ == before + seq![p.red, p.green, p.blue, p.alpha]);
                assert forall|k: int| 0 <= k < i + 1 implies {
                    &&& #[trigger] data@[4 * k] == self.pixels@[k].red
                    &&& data@[4 * k + 1] == self.pixels@[k].green
                    &&& data@[4 * k + 2] == self.pixels@[k].blue
                    &&& data@[4 * k + 3] == self.pixels@[k].alpha
                } by {
                    if k < i {
                        assert(before[4 * k] == self.pixels@[k].red);
                    }
                }
            }
            i = i + 1;
        }
        data
    }

    /// The pixel at column `x` of row `y`.
    pub fn get_pixel(&self, x: u32, y: u32) -> (c: Rgba)
        requires
            self.wf(),
            self.in_bounds(x as int, y as int),
        ensures
            c == self.pixel(x as int, y as int),
    {
        let n = self.pixels.len();
        proof {
            lemma_index_in_grid(self.width as int, self.height as int, x as int, y as int);
        }
        self.pixels[(y as usize) * (self.width as usize) + (x as usize)]
    }

    /// Overwrites the pixel at column `x` of row `y`.
    pub fn put_pixel(&mut self, x: u32, y: u32, color: Rgba)
        requires
            old(self).wf(),
            old(self).in_bounds(x as int, y as int),
        ensures
            final(self).wf(),
            final(self).spec_width() == old(self).spec_width(),
            final(self).spec_height() == old(self).spec_height(),
            forall|px: int, py: int| #[trigger] final(self).in_bounds(px, py) ==> final(self).pixel(px, py) == if px == x && py == y {
                color
            } else {
                old(self).pixel(px, py)
            },
    {
        let n = self.pixels.len();
        proof {
            lemma_index_in_grid(self.width as int, self.height as int, x as int, y as int);
        }
        let k = (y as usize) * (self.width as usize) + (x as usize);
        self.pixels.set(k, color);
        proof {
            assert forall|px: int, py: int| #[trigger] self.in_bounds(px, py) implies self.pixel(px, py) == if px == x && py == y {
                color
            } else {
                old(self).pixel(px, py)
            } by {
                lemma_index_in_grid(self.width as int, self.height as int, px, py);
                if pixel_index(self.width as int, px, py) == k {
                    lemma_index_injective(self.width as int, px, py, x as int, y as int);
                }
            }
        }
    }
}

/// The mean of two channel values, rounded down.
pub open spec fn average_spec(a: u8, b: u8) -> u8 {
    ((a + b) / 2) as u8
}

pub fn average(a: u8, b: u8) -> (r: u8)
    ensures
        r == average_spec(a, b),
{
    (((a as u16) + (b as u16)) / 2) as u8
}

/// A pixel mixed half and half with highlight yellow, keeping its own alpha.
pub open spec fn highlighted(p: Rgba) -> Rgba {
    Rgba {
        red: average_spec(p.red, highlight_yellow().red),
        green: average_spec(p.green, highlight_yellow().green),
        blue: average_spec(p.blue, highlight_yellow().blue),
        alpha: p.alpha,
    }
}

/// The pixel `(x, y)` comes before the pixel `(cx, cy)` in row-major order.
pub open spec fn visited_before(x: int, y: int, cx: int, cy: int) -> bool {
    y < cy || (y == cy && x < cx)
}

/// `after` is `before` with every pixel of `rect` set to `color` and every
/// other pixel as it was.
pub open spec fn is_redaction_of(before: RgbaImage, after: RgbaImage, rect: Rect, color: Rgba) -> bool {
    &&& after.wf()
    &&& after.spec_width() == before.spec_width()
    &&& after.spec_height() == before.spec_height()
    &&& forall|x: int, y: int| #[trigger] after.in_bounds(x, y) ==> after.pixel(x, y) == if rect_covers(rect, x, y) {
        color
    } else {
        before.pixel(x, y)
    }
}

/// `after` is `before` with every pixel of `rect` mixed with highlight
/// yellow and every other pixel as it was.
pub open spec fn is_highlight_of(before: RgbaImage, after: RgbaImage, rect: Rect) -> bool {
    &&& after.wf()
    &&& after.spec_width() == before.spec_width()
    &&& after.spec_height() == before.spec_height()
    &&& forall|x: int, y: int| #[trigger] after.in_bounds(x, y) ==> after.pixel(x, y) == if rect_covers(rect, x, y) {
        highlighted(before.pixel(x, y))
    } else {
        before.pixel(x, y)
    }
}

/// `cropped` holds exactly the pixels of `image` inside `rect`.
pub open spec fn is_crop_of(image: RgbaImage, rect: Rect, cropped: RgbaImage) -> bool {
    &&& cropped.wf()
    &&& cropped.spec_width() == rect.width
    &&& cropped.spec_height() == rect.height
    &&& forall|x: int, y: int| #[trigger] cropped.in_bounds(x, y) ==> cropped.pixel(x, y) == image.pixel(rect.x + x, rect.y + y)
}

/// Applies `color` (when `paint`) or the highlight mix to every pixel of `rect`,
/// which `area` holds as checked to lie inside the image.
fn edit_rect(image: &mut RgbaImage, rect: Rect, area: ImageRect, paint: bool, color: Rgba)
    requires
        old(image).wf(),
        area.x() == rect.x,
        area.y() == rect.y,
        area.width() == rect.width,
        area.height() == rect.height,
        area.x() + area.width() <= old(image).spec_width(),
        area.y() + area.height() <= old(image).spec_height(),
    ensures
        final(image).wf(),
        final(image).spec_width() == old(image).spec_width(),
        final(image).spec_height() == old(image).spec_height(),
        forall|x: int, y: int| #[trigger] final(image).in_bounds(x, y) ==> final(image).pixel(x, y) == if rect_covers(rect, x, y) {
            if paint { color } else { highlighted(old(image).pixel(x, y)) }
        } else {
            old(image).pixel(x, y)
        },
{
    let ghost start = *image;
    let x0 = area.x();
    let y0 = area.y();
    let x1 = x0 + area.width();
    let y1 = y0 + area.height();
    let mut y = y0;
    while y < y1
        invariant
            image.wf(),
            start.wf(),
            image.spec_width() == start.spec_width(),
            image.spec_height() == start.spec_height(),
            y0 <= y <= y1,
            y1 <= start.spec_height(),
            x1 <= start.spec_width(),
            rect.x == x0 && rect.y == y0 && rect.x + rect.width == x1 && rect.y + rect.height == y1,
            forall|px: int, py: int| #[trigger] image.in_bounds(px, py) ==> image.pixel(px, py) == if rect_covers(rect, px, py) && py < y {
                if paint { color } else { highlighted(start.pixel(px, py)) }
            } else {
                start.pixel(px, py)
            },
        decreases y1 - y,
    {
        let mut x = x0;
        while x < x1
            invariant
                image.wf(),
                start.wf(),
                image.spec_width() == start.spec_width(),
                image.spec_height() == start.spec_height(),
                y0 <= y < y1,
                x0 <= x <= x1,
                y1 <= start.spec_height(),
                x1 <= start.spec_width(),
                rect.x == x0 && rect.y == y0 && rect.x + rect.width == x1 && rect.y + rect.height == y1,
                forall|px: int, py: int| #[trigger] image.in_bounds(px, py) ==> image.pixel(px, py) == if rect_covers(rect, px, py) && visited_before(px, py, x as int, y as int) {
                    if paint { color } else { highlighted(start.pixel(px, py)) }
                } else {
                    start.pixel(px, py)
                },
            decreases x1 - x,
        {
            assert(image.in_bounds(x as int, y as int));
            let new_color = if paint {
                color
            } else {
                let p = image.get_pixel(x, y);
                Rgba {
                    red: average(p.red, 255),
                    green: average(p.green, 230),
                    blue: average(p.blue, 0),
                    alpha: p.alpha,
                }
            };
            let ghost mid = *image;
            assert(rect_covers(rect, x as int, y as int));
            assert(new_color == if paint { color } else { highlighted(start.pixel(x as int, y as int)) });
            image.put_pixel(x, y, new_color);
            assert forall|px: int, py: int| #[trigger] image.in_bounds(px, py) implies image.pixel(px, py) == if rect_covers(rect, px, py) && visited_before(px, py, x + 1, y as int) {
                if paint { color } else { highlighted(start.pixel(px, py)) }
            } else {
                start.pixel(px, py)
            } by {
                assert(mid.in_bounds(px, py));
            }
            x = x + 1;
        }
        y = y + 1;
    }
}

/// Fills every pixel of `rect` with `color`.
///
/// The rectangle must lie inside the image; otherwise the image is left as it
/// was and the error names the image size.
pub fn apply_redaction(image: &mut RgbaImage, rect: Rect, color: Rgba) -> (r: Result<(), RedactError>)
    requires
        old(image).wf(),
    ensures
        final(image).wf(),
        final(image).spec_width() == old(image).spec_width(),
        final(image).spec_height() == old(image).spec_height(),
        rect_fits(rect, old(image).spec_width() as int, old(image).spec_height() as int) ==> {
            &&& r is Ok
            &&& is_redaction_of(*old(image), *final(image), rect, color)
        },
        !rect_fits(rect, old(image).spec_width() as int, old(image).spec_height() as int) ==> {
            &&& r matches Err(RedactError::RectOutOfBounds { image_width, image_height })
            &&& image_width == old(image).spec_width() && image_height == old(image).spec_height()
            &&& *final(image) == *old(image)
        },
{
    let area = match rect.checked_for_image(image.width(), image.height()) {
        Ok(area) => area,
        Err(e) => return Err(e),
    };
    edit_rect(image, rect, area, true, color);
    Ok(())
}

/// Mixes every pixel of `rect` half and half with yellow, keeping each pixel's alpha.
///
/// The rectangle must lie inside the image; otherwise the image is left as it
/// was and the error names the image size.
pub fn apply_highlight(image: &mut RgbaImage, rect: Rect) -> (r: Result<(), RedactError>)
    requires
        old(image).wf(),
    ensures
        final(image).wf(),
        final(image).spec_width() == old(image).spec_width(),
        final(image).spec_height() == old(image).spec_height(),
        rect_fits(rect, old(image).spec_width() as int, old(image).spec_height() as int) ==> {
            &&& r is Ok
            &&& is_highlight_of(*old(image), *final(image), rect)
        },
        !rect_fits(rect, old(image).spec_width() as int, old(image).spec_height() as int) ==> {
            &&& r matches Err(RedactError::RectOutOfBounds { image_width, image_height })
            &&& image_width == old(image).spec_width() && image_height == old(image).spec_height()
            &&& *final(image) == *old(image)
        },
{
    let area = match rect.checked_for_image(image.width(), image.height()) {
        Ok(area) => area,
        Err(e) => return Err(e),
    };
    edit_rect(image, rect, area, false, Rgba { red: 255, green: 230, blue: 0, alpha: 255 });
    Ok(())
}

/// A copy of the part of `image` inside `rect`.
///
/// The rectangle must lie inside the image; otherwise the error names the image size.
pub fn crop_image(image: &RgbaImage, rect: Rect) -> (r: Result<RgbaImage, RedactError>)
    requires
        image.wf(),
    ensures
        rect_fits(rect, image.spec_width() as int, image.spec_height() as int) ==> (r matches Ok(
            cropped,
        ) && is_crop_of(*image, rect, cropped)),
        !rect_fits(rect, image.spec_width() as int, image.spec_height() as int) ==> (r matches Err(
            RedactError::RectOutOfBounds { image_width, image_height },
        ) && image_width == image.spec_width() && image_height == image.spec_height()),
{
    let area = match rect.checked_for_image(image.width(), image.height()) {
        Ok(area) => area,
        Err(e) => return Err(e),
    };
    let x0 = area.x();
    let y0 = area.y();
    let w = area.width();
    let h = area.height();
    let total = image.pixels.len();
    proof {
        lemma_size_bound(w as int, h as int, image.spec_width() as int, image.spec_height() as int, image.pixels().len() as int);
    }
    let mut pixels: Vec<Rgba> = Vec::new();
    let mut dy: u32 = 0;
    while dy < h
        invariant
            image.wf(),
            x0 + w <= image.spec_width(),
            y0 + h <= image.spec_height(),
            dy <= h,
            pixels@.len() == dy * w,
            w * h <= usize::MAX,
            forall|x: int, y: int| 0 <= x < w && 0 <= y < dy ==> #[trigger] pixels@[pixel_index(w as int, x, y)] == image.pixel(x0 + x, y0 + y),
        decreases h - dy,
    {
        let mut dx: u32 = 0;
        let ghost row_start = pixels@.len();
        while dx < w
            invariant
                image.wf(),
                x0 + w <= image.spec_width(),
                y0 + h <= image.spec_height(),
                dy < h,
                dx <= w,
                row_start == dy * w,
                w * h <= usize::MAX,
                pixels@.len() == row_start + dx,
                forall|x: int, y: int| 0 <= x < w && 0 <= y < dy ==> #[trigger] pixels@[pixel_index(w as int, x, y)] == image.pixel(x0 + x, y0 + y),
                forall|x: int| 0 <= x < dx ==> #[trigger] pixels@[row_start + x] == image.pixel(x0 + x, y0 + dy),
            decreases w - dx,
        {
            let p = image.get_pixel(x0 + dx, y0 + dy);
            pixels.push(p);
            proof {
                assert forall|x: int, y: int| 0 <= x < w && 0 <= y < dy implies #[trigger] pixels@[pixel_index(w as int, x, y)] == image.pixel(x0 + x, y0 + y) by {
                    lemma_index_in_grid(w as int, dy as int, x, y);
                }
            }
            dx = dx + 1;
        }
        proof {
            assert((dy + 1) * w == dy * w + w) by (nonlinear_arith);
            assert forall|x: int, y: int| 0 <= x < w && 0 <= y < dy + 1 implies #[trigger] pixels@[pixel_index(w as int, x, y)] == image.pixel(x0 + x, y0 + y) by {
                if y == dy {
                    assert(pixel_index(w as int, x, y) == row_start + x);
                }
            }
        }
        dy = dy + 1;
    }
    let cropped = RgbaImage { width: w, height: h, pixels };
    proof {
        assert(h * w == w * h) by (nonlinear_arith);
        assert forall|x: int, y: int| #[trigger] cropped.in_bounds(x, y) implies cropped.pixel(x, y) == image.pixel(rect.x + x, rect.y + y) by {
            assert(cropped.pixel(x, y) == pixels@[pixel_index(w as int, x, y)]);
        }
    }
    Ok(cropped)
}

/// Redaction is destructive: cropping a redacted rectangle out of the image
/// gives a picture of nothing but the redaction color.
pub proof fn lemma_redacted_crop_is_solid(before: RgbaImage, after: RgbaImage, rect: Rect, color: Rgba, cropped: RgbaImage)
    requires
        rect_fits(rect, before.spec_width() as int, before.spec_height() as int),
        is_redaction_of(before, after, rect, color),
        is_crop_of(after, rect, cropped),
    ensures
        forall|x: int, y: int| #[trigger] cropped.in_bounds(x, y) ==> cropped.pixel(x, y) == color,
{
    assert forall|x: int, y: int| #[trigger] cropped.in_bounds(x, y) implies cropped.pixel(x, y) == color by {
        assert(after.in_bounds(rect.x + x, rect.y + y));
        assert(rect_covers(rect, rect.x + x, rect.y + y));
    }
}

/// Redacting a rectangle a second time changes nothing.
pub proof fn lemma_redaction_idempotent(before: RgbaImage, once: RgbaImage, twice: RgbaImage, rect: Rect, color: Rgba)
    requires
        is_redaction_of(before, once, rect, color),
        is_redaction_of(once, twice, rect, color),
    ensures
        twice.spec_width() == once.spec_width(),
        twice.spec_height() == once.spec_height(),
        forall|x: int, y: int| #[trigger] twice.in_bounds(x, y) ==> twice.pixel(x, y) == once.pixel(x, y),
        is_redaction_of(before, twice, rect, color),
{
    assert forall|x: int, y: int| #[trigger] twice.in_bounds(x, y) implies twice.pixel(x, y) == once.pixel(x, y) by {
        assert(once.in_bounds(x, y));
    }
    assert forall|x: int, y: int| #[trigger] twice.in_bounds(x, y) implies twice.pixel(x, y) == if rect_covers(rect, x, y) {
        color
    } else {
        before.pixel(x, y)
    } by {
        assert(once.in_bounds(x, y));
    }
}

/// Highlighting keeps every pixel's alpha, and leaves the pixels outside the
/// rectangle as they were.
pub proof fn lemma_highlight_keeps_alpha(before: RgbaImage, after: RgbaImage, rect: Rect)
    requires
        is_highlight_of(before, after, rect),
    ensures
        forall|x: int, y: int| #[trigger] after.in_bounds(x, y) ==> after.pixel(x, y).alpha == before.pixel(x, y).alpha,
        forall|x: int, y: int| #[trigger] after.in_bounds(x, y) && !rect_covers(rect, x, y) ==> after.pixel(x, y) == before.pixel(x, y),
{
}

proof fn lemma_u32_product(a: u32, b: u32)
    ensures
        a as nat * b as nat <= u64::MAX,
{
    assert(a as nat * b as nat <= u64::MAX) by (nonlinear_arith)
        requires
            a <= u32::MAX,
            b <= u32::MAX,
    ;
}

/// A sub-rectangle of an image holds no more pixels than the image.
proof fn lemma_size_bound(w: int, h: int, width: int, height: int, len: int)
    requires
        0 <= w <= width,
        0 <= h <= height,
        len == width * height,
    ensures
        w * h <= len,
        w * h == h * w,
{
    assert(w * h == h * w) by (nonlinear_arith);
    assert(w * h <= width * height) by (nonlinear_arith)
        requires
            0 <= w <= width,
            0 <= h <= height,
    ;
}

} // verus!
