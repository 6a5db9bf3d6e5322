//! Rectangles given on the command line as `x,y,w,h`, and their check against an image.
use vstd::prelude::*;

use crate::text::{
    all_digits, chars_of, decimal, digits_value, is_digit, lemma_decimal_reads_back, push_decimal,
    push_signed_decimal, push_str, signed_decimal, string_from_chars,
};

verus! {

/// A rectangle in screen or image coordinates; `x` and `y` may be negative.
#[derive(Clone, Copy, Debug, PartialEq, Eq, Structural)]
pub struct Rect {
    pub x: i32,
    pub y: i32,
    pub width: u32,
    pub height: u32,
}

/// A rectangle that was checked to lie inside an image.
#[derive(Clone, Copy, Debug, PartialEq, Eq, Structural)]
pub struct ImageRect {
    x: u32,
    y: u32,
    width: u32,
    height: u32,
}

/// Why a rectangle argument could not be read.
#[derive(Clone, Copy, Debug, PartialEq, Eq, Structural)]
pub enum RectParseError {
    WrongPartCount,
    InvalidNumber,
    Empty,
}

/// Why an image operation refused or failed.
#[derive(Debug)]
pub enum RedactError {
    RectOutOfBounds { image_width: u32, image_height: u32 },
    Open { path: String, reason: String },
    Save { path: String, reason: String },
}

/// The rectangle lies inside a `width` by `height` image.
pub open spec fn rect_fits(rect: Rect, width: int, height: int) -> bool {
    &&& rect.x >= 0
    &&& rect.y >= 0
    &&& rect.x + rect.width <= width
    &&& rect.y + rect.height <= height
}

/// The point `(px, py)` lies inside the rectangle.
pub open spec fn rect_covers(rect: Rect, px: int, py: int) -> bool {
    &&& rect.x <= px < rect.x + rect.width
    &&& rect.y <= py < rect.y + rect.height
}

impl ImageRect {
    pub closed spec fn spec_x(&self) -> u32 {
        self.x
    }

    pub closed spec fn spec_y(&self) -> u32 {
        self.y
    }

    pub closed spec fn spec_width(&self) -> u32 {
        self.width
    }

    pub closed spec fn spec_height(&self) -> u32 {
        self.height
    }

    #[verifier::when_used_as_spec(spec_x)]
    pub fn x(&self) -> (r: u32)
        ensures
            r == self.spec_x(),
    {
        self.x
    }

    #[verifier::when_used_as_spec(spec_y)]
    pub fn y(&self) -> (r: u32)
        ensures
            r == self.spec_y(),
    {
        self.y
    }

    #[verifier::when_used_as_spec(spec_width)]
    pub fn width(&self) -> (r: u32)
        ensures
            r == self.spec_width(),
    {
        self.width
    }

    #[verifier::when_used_as_spec(spec_height)]
    pub fn height(&self) -> (r: u32)
        ensures
            r == self.spec_height(),
    {
        self.height
    }
}

impl Rect {
    /// Checks that the rectangle lies inside an image of the given size.
    ///
    /// Rectangles are refused rather than clipped: a negative corner, or one
    /// that reaches past the right or bottom edge, is an error that names the
    /// image size.
    pub fn checked_for_image(self, image_width: u32, image_height: u32) -> (r: Result<ImageRect, RedactError>)
        ensures
            rect_fits(self, image_width as int, image_height as int) ==> (r matches Ok(ir) && ir.x()
                == self.x && ir.y() == self.y && ir.width() == self.width && ir.height()
                == self.height),
            !rect_fits(self, image_width as int, image_height as int) ==> (r matches Err(
                RedactError::RectOutOfBounds { image_width: w, image_height: h },
            ) && w == image_width && h == image_height),
    {
        if self.x < 0 || self.y < 0 {
            return Err(RedactError::RectOutOfBounds { image_width, image_height });
        }
        let x = self.x as u32;
        let y = self.y as u32;
        let right = match x.checked_add(self.width) {
            Some(right) => right,
            None => return Err(RedactError::RectOutOfBounds { image_width, image_height }),
        };
        let bottom = match y.checked_add(self.height) {
            Some(bottom) => bottom,
            None => return Err(RedactError::RectOutOfBounds { image_width, image_height }),
        };
        if right > image_width || bottom > image_height {
            return Err(RedactError::RectOutOfBounds { image_width, image_height });
        }
        Ok(ImageRect { x, y, width: self.width, height: self.height })
    }

    /// The rectangle written back as `x,y,w,h`.
    pub fn to_text(&self) -> (s: String)
        ensures
            s@ == rect_text(*self),
    {
        let mut out: Vec<char> = Vec::new();
        push_signed_decimal(&mut out, self.x as i64);
        out.push(',');
        push_signed_decimal(&mut out, self.y as i64);
        out.push(',');
        push_decimal(&mut out, self.width as u64);
        out.push(',');
        push_decimal(&mut out, self.height as u64);
        string_from_chars(&out)
    }

    /// Reads a rectangle written as `x,y,w,h`.
    ///
    /// Each part may carry surrounding whitespace; `x` and `y` are signed
    /// 32-bit numbers, `w` and `h` unsigned ones. A count of parts other than
    /// four, a part that is no such number, and a zero width or height are
    /// refused, in that order of precedence.
    pub fn parse(value: &str) -> (r: Result<Rect, RectParseError>)
        ensures
            r == parse_rect_spec(value@),
    {
        let chars = chars_of(value);
        let parts = split_commas(&chars);
        if parts.len() != 4 {
            return Err(RectParseError::WrongPartCount);
        }
        let x = parse_i32(&trim(&parts[0]));
        let y = parse_i32(&trim(&parts[1]));
        let width = parse_u32(&trim(&parts[2]));
        let height = parse_u32(&trim(&parts[3]));
        proof {
            let ps = split_on_comma(value@);
            assert(parts@.len() == 4);
            assert(parts@[0]@ == ps[0]);
            assert(parts@[1]@ == ps[1]);
            assert(parts@[2]@ == ps[2]);
            assert(parts@[3]@ == ps[3]);
        }
        match (x, y, width, height) {
            (Some(x), Some(y), Some(width), Some(height)) => {
                if width == 0 || height == 0 {
                    Err(RectParseError::Empty)
                } else {
                    Ok(Rect { x, y, width, height })
                }
            },
            _ => Err(RectParseError::InvalidNumber),
        }
    }
}

/// `x,y,w,h` in decimal.
pub open spec fn rect_text(rect: Rect) -> Seq<char> {
    signed_decimal(rect.x as int) + seq![','] + signed_decimal(rect.y as int) + seq![',']
        + decimal(rect.width as nat) + seq![','] + decimal(rect.height as nat)
}

impl RectParseError {
    /// The text shown for the error.
    pub fn message(&self) -> (s: String)
        ensures
            s@ == match *self {
                RectParseError::WrongPartCount => "rect must use x,y,w,h"@,
                RectParseError::InvalidNumber => "rect contains an invalid number"@,
                RectParseError::Empty => "rect width and height must be greater than zero"@,
            },
    {
        match self {
            RectParseError::WrongPartCount => String::from_str("rect must use x,y,w,h"),
            RectParseError::InvalidNumber => String::from_str("rect contains an invalid number"),
            RectParseError::Empty => String::from_str(
                "rect width and height must be greater than zero",
            ),
        }
    }
}

/// The text shown for an image operation error.
pub open spec fn redact_error_text(e: RedactError) -> Seq<char> {
    match e {
        RedactError::RectOutOfBounds { image_width, image_height } => "rect is outside image bounds ("@
            + decimal(image_width as nat) + seq!['x'] + decimal(image_height as nat) + seq![')'],
        RedactError::Open { path, reason } => "failed to open "@ + path@ + ": "@ + reason@,
        RedactError::Save { path, reason } => "failed to save "@ + path@ + ": "@ + reason@,
    }
}

impl RedactError {
    /// The text shown for the error.
    pub fn message(&self) -> (s: String)
        ensures
            s@ == redact_error_text(*self),
    {
        let mut out: Vec<char> = Vec::new();
        match self {
            RedactError::RectOutOfBounds { image_width, image_height } => {
                push_str(&mut out, "rect is outside image bounds (");
                push_decimal(&mut out, *image_width as u64);
                out.push('x');
                push_decimal(&mut out, *image_height as u64);
                out.push(')');
            },
            RedactError::Open { path, reason } => {
                push_str(&mut out, "failed to open ");
                push_str(&mut out, path.as_str());
                push_str(&mut out, ": ");
                push_str(&mut out, reason.as_str());
            },
            RedactError::Save { path, reason } => {
                push_str(&mut out, "failed to save ");
                push_str(&mut out, path.as_str());
                push_str(&mut out, ": ");
                push_str(&mut out, reason.as_str());
            },
        }
        string_from_chars(&out)
    }
}

// ---------------------------------------------------------------------------
// Reading `x,y,w,h`
// ---------------------------------------------------------------------------

/// `char::is_whitespace`: the Unicode `White_Space` property.
pub open spec fn is_white_space(c: char) -> bool {
    ||| ('\u{9}' <= c && c <= '\u{d}')
    ||| c == ' '
    ||| c == '\u{85}'
    ||| c == '\u{a0}'
    ||| c == '\u{1680}'
    ||| ('\u{2000}' <= c && c <= '\u{200a}')
    ||| c == '\u{2028}'
    ||| c == '\u{2029}'
    ||| c == '\u{202f}'
    ||| c == '\u{205f}'
    ||| c == '\u{3000}'
}

pub fn is_whitespace(c: char) -> (r: bool)
    ensures
        r == is_white_space(c),
{
    ('\u{9}' <= c && c <= '\u{d}') || c == ' ' || c == '\u{85}' || c == '\u{a0}' || c == '\u{1680}'
        || ('\u{2000}' <= c && c <= '\u{200a}') || c == '\u{2028}' || c == '\u{2029}' || c
        == '\u{202f}' || c == '\u{205f}' || c == '\u{3000}'
}

/// The text split at every comma, as `str::split(',')` does.
pub open spec fn split_on_comma(s: Seq<char>) -> Seq<Seq<char>>
    decreases s.len(),
{
    if s.len() == 0 {
        seq![Seq::<char>::empty()]
    } else {
        let rest = split_on_comma(s.drop_last());
        if s.last() == ',' {
            rest.push(Seq::<char>::empty())
        } else {
            rest.update(rest.len() - 1, rest.last().push(s.last()))
        }
    }
}

proof fn lemma_split_nonempty(s: Seq<char>)
    ensures
        split_on_comma(s).len() >= 1,
    decreases s.len(),
{
    if s.len() > 0 {
        lemma_split_nonempty(s.drop_last());
    }
}

fn split_commas(chars: &Vec<char>) -> (parts: Vec<Vec<char>>)
    ensures
        parts@.len() == split_on_comma(chars@).len(),
        forall|i: int| 0 <= i < parts@.len() ==> #[trigger] parts@[i]@ == split_on_comma(chars@)[i],
{
    let mut parts: Vec<Vec<char>> = Vec::new();
    let mut current: Vec<char> = Vec::new();
    let mut i: usize = 0;
    assert(chars@.take(0) =~= Seq::<char>::empty());
    while i < chars.len()
        invariant
            i <= chars@.len(),
            parts@.len() + 1 == split_on_comma(chars@.take(i as int)).len(),
            forall|k: int| 0 <= k < parts@.len() ==> #[trigger] parts@[k]@ == split_on_comma(chars@.take(i as int))[k],
            current@ == split_on_comma(chars@.take(i as int)).last(),
        decreases chars@.len() - i,
    {
        let ghost before = chars@.take(i as int);
        let ghost after = chars@.take(i + 1);
        assert(after.drop_last() =~= before);
        assert(after.last() == chars@[i as int]);
        proof {
            lemma_split_nonempty(before);
        }
        let c = chars[i];
        if c == ',' {
            parts.push(current);
            current = Vec::new();
            assert(split_on_comma(after) == split_on_comma(before).push(Seq::<char>::empty()));
        } else {
            current.push(c);
            assert(split_on_comma(after) == split_on_comma(before).update(
                split_on_comma(before).len() - 1,
                split_on_comma(before).last().push(c),
            ));
        }
        i = i + 1;
    }
    assert(chars@.take(chars@.len() as int) =~= chars@);
    parts.push(current);
    parts
}

pub open spec fn trim_start(s: Seq<char>) -> Seq<char>
    decreases s.len(),
{
    if s.len() > 0 && is_white_space(s[0]) {
        trim_start(s.drop_first())
    } else {
        s
    }
}

pub open spec fn trim_end(s: Seq<char>) -> Seq<char>
    decreases s.len(),
{
    if s.len() > 0 && is_white_space(s.last()) {
        trim_end(s.drop_last())
    } else {
        s
    }
}

/// `str::trim`: the text without its leading and trailing whitespace.
pub open spec fn trim_spec(s: Seq<char>) -> Seq<char> {
    trim_end(trim_start(s))
}

proof fn lemma_trim_start_skip(s: Seq<char>, i: int)
    requires
        0 <= i <= s.len(),
        forall|k: int| 0 <= k < i ==> is_white_space(#[trigger] s[k]),
    ensures
        trim_start(s) == trim_start(s.subrange(i, s.len() as int)),
    decreases i,
{
    if i > 0 {
        assert(s.drop_first().subrange(i - 1, s.drop_first().len() as int) =~= s.subrange(i, s.len() as int));
        lemma_trim_start_skip(s.drop_first(), i - 1);
    } else {
        assert(s.subrange(0, s.len() as int) =~= s);
    }
}

proof fn lemma_trim_end_skip(s: Seq<char>, j: int)
    requires
        0 <= j <= s.len(),
        forall|k: int| j <= k < s.len() ==> is_white_space(#[trigger] s[k]),
    ensures
        trim_end(s) == trim_end(s.subrange(0, j)),
    decreases s.len() - j,
{
    if j < s.len() {
        assert(s.drop_last().subrange(0, j) =~= s.subrange(0, j));
        lemma_trim_end_skip(s.drop_last(), j);
    } else {
        assert(s.subrange(0, j) =~= s);
    }
}

fn trim(s: &Vec<char>) -> (r: Vec<char>)
    ensures
        r@ == trim_spec(s@),
{
    let mut start: usize = 0;
    while start < s.len() && is_whitespace(s[start])
        invariant
            start <= s@.len(),
            forall|k: int| 0 <= k < start ==> is_white_space(#[trigger] s@[k]),
        decreases s@.len() - start,
    {
        start = start + 1;
    }
    proof {
        lemma_trim_start_skip(s@, start as int);
    }
    let ghost rest = s@.subrange(start as int, s@.len() as int);
    assert(trim_start(rest) == rest);
    let mut end: usize = s.len();
    while end > start && is_whitespace(s[end - 1])
        invariant
            start <= end <= s@.len(),
            rest == s@.subrange(start as int, s@.len() as int),
            forall|k: int| end <= k < s@.len() ==> is_white_space(#[trigger] s@[k]),
        decreases end,
    {
        end = end - 1;
    }
    proof {
        assert forall|k: int| end - start <= k < rest.len() implies is_white_space(#[trigger] rest[k]) by {
            assert(rest[k] == s@[k + start]);
        }
        lemma_trim_end_skip(rest, end - start);
        let core = rest.subrange(0, end - start);
        if core.len() > 0 {
            assert(core.last() == s@[end - 1]);
        }
        assert(trim_end(core) == core);
    }
    let mut r: Vec<char> = Vec::new();
    let mut k: usize = start;
    while k < end
        invariant
            start <= k <= end <= s@.len(),
            r@ == s@.subrange(start as int, k as int),
        decreases end - k,
    {
        r.push(s[k]);
        assert(s@.subrange(start as int, k + 1) =~= s@.subrange(start as int, k as int).push(s@[k as int]));
        k = k + 1;
    }
    assert(r@ =~= rest.subrange(0, end - start));
    r
}

/// The value of a run of ASCII digits, if the run is non-empty and every character is a digit.
pub open spec fn digit_run_value(s: Seq<char>) -> Option<nat> {
    if s.len() > 0 && all_digits(s) {
        Some(digits_value(s))
    } else {
        None
    }
}

/// `u32::from_str`: an optional `+`, then decimal digits, within range.
pub open spec fn parse_u32_spec(s: Seq<char>) -> Option<u32> {
    let body = if s.len() > 0 && s[0] == '+' { s.drop_first() } else { s };
    match digit_run_value(body) {
        Some(v) => if v <= u32::MAX { Some(v as u32) } else { None },
        None => None,
    }
}

/// `i32::from_str`: an optional `+` or `-`, then decimal digits, within range.
pub open spec fn parse_i32_spec(s: Seq<char>) -> Option<i32> {
    if s.len() > 0 && s[0] == '-' {
        match digit_run_value(s.drop_first()) {
            Some(v) => if v <= 0x8000_0000 { Some((-v) as i32) } else { None },
            None => None,
        }
    } else {
        let body = if s.len() > 0 && s[0] == '+' { s.drop_first() } else { s };
        match digit_run_value(body) {
            Some(v) => if v <= i32::MAX { Some(v as i32) } else { None },
            None => None,
        }
    }
}

/// What reading `x,y,w,h` gives.
pub open spec fn parse_rect_spec(s: Seq<char>) -> Result<Rect, RectParseError> {
    let parts = split_on_comma(s);
    if parts.len() != 4 {
        Err(RectParseError::WrongPartCount)
    } else {
        match (
            parse_i32_spec(trim_spec(parts[0])),
            parse_i32_spec(trim_spec(parts[1])),
            parse_u32_spec(trim_spec(parts[2])),
            parse_u32_spec(trim_spec(parts[3])),
        ) {
            (Some(x), Some(y), Some(width), Some(height)) => if width == 0 || height == 0 {
                Err(RectParseError::Empty)
            } else {
                Ok(Rect { x, y, width, height })
            },
            _ => Err(RectParseError::InvalidNumber),
        }
    }
}

proof fn lemma_digits_value_grows(s: Seq<char>, k: int)
    requires
        0 <= k <= s.len(),
        all_digits(s),
    ensures
        digits_value(s.take(k)) <= digits_value(s),
    decreases s.len() - k,
{
    if k < s.len() {
        lemma_digits_value_grows(s, k + 1);
        assert(s.take(k + 1).drop_last() =~= s.take(k));
        assert(is_digit(s[k]));
    } else {
        assert(s.take(k) =~= s);
    }
}

/// The value of the digits `s[from..]` if they are all digits, there is at
/// least one, and the value is at most `bound`.
fn digits_up_to(s: &Vec<char>, from: usize, bound: u64) -> (r: Option<u64>)
    requires
        from <= s@.len(),
        bound <= u32::MAX + 1,
    ensures
        r == (match digit_run_value(s@.skip(from as int)) {
            Some(v) => if v <= bound { Some(v as u64) } else { None },
            None => None,
        }),
{
    let ghost body = s@.skip(from as int);
    if from == s.len() {
        return None;
    }
    let mut value: u64 = 0;
    let mut i: usize = from;
    while i < s.len()
        invariant
            from <= i <= s@.len(),
            body == s@.skip(from as int),
            bound <= u32::MAX + 1,
            all_digits(body.take(i - from)),
            value == digits_value(body.take(i - from)),
            value <= bound,
        decreases s@.len() - i,
    {
        let c = s[i];
        assert(body[i - from] == c);
        if c < '0' || c > '9' {
            return None;
        }
        let d = (c as u32 - '0' as u32) as u64;
        assert(body.take(i + 1 - from).drop_last() =~= body.take(i - from));
        assert(body.take(i + 1 - from).last() == c);
        let next = value * 10 + d;
        assert(digits_value(body.take(i + 1 - from)) == next);
        if next > bound {
            proof {
                assert(all_digits(body.take(i + 1 - from)));
                if all_digits(body) {
                    assert(body.take(i + 1 - from) =~= body.take(i + 1 - from));
                    lemma_digits_value_grows(body, i + 1 - from);
                }
            }
            return None;
        }
        value = next;
        i = i + 1;
    }
    assert(body.take(i - from) =~= body);
    Some(value)
}

fn parse_u32(s: &Vec<char>) -> (r: Option<u32>)
    ensures
        r == parse_u32_spec(s@),
{
    let from: usize = if s.len() > 0 && s[0] == '+' { 1 } else { 0 };
    assert(s@.skip(from as int) == (if s@.len() > 0 && s@[0] == '+' { s@.drop_first() } else { s@ }));
    match digits_up_to(s, from, 0xffff_ffffu64) {
        Some(v) => Some(v as u32),
        None => None,
    }
}

fn parse_i32(s: &Vec<char>) -> (r: Option<i32>)
    ensures
        r == parse_i32_spec(s@),
{
    if s.len() > 0 && s[0] == '-' {
        assert(s@.skip(1) =~= s@.drop_first());
        match digits_up_to(s, 1, 0x8000_0000u64) {
            Some(v) => Some((0 - v as i64) as i32),
            None => None,
        }
    } else {
        let from: usize = if s.len() > 0 && s[0] == '+' { 1 } else { 0 };
        assert(s@.skip(from as int) == (if s@.len() > 0 && s@[0] == '+' { s@.drop_first() } else { s@ }));
        match digits_up_to(s, from, 0x7fff_ffffu64) {
            Some(v) => Some(v as i32),
            None => None,
        }
    }
}

// ---------------------------------------------------------------------------
// Writing a rectangle and reading it back
// ---------------------------------------------------------------------------

pub open spec fn no_comma(s: Seq<char>) -> bool {
    forall|i: int| 0 <= i < s.len() ==> #[trigger] s[i] != ','
}

proof fn lemma_split_single(b: Seq<char>)
    requires
        no_comma(b),
    ensures
        split_on_comma(b) == seq![b],
    decreases b.len(),
{
    if b.len() > 0 {
        let rest = b.drop_last();
        assert(no_comma(rest));
        lemma_split_single(rest);
        assert(b.last() == b[b.len() - 1]);
        assert(rest.push(b.last()) =~= b);
        assert(seq![rest].update(0, rest.push(b.last())) =~= seq![b]);
    } else {
        assert(b =~= Seq::<char>::empty());
    }
}

proof fn lemma_split_after_comma(a: Seq<char>, b: Seq<char>)
    requires
        no_comma(b),
    ensures
        split_on_comma(a + seq![','] + b) == split_on_comma(a).push(b),
    decreases b.len(),
{
    let c = a + seq![','] + b;
    if b.len() == 0 {
        assert(c.drop_last() =~= a);
        assert(c.last() == ',');
        assert(b =~= Seq::<char>::empty());
    } else {
        let rest = b.drop_last();
        assert(no_comma(rest));
        lemma_split_after_comma(a, rest);
        assert(c.drop_last() =~= a + seq![','] + rest);
        assert(c.last() == b[b.len() - 1]);
        let before = split_on_comma(a).push(rest);
        assert(before.update(before.len() - 1, rest.push(b.last())) =~= split_on_comma(a).push(b)) by {
            assert(rest.push(b.last()) =~= b);
        }
    }
}

proof fn lemma_decimal_shape(n: nat)
    ensures
        no_comma(decimal(n)),
        decimal(n).len() >= 1,
        is_digit(decimal(n)[0]),
        is_digit(decimal(n).last()),
        trim_spec(decimal(n)) == decimal(n),
{
    lemma_decimal_reads_back(n);
    let s = decimal(n);
    assert forall|i: int| 0 <= i < s.len() implies #[trigger] s[i] != ',' by {
        assert(is_digit(s[i]));
    }
    assert(is_digit(s[0]));
    assert(is_digit(s[s.len() - 1]));
}

proof fn lemma_signed_decimal_shape(i: int)
    ensures
        no_comma(signed_decimal(i)),
        trim_spec(signed_decimal(i)) == signed_decimal(i),
{
    if i < 0 {
        let d = decimal((-i) as nat);
        lemma_decimal_shape((-i) as nat);
        let s = seq!['-'] + d;
        assert forall|k: int| 0 <= k < s.len() implies #[trigger] s[k] != ',' by {
            if k > 0 {
                assert(s[k] == d[k - 1]);
            }
        }
        assert(s.last() == d.last());
        assert(trim_start(s) == s);
        assert(trim_end(s) == s);
    } else {
        lemma_decimal_shape(i as nat);
    }
}

proof fn lemma_read_i32(x: i32)
    ensures
        parse_i32_spec(signed_decimal(x as int)) == Some(x),
{
    if x < 0 {
        let d = decimal((-x) as nat);
        lemma_decimal_reads_back((-x) as nat);
        assert((seq!['-'] + d).drop_first() =~= d);
    } else {
        lemma_decimal_shape(x as nat);
        lemma_decimal_reads_back(x as nat);
    }
}

proof fn lemma_read_u32(w: u32)
    ensures
        parse_u32_spec(decimal(w as nat)) == Some(w),
{
    lemma_decimal_shape(w as nat);
    lemma_decimal_reads_back(w as nat);
}

/// Writing a rectangle as `x,y,w,h` and reading the text back gives the same
/// rectangle, for every rectangle that reading accepts (one with a width and
/// height above zero).
pub proof fn lemma_rect_text_reads_back(rect: Rect)
    requires
        rect.width > 0,
        rect.height > 0,
    ensures
        parse_rect_spec(rect_text(rect)) == Ok::<Rect, RectParseError>(rect),
{
    let xs = signed_decimal(rect.x as int);
    let ys = signed_decimal(rect.y as int);
    let ws = decimal(rect.width as nat);
    let hs = decimal(rect.height as nat);
    lemma_signed_decimal_shape(rect.x as int);
    lemma_signed_decimal_shape(rect.y as int);
    lemma_decimal_shape(rect.width as nat);
    lemma_decimal_shape(rect.height as nat);
    lemma_split_single(xs);
    lemma_split_after_comma(xs, ys);
    lemma_split_after_comma(xs + seq![','] + ys, ws);
    lemma_split_after_comma(xs + seq![','] + ys + seq![','] + ws, hs);
    let parts = split_on_comma(rect_text(rect));
    assert(parts =~= seq![xs, ys, ws, hs]);
    lemma_read_i32(rect.x);
    lemma_read_i32(rect.y);
    lemma_read_u32(rect.width);
    lemma_read_u32(rect.height);
}

impl std::str::FromStr for Rect {
    type Err = RectParseError;

    /// Reads a rectangle written as `x,y,w,h`; see [`Rect::parse`].
    fn from_str(value: &str) -> (r: Result<Self, Self::Err>)
        ensures
            r == parse_rect_spec(value@),
    {
        Rect::parse(value)
    }
}

} // verus!
