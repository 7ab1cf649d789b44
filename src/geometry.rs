use vstd::prelude::*;

verus! {

/// Width of the reference resolution that all positions are scaled to.
pub const BASE_WIDTH: i64 = 1768;

/// Height of the reference resolution that all positions are scaled to.
pub const BASE_HEIGHT: i64 = 992;

/// The client-area dimensions of the game window.
#[derive(Clone, Copy, Debug, PartialEq, Eq, Structural)]
pub struct Rect {
    pub width: i32,
    pub height: i32,
}

impl Rect {
    pub fn new(width: i32, height: i32) -> (r: Rect)
        ensures
            r.width == width,
            r.height == height,
    {
        Rect { width, height }
    }

    pub fn get_width(&self) -> (r: i32)
        ensures
            r == self.width,
    {
        self.width
    }

    pub fn get_height(&self) -> (r: i32)
        ensures
            r == self.height,
    {
        self.height
    }

    /// Positions can be scaled against a window extent only when both sides are positive.
    pub open spec fn is_valid(self) -> bool {
        self.width > 0 && self.height > 0
    }
}

/// A position in window-client pixels, origin top-left, y growing downward.
#[derive(Clone, Copy, Debug, PartialEq, Eq, Structural)]
pub struct Cursor {
    pub x: i32,
    pub y: i32,
}

impl Cursor {
    pub fn new(x: i32, y: i32) -> (r: Cursor)
        ensures
            r.x == x,
            r.y == y,
    {
        Cursor { x, y }
    }

    pub fn get_x(&self) -> (r: i32)
        ensures
            r == self.x,
    {
        self.x
    }

    pub fn get_y(&self) -> (r: i32)
        ensures
            r == self.y,
    {
        self.y
    }
}

/// An exact position in reference-resolution pixels, y growing upward:
/// the point (`x_num / x_den`, `y_num / y_den`).
#[derive(Clone, Copy, Debug, PartialEq, Eq, Structural)]
pub struct Displacement {
    pub x_num: i64,
    pub x_den: i64,
    pub y_num: i64,
    pub y_den: i64,
}

/// Numerator of a cursor's x coordinate scaled to the reference width; its
/// denominator is the window width.
pub open spec fn scaled_x_num(rect: Rect, c: Cursor) -> int {
    c.x * BASE_WIDTH
}

/// Numerator of a cursor's y coordinate, flipped to grow upward from the
/// bottom edge and scaled to the reference height; its denominator is the
/// window height.
pub open spec fn scaled_y_num(rect: Rect, c: Cursor) -> int {
    (rect.height - c.y) * BASE_HEIGHT
}

/// Scales a cursor position to the reference resolution with the origin at
/// the bottom-left corner.
pub fn scale_position(rect: &Rect, cursor: &Cursor) -> (r: Displacement)
    requires
        rect.is_valid(),
    ensures
        r.x_num == scaled_x_num(*rect, *cursor),
        r.x_den == rect.width,
        r.y_num == scaled_y_num(*rect, *cursor),
        r.y_den == rect.height,
{
    let x_num: i64 = cursor.x as i64 * BASE_WIDTH;
    let y_num: i64 = (rect.height as i64 - cursor.y as i64) * BASE_HEIGHT;
    Displacement { x_num, x_den: rect.width as i64, y_num, y_den: rect.height as i64 }
}

/// The position of `to` relative to `from` against a window extent.
pub open spec fn displacement(rect: Rect, from: Cursor, to: Cursor) -> Displacement {
    Displacement {
        x_num: (scaled_x_num(rect, to) - scaled_x_num(rect, from)) as i64,
        x_den: rect.width as i64,
        y_num: (scaled_y_num(rect, to) - scaled_y_num(rect, from)) as i64,
        y_den: rect.height as i64,
    }
}

/// The position of `to` relative to `from`, in reference-resolution pixels with
/// y growing upward. A window extent with a side that is not positive gives
/// no displacement.
pub fn translate_target_position_relativ_to_origin(rect: &Rect, from: &Cursor, to: &Cursor) -> (r:
    Option<Displacement>)
    ensures
        !rect.is_valid() ==> r.is_none(),
        rect.is_valid() ==> r == Some(displacement(*rect, *from, *to)),
{
    if rect.width <= 0 || rect.height <= 0 {
        return None;
    }
    let f = scale_position(rect, from);
    let t = scale_position(rect, to);
    Some(
        Displacement {
            x_num: t.x_num - f.x_num,
            x_den: rect.width as i64,
            y_num: t.y_num - f.y_num,
            y_den: rect.height as i64,
        },
    )
}

/// The displacement of a point from itself is zero, whatever the valid
/// window extent.
pub proof fn lemma_translate_identity(rect: Rect, p: Cursor)
    requires
        rect.is_valid(),
    ensures
        displacement(rect, p, p).x_num == 0,
        displacement(rect, p, p).y_num == 0,
{
}

/// The exact displacement is the difference of the coordinates, scaled by
/// the reference resolution over the window extent, with y flipped upward.
pub proof fn lemma_displacement_exact(rect: Rect, from: Cursor, to: Cursor)
    requires
        rect.is_valid(),
    ensures
        displacement(rect, from, to).x_num == (to.x - from.x) * BASE_WIDTH,
        displacement(rect, from, to).y_num == (from.y - to.y) * BASE_HEIGHT,
        displacement(rect, from, to).x_den == rect.width,
        displacement(rect, from, to).y_den == rect.height,
{
    assert((to.x - from.x) * BASE_WIDTH == to.x * BASE_WIDTH - from.x * BASE_WIDTH) by (nonlinear_arith);
    assert((from.y - to.y) * BASE_HEIGHT == (rect.height - to.y) * BASE_HEIGHT - (rect.height - from.y) * BASE_HEIGHT) by (nonlinear_arith);
    assert(-4294967295 * 1768 <= (to.x - from.x) * BASE_WIDTH <= 4294967295 * 1768) by (nonlinear_arith)
        requires
            -4294967295 <= to.x - from.x <= 4294967295,
    ;
    assert(-4294967295 * 992 <= (from.y - to.y) * BASE_HEIGHT <= 4294967295 * 992) by (nonlinear_arith)
        requires
            -4294967295 <= from.y - to.y <= 4294967295,
    ;
}

} // verus!
