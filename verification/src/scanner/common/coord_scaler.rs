//! From the base resolution to that of the game window.
use vstd::prelude::*;

verus! {

/// The width of the base resolution.
pub const BASE_WIDTH: i64 = 1920;

/// The height of the base resolution.
pub const BASE_HEIGHT: i64 = 1080;

/// Brings coordinates at the base resolution to the size of the game window.
#[derive(Debug, Clone, Copy)]
pub struct CoordScaler {
    pub game_width: u32,
    pub game_height: u32,
}

/// A place at the actual resolution.
#[derive(Debug, Clone, Copy, PartialEq, Eq, Structural)]
pub struct Pos {
    pub x: i32,
    pub y: i32,
}

/// A rectangle at the actual resolution.
#[derive(Debug, Clone, Copy, PartialEq, Eq, Structural)]
pub struct Rect {
    pub left: i32,
    pub top: i32,
    pub width: i32,
    pub height: i32,
}

/// `val` parts out of `base` of a size, rounded towards zero.
pub open spec fn share(val: int, size: int, base: int) -> int {
    if val >= 0 {
        val * size / base
    } else {
        -((-val) * size / base)
    }
}

/// A number brought into the range of `i32`.
pub open spec fn to_i32(n: int) -> int {
    if n > i32::MAX {
        i32::MAX as int
    } else if n < i32::MIN {
        i32::MIN as int
    } else {
        n
    }
}

fn scaled(val: i32, size: u32, base: i64) -> (out: i32)
    requires
        base > 0,
    ensures
        out == to_i32(share(val as int, size as int, base as int)),
{
    let v: i64 = val as i64;
    let s: i64 = size as i64;
    let m: i64 = if v >= 0 {
        v
    } else {
        -v
    };
    assert(0 <= m * s <= 0x8000_0000 * 0xffff_ffff) by (nonlinear_arith)
        requires
            0 <= m <= 0x8000_0000,
            0 <= s <= 0xffff_ffff,
    ;
    let q: i64 = m * s / base;
    assert(0 <= q <= m * s) by (nonlinear_arith)
        requires
            q == m * s / (base as int),
            base > 0,
            0 <= m * s,
    ;
    let signed: i64 = if v >= 0 {
        q
    } else {
        -q
    };
    if signed > 0x7fff_ffff {
        0x7fff_ffff
    } else if signed < -0x8000_0000 {
        -0x8000_0000
    } else {
        signed as i32
    }
}

impl CoordScaler {
    /// A horizontal measure at the actual resolution.
    pub open spec fn sx(&self, val: int) -> int {
        to_i32(share(val, self.game_width as int, BASE_WIDTH as int))
    }

    /// A vertical measure at the actual resolution.
    pub open spec fn sy(&self, val: int) -> int {
        to_i32(share(val, self.game_height as int, BASE_HEIGHT as int))
    }

    /// A scaler for the size of the game window.
    pub fn new(game_width: u32, game_height: u32) -> (s: Self)
        ensures
            s.game_width == game_width,
            s.game_height == game_height,
    {
        CoordScaler { game_width, game_height }
    }

    /// A horizontal measure at the actual resolution.
    pub fn x(&self, val: i32) -> (out: i32)
        ensures
            out == self.sx(val as int),
    {
        scaled(val, self.game_width, BASE_WIDTH)
    }

    /// A vertical measure at the actual resolution.
    pub fn y(&self, val: i32) -> (out: i32)
        ensures
            out == self.sy(val as int),
    {
        scaled(val, self.game_height, BASE_HEIGHT)
    }

    /// A horizontal measure in twentieths of a base pixel at the actual
    /// resolution.
    pub open spec fn sx_fine(&self, val: int) -> int {
        to_i32(share(val, self.game_width as int, BASE_WIDTH * 20))
    }

    /// A horizontal measure in twentieths of a base pixel at the actual
    /// resolution.
    pub fn x_fine(&self, val: i32) -> (out: i32)
        ensures
            out == self.sx_fine(val as int),
    {
        scaled(val, self.game_width, BASE_WIDTH * 20)
    }

    /// A place at the actual resolution.
    pub fn pos(&self, x: i32, y: i32) -> (p: Pos)
        ensures
            p.x == self.sx(x as int),
            p.y == self.sy(y as int),
    {
        Pos { x: self.x(x), y: self.y(y) }
    }

    /// A place at the actual resolution.
    pub fn scale_pos_i32(&self, pos: &Pos) -> (p: Pos)
        ensures
            p.x == self.sx(pos.x as int),
            p.y == self.sy(pos.y as int),
    {
        self.pos(pos.x, pos.y)
    }

    /// A rectangle at the actual resolution.
    pub fn rect(&self, x: i32, y: i32, w: i32, h: i32) -> (r: Rect)
        ensures
            r.left == self.sx(x as int),
            r.top == self.sy(y as int),
            r.width == self.sx(w as int),
            r.height == self.sy(h as int),
    {
        Rect { left: self.x(x), top: self.y(y), width: self.x(w), height: self.y(h) }
    }

    /// A rectangle at the actual resolution.
    pub fn scale_rect_i32(&self, rect: &Rect) -> (r: Rect)
        ensures
            r.left == self.sx(rect.left as int),
            r.top == self.sy(rect.top as int),
            r.width == self.sx(rect.width as int),
            r.height == self.sy(rect.height as int),
    {
        self.rect(rect.left, rect.top, rect.width, rect.height)
    }
}

/// At the base resolution every measure stays as it is.
pub proof fn base_resolution_is_identity(s: CoordScaler, val: i32)
    requires
        s.game_width == BASE_WIDTH,
        s.game_height == BASE_HEIGHT,
    ensures
        s.sx(val as int) == val,
        s.sy(val as int) == val,
{
    let m = if val >= 0 {
        val as int
    } else {
        -(val as int)
    };
    assert(m * 1920 / 1920 == m);
    assert(m * 1080 / 1080 == m);
}

/// The whole base size becomes the whole window.
pub proof fn base_size_fills_window(s: CoordScaler)
    requires
        s.game_width <= i32::MAX,
        s.game_height <= i32::MAX,
    ensures
        s.sx(BASE_WIDTH as int) == s.game_width,
        s.sy(BASE_HEIGHT as int) == s.game_height,
{
    assert(1920 * (s.game_width as int) / 1920 == s.game_width);
    assert(1080 * (s.game_height as int) / 1080 == s.game_height);
}

/// Scaling keeps the order of measures.
pub proof fn scaling_is_monotone(s: CoordScaler, a: int, b: int)
    requires
        0 <= a <= b,
    ensures
        0 <= s.sx(a) <= s.sx(b),
        0 <= s.sy(a) <= s.sy(b),
{
    let w = s.game_width as int;
    let h = s.game_height as int;
    assert(0 <= a * w <= b * w) by (nonlinear_arith)
        requires
            0 <= a <= b,
            0 <= w,
    ;
    assert(0 <= a * h <= b * h) by (nonlinear_arith)
        requires
            0 <= a <= b,
            0 <= h,
    ;
}

/// A measure has the same share of the window as of 1920 by 1080 pixels, up to a
/// pixel; a fine one counts twentieths.
pub proof fn measures_keep_their_share(s: CoordScaler, val: int)
    requires
        0 <= val <= 40_000,
        s.game_width <= 20_000,
        s.game_height <= 20_000,
    ensures
        1920 * s.sx(val) <= val * s.game_width < 1920 * s.sx(val) + 1920,
        1080 * s.sy(val) <= val * s.game_height < 1080 * s.sy(val) + 1080,
        38400 * s.sx_fine(val) <= val * s.game_width < 38400 * s.sx_fine(val) + 38400,
        s.sx(-val) == -s.sx(val),
        s.sy(-val) == -s.sy(val),
{
    assert(0 <= val * s.game_width <= 40_000 * 20_000) by (nonlinear_arith)
        requires
            0 <= val <= 40_000,
            s.game_width <= 20_000,
    ;
    assert(0 <= val * s.game_height <= 40_000 * 20_000) by (nonlinear_arith)
        requires
            0 <= val <= 40_000,
            s.game_height <= 20_000,
    ;
    if val == 0 {
        assert(val * s.game_width == 0 && val * s.game_height == 0) by (nonlinear_arith)
            requires
                val == 0,
        ;
    }
}

} // verus!
