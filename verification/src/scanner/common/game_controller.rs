//! Watching the game while it is operated.
use crate::image::{brightness, pixel_brightness, Rgb, RgbImage};
use crate::scanner::common::coord_scaler::{share, to_i32, CoordScaler, Pos, BASE_HEIGHT, BASE_WIDTH};
use crate::scanner::common::pixel_utils::{base_pixel, pixel_at_base};
use vstd::prelude::*;

verus! {

/// The red parts of the first `n` pixels of raw bytes, added up.
pub open spec fn red_sum(raw: Seq<u8>, n: nat) -> int
    decreases n,
{
    if n == 0 {
        0
    } else {
        red_sum(raw, (n - 1) as nat) + raw[(n - 1) * 3]
    }
}

/// The red parts of all pixels of raw bytes, added up.
pub fn calc_pool(raw: &[u8]) -> (pool: u128)
    ensures
        pool == red_sum(raw@, (raw@.len() / 3) as nat),
{
    let len: usize = raw.len();
    let n: usize = len / 3;
    let mut pool: u128 = 0;
    let mut i: usize = 0;
    while i < n
        invariant
            len == raw@.len(),
            n == len / 3,
            i <= n,
            pool == red_sum(raw@, i as nat),
            pool <= i * 255,
        decreases n - i,
    {
        let red: u8 = raw[i * 3];
        pool = pool + red as u128;
        i = i + 1;
    }
    pool
}

/// The square of the distance between two colours.
pub open spec fn squared_distance(a: Rgb, b: Rgb) -> int {
    (a.0 - b.0) * (a.0 - b.0) + (a.1 - b.1) * (a.1 - b.1) + (a.2 - b.2) * (a.2 - b.2)
}

fn squared_gap(a: u8, b: u8) -> (s: u32)
    ensures
        s == (a - b) * (a - b),
        s <= 65025,
{
    let d: i32 = a as i32 - b as i32;
    assert(0 <= d * d <= 65025) by (nonlinear_arith)
        requires
            -255 <= d <= 255,
    ;
    (d * d) as u32
}

/// The square of the distance between two colours.
pub fn color_distance(c1: Rgb, c2: Rgb) -> (d: usize)
    ensures
        d == squared_distance(c1, c2),
{
    (squared_gap(c1.0, c2.0) + squared_gap(c1.1, c2.1) + squared_gap(c1.2, c2.2)) as usize
}

/// A place is bright enough to belong to the menu button of the main screen.
pub open spec fn bright_at(image: RgbImage, scaler: CoordScaler, x: int, y: int) -> bool {
    match base_pixel(image, scaler, x, y) {
        Some(p) => brightness(p) > 160,
        None => false,
    }
}

/// 1 for yes, 0 for no.
pub open spec fn one_if(yes: bool) -> int {
    if yes {
        1
    } else {
        0
    }
}

fn is_bright(image: &RgbImage, scaler: &CoordScaler, x: i32, y: i32) -> (n: u32)
    ensures
        n == one_if(bright_at(*image, *scaler, x as int, y as int)),
{
    match pixel_at_base(image, scaler, x, y) {
        Some(p) => if pixel_brightness(p) > 160 {
            1
        } else {
            0
        },
        None => 0,
    }
}

/// How many of five places on the menu button are bright.
pub open spec fn menu_places(image: RgbImage, scaler: CoordScaler) -> int {
    one_if(bright_at(image, scaler, 62, 51)) + one_if(bright_at(image, scaler, 53, 47)) + one_if(
        bright_at(image, scaler, 49, 35),
    ) + one_if(bright_at(image, scaler, 55, 70)) + one_if(bright_at(image, scaler, 67, 77))
}

/// Whether a screenshot looks like the main screen: at least three of five
/// places on the menu button are bright.
pub fn is_likely_main_world(image: &RgbImage, scaler: &CoordScaler) -> (yes: bool)
    ensures
        yes == (menu_places(*image, *scaler) >= 3),
{
    let n: u32 = is_bright(image, scaler, 62, 51) + is_bright(image, scaler, 53, 47) + is_bright(
        image,
        scaler,
        49,
        35,
    ) + is_bright(image, scaler, 55, 70) + is_bright(image, scaler, 67, 77);
    n >= 3
}

/// What to do next on the way to the main screen.
#[derive(Debug, Clone, Copy, PartialEq, Eq, Structural)]
pub enum ReturnStep {
    /// Press Escape, wait and look.
    Escape,
    /// Press Enter and then Escape, wait and look.
    EnterEscape,
    /// Stop; the main screen was reached or not.
    Finish { reached: bool },
}

/// The way to the main screen.
#[derive(Debug, Clone, Copy, PartialEq, Eq, Structural)]
pub struct ReturnHome {
    pub max_attempts: u32,
    /// How often Escape was pressed.
    pub attempts: u32,
    /// Enter and Escape were tried.
    pub fallback: bool,
}

/// Starts on the way to the main screen.
pub fn return_to_main_ui(max_attempts: u32) -> (r: ReturnHome)
    ensures
        r.max_attempts == max_attempts,
        r.attempts == 0,
        !r.fallback,
{
    ReturnHome { max_attempts, attempts: 0, fallback: false }
}

/// The way to the main screen and its next step after a look at the screen.
pub open spec fn after_look(r: ReturnHome, main_world: bool) -> (ReturnHome, ReturnStep) {
    if main_world {
        (r, ReturnStep::Finish { reached: true })
    } else if r.fallback {
        (r, ReturnStep::Finish { reached: false })
    } else if r.attempts < r.max_attempts {
        (ReturnHome { attempts: (r.attempts + 1) as u32, ..r }, ReturnStep::Escape)
    } else {
        (ReturnHome { fallback: true, ..r }, ReturnStep::EnterEscape)
    }
}

/// The way to the main screen after so many looks that did not show it.
pub open spec fn after_looks(r: ReturnHome, n: nat) -> ReturnHome
    decreases n,
{
    if n == 0 {
        r
    } else {
        after_look(after_looks(r, (n - 1) as nat), false).0
    }
}

proof fn lemma_after_looks(r: ReturnHome, n: nat)
    requires
        r.attempts == 0,
        !r.fallback,
    ensures
        after_looks(r, n).max_attempts == r.max_attempts,
        n <= r.max_attempts ==> after_looks(r, n).attempts == n && !after_looks(r, n).fallback,
        n > r.max_attempts ==> after_looks(r, n).fallback,
    decreases n,
{
    if n > 0 {
        lemma_after_looks(r, (n - 1) as nat);
    }
}

/// On the way to the main screen Escape is pressed as often as is allowed, then
/// Enter and Escape once; the way ends where the main screen is seen, and else
/// after that.
pub proof fn the_way_home_is_short(r: ReturnHome, n: nat)
    requires
        r.attempts == 0,
        !r.fallback,
    ensures
        after_look(after_looks(r, n), true).1 == (ReturnStep::Finish { reached: true }),
        after_look(after_looks(r, n), false).1 == if n < r.max_attempts {
            ReturnStep::Escape
        } else if n == r.max_attempts {
            ReturnStep::EnterEscape
        } else {
            ReturnStep::Finish { reached: false }
        },
{
    lemma_after_looks(r, n);
}

impl ReturnHome {
    /// The next step after a look at the screen.
    pub fn next_step(&mut self, main_world: bool) -> (step: ReturnStep)
        ensures
            (*final(self), step) == after_look(*old(self), main_world),
            step !is Finish ==> 0 <= final(self).steps_left() < old(self).steps_left(),
    {
        if main_world {
            ReturnStep::Finish { reached: true }
        } else if self.fallback {
            ReturnStep::Finish { reached: false }
        } else if self.attempts < self.max_attempts {
            self.attempts = self.attempts + 1;
            ReturnStep::Escape
        } else {
            self.fallback = true;
            ReturnStep::EnterEscape
        }
    }

    /// How many more steps there can be; each step but the last uses one up.
    pub open spec fn steps_left(&self) -> int {
        if self.fallback {
            0
        } else if self.attempts <= self.max_attempts {
            self.max_attempts - self.attempts + 1
        } else {
            1
        }
    }
}

/// Watches the panel of an item until it has loaded: the picture changed and
/// then stayed, or did not change in two looks.
#[derive(Debug, Clone, Copy, PartialEq, Eq, Structural)]
pub struct PanelWatch {
    pub change_detected: bool,
    pub no_change_count: u32,
}

impl PanelWatch {
    /// What is known after one more look, at which the picture had changed or not,
    /// and whether the panel has loaded.
    pub open spec fn after_picture(self, changed: bool) -> (PanelWatch, bool) {
        if changed {
            (PanelWatch { change_detected: true, no_change_count: 0 }, false)
        } else if self.change_detected {
            (self, true)
        } else {
            (
                PanelWatch {
                    change_detected: false,
                    no_change_count: (self.no_change_count + 1) as u32,
                },
                self.no_change_count >= 1,
            )
        }
    }

    /// Starts to watch.
    pub fn new() -> (w: Self)
        ensures
            !w.change_detected,
            w.no_change_count == 0,
    {
        PanelWatch { change_detected: false, no_change_count: 0 }
    }

    /// Takes in one look, given the sum of the look before it, also that of the
    /// panel before. Tells whether the panel has loaded.
    pub fn wait_until_panel_loaded(&mut self, last_pool: &mut u128, pool: u128) -> (loaded: bool)
        requires
            old(self).no_change_count < 2,
        ensures
            *final(last_pool) == pool,
            (*final(self), loaded) == old(self).after_picture(pool != *old(last_pool)),
    {
        if pool != *last_pool {
            *last_pool = pool;
            self.change_detected = true;
            self.no_change_count = 0;
            false
        } else if self.change_detected {
            true
        } else {
            self.no_change_count = self.no_change_count + 1;
            self.no_change_count >= 2
        }
    }
}

/// A coordinate on the screen: that of the window plus `val` parts out of
/// `base` of its size, rounded towards zero.
pub open spec fn on_screen(origin: int, val: int, size: int, base: int) -> int {
    to_i32(share(origin * base + val * size, 1, base))
}

fn screen_coordinate(origin: i32, val: i32, size: u32, base: i64) -> (c: i32)
    requires
        base == BASE_WIDTH || base == BASE_HEIGHT,
    ensures
        c == on_screen(origin as int, val as int, size as int, base as int),
{
    let v: i128 = val as i128;
    let s: i128 = size as i128;
    assert(-0x8000_0000 * 0xffff_ffff <= v * s <= 0x8000_0000 * 0xffff_ffff) by (nonlinear_arith)
        requires
            -0x8000_0000 <= v <= 0x7fff_ffff,
            0 <= s <= 0xffff_ffff,
    ;
    assert(-0x8000_0000 * 1920 <= origin * base <= 0x8000_0000 * 1920) by (nonlinear_arith)
        requires
            -0x8000_0000 <= origin <= 0x7fff_ffff,
            base == 1920 || base == 1080,
    ;
    let n: i128 = origin as i128 * base as i128 + v * s;
    let m: i128 = if n >= 0 {
        n
    } else {
        -n
    };
    let q: i128 = m / base as i128;
    let signed: i128 = if n >= 0 {
        q
    } else {
        -q
    };
    assert(m * 1 == m);
    if signed > 0x7fff_ffff {
        0x7fff_ffff
    } else if signed < -0x8000_0000 {
        -0x8000_0000
    } else {
        signed as i32
    }
}

/// Where on the screen a place of the base resolution is, the game window
/// standing at `left` and `top`.
pub fn click_point(left: i32, top: i32, scaler: &CoordScaler, base_x: i32, base_y: i32) -> (p: Pos)
    ensures
        p.x == on_screen(
            left as int,
            base_x as int,
            scaler.game_width as int,
            BASE_WIDTH as int,
        ),
        p.y == on_screen(
            top as int,
            base_y as int,
            scaler.game_height as int,
            BASE_HEIGHT as int,
        ),
{
    Pos {
        x: screen_coordinate(left, base_x, scaler.game_width, BASE_WIDTH),
        y: screen_coordinate(top, base_y, scaler.game_height, BASE_HEIGHT),
    }
}

/// A panel has loaded at the first look at which the picture stayed after it had
/// changed, or at the second look at which it never changed; a look at which the
/// picture has changed is never the last one.
pub proof fn panels_load_when_they_stay(w: PanelWatch)
    requires
        !w.change_detected,
        w.no_change_count == 0,
    ensures
        forall|v: PanelWatch| #[trigger]
            v.after_picture(true).1 == false && v.after_picture(true).0.after_picture(false).1,
        !w.after_picture(false).1,
        w.after_picture(false).0.after_picture(false).1,
{
}

/// Three bright places of the menu button are enough for the main screen: no two
/// of the five decide it, and any two may be dark. A place is bright above 160.
pub proof fn three_places_show_the_main_screen(image: RgbImage, scaler: CoordScaler)
    ensures
        0 <= menu_places(image, scaler) <= 5,
        bright_at(image, scaler, 62, 51) && bright_at(image, scaler, 53, 47) && bright_at(
            image,
            scaler,
            49,
            35,
        ) ==> menu_places(image, scaler) >= 3,
        !bright_at(image, scaler, 62, 51) && !bright_at(image, scaler, 53, 47) && !bright_at(
            image,
            scaler,
            49,
            35,
        ) ==> menu_places(image, scaler) < 3,
        bright_at(image, scaler, 55, 70) && bright_at(image, scaler, 67, 77) ==> menu_places(
            image,
            scaler,
        ) >= 2,
        forall|x: int, y: int| #[trigger]
            bright_at(image, scaler, x, y) <==> (base_pixel(image, scaler, x, y) matches Some(p)
                && p.0 + p.1 + p.2 >= 483),
{
}

/// A place in a window of 1920 by 1080 is as far from the corner of the window on
/// the screen; in any window the corner itself is the corner.
pub proof fn clicks_are_in_the_window(origin: int, val: int, size: int)
    requires
        0 <= origin <= 0x10_0000,
        0 <= val <= 0x10_0000,
        0 <= size <= 0x10_0000,
    ensures
        on_screen(origin, val, 1920, 1920) == origin + val,
        on_screen(origin, val, 1080, 1080) == origin + val,
        on_screen(origin, 0, size, 1920) == origin,
        on_screen(origin, 1920, size, 1920) == origin + size,
        on_screen(origin, 1080, size, 1080) == origin + size,
{
    assert((origin * 1920 + val * 1920) / 1920 == origin + val);
    assert((origin * 1080 + val * 1080) / 1080 == origin + val);
    assert((origin * 1920 + 0 * size) / 1920 == origin);
    assert((origin * 1920 + 1920 * size) / 1920 == origin + size);
    assert((origin * 1080 + 1080 * size) / 1080 == origin + size);
}

/// The red parts of the pixels are added up, one in three bytes.
pub proof fn red_parts_are_added(raw: Seq<u8>, n: nat)
    ensures
        red_sum(raw, 0) == 0,
        red_sum(raw, n + 1) == red_sum(raw, n) + raw[3 * n as int],
{
}

/// Colours are apart by the squares of the differences of their parts: nothing for
/// the same colour, and as far one way as the other.
pub proof fn colours_are_apart(a: Rgb, b: Rgb)
    ensures
        squared_distance(a, a) == 0,
        squared_distance(a, b) == squared_distance(b, a),
        a.1 == b.1 && a.2 == b.2 ==> squared_distance(a, b) == (a.0 - b.0) * (a.0 - b.0),
        a.0 == b.0 && a.2 == b.2 ==> squared_distance(a, b) == (a.1 - b.1) * (a.1 - b.1),
        a.0 == b.0 && a.1 == b.1 ==> squared_distance(a, b) == (a.2 - b.2) * (a.2 - b.2),
{
    assert((a.0 - b.0) * (a.0 - b.0) == (b.0 - a.0) * (b.0 - a.0)) by (nonlinear_arith);
    assert((a.1 - b.1) * (a.1 - b.1) == (b.1 - a.1) * (b.1 - a.1)) by (nonlinear_arith);
    assert((a.2 - b.2) * (a.2 - b.2) == (b.2 - a.2) * (b.2 - a.2)) by (nonlinear_arith);
    assert(0int * 0 == 0);
}

} // verus!
