//! What the pixels of a screenshot tell.
use crate::image::{brightness, pixel_brightness, Rgb, RgbImage};
use crate::scanner::common::constants::{
    ARTIFACT_ASTRAL_X1, ARTIFACT_ASTRAL_X2, ARTIFACT_ASTRAL_Y1, ARTIFACT_ASTRAL_Y2,
    ARTIFACT_LOCK_X1, ARTIFACT_LOCK_X2, ARTIFACT_LOCK_Y1, ARTIFACT_LOCK_Y2, STAR_Y, WEAPON_LOCK_X1,
    WEAPON_LOCK_X2, WEAPON_LOCK_Y1, WEAPON_LOCK_Y2,
};
use crate::scanner::common::coord_scaler::CoordScaler;
use vstd::prelude::*;

verus! {

/// Below this brightness an icon is there.
pub const ICON_BRIGHT_PRESENT: u32 = 116;

/// Above this brightness an icon is not there.
pub const ICON_BRIGHT_ABSENT: u32 = 208;

/// The pixel at a place of the base resolution, nothing outside the picture.
pub open spec fn base_pixel(image: RgbImage, scaler: CoordScaler, x: int, y: int) -> Option<Rgb> {
    if image.contains(scaler.sx(x), scaler.sy(y)) {
        Some(image.at(scaler.sx(x), scaler.sy(y)))
    } else {
        None
    }
}

/// The yellow of a rarity star.
pub open spec fn yellow(p: Rgb) -> bool {
    p.0 > 150 && p.1 > 100 && p.2 < 100
}

/// The place has the yellow of a rarity star.
pub open spec fn yellow_at(image: RgbImage, scaler: CoordScaler, x: int, y: int) -> bool {
    match base_pixel(image, scaler, x, y) {
        Some(p) => yellow(p),
        None => false,
    }
}

/// The brightness of a place, 0 outside the picture.
pub open spec fn brightness_at(image: RgbImage, scaler: CoordScaler, x: int, y: int) -> int {
    match base_pixel(image, scaler, x, y) {
        Some(p) => brightness(p),
        None => 0,
    }
}

/// The place is in the picture and dark.
pub open spec fn dark_at(image: RgbImage, scaler: CoordScaler, x: int, y: int) -> bool {
    match base_pixel(image, scaler, x, y) {
        Some(p) => brightness(p) < 128,
        None => false,
    }
}

/// The pixel at a place of the base resolution.
pub fn pixel_at_base(image: &RgbImage, scaler: &CoordScaler, base_x: i32, base_y: i32) -> (p: Option<
    Rgb,
>)
    ensures
        p == base_pixel(*image, *scaler, base_x as int, base_y as int),
{
    let x: i32 = scaler.x(base_x);
    let y: i32 = scaler.y(base_y);
    if x < 0 || y < 0 || x as u32 >= image.width() || y as u32 >= image.height() {
        None
    } else {
        Some(image.pixel(x as u32, y as u32))
    }
}

/// Whether a pixel has the yellow of a rarity star.
fn is_yellow(p: Rgb) -> (yes: bool)
    ensures
        yes == yellow(p),
{
    p.0 > 150 && p.1 > 100 && p.2 < 100
}

/// Whether a place has the yellow of a rarity star.
pub fn is_star_yellow(image: &RgbImage, scaler: &CoordScaler, base_x: i32, base_y: i32) -> (yes: bool)
    ensures
        yes == yellow_at(*image, *scaler, base_x as int, base_y as int),
{
    match pixel_at_base(image, scaler, base_x, base_y) {
        Some(p) => is_yellow(p),
        None => false,
    }
}

/// The brightness of a place.
pub fn get_pixel_brightness(image: &RgbImage, scaler: &CoordScaler, base_x: i32, base_y: i32) -> (b:
    u32)
    ensures
        b == brightness_at(*image, *scaler, base_x as int, base_y as int),
{
    match pixel_at_base(image, scaler, base_x, base_y) {
        Some(p) => pixel_brightness(p),
        None => 0,
    }
}

/// A brightness at which an icon is fading in or out.
pub open spec fn fading(b: int) -> bool {
    ICON_BRIGHT_PRESENT <= b <= ICON_BRIGHT_ABSENT
}

/// Whether the icons of an artifact have not settled: one of them is fading, or
/// the astral mark is there without the lock, which the game never shows.
pub fn is_artifact_icon_ambiguous(image: &RgbImage, scaler: &CoordScaler) -> (yes: bool)
    ensures
        ({
            let lock = brightness_at(
                *image,
                *scaler,
                ARTIFACT_LOCK_X1 as int,
                ARTIFACT_LOCK_Y1 as int,
            );
            let astral = brightness_at(
                *image,
                *scaler,
                ARTIFACT_ASTRAL_X1 as int,
                ARTIFACT_ASTRAL_Y1 as int,
            );
            yes == (fading(lock) || fading(astral) || (astral <= ICON_BRIGHT_PRESENT && lock
                > ICON_BRIGHT_PRESENT))
        }),
{
    let lock: u32 = get_pixel_brightness(image, scaler, ARTIFACT_LOCK_X1, ARTIFACT_LOCK_Y1);
    if lock >= ICON_BRIGHT_PRESENT && lock <= ICON_BRIGHT_ABSENT {
        return true;
    }
    let astral: u32 = get_pixel_brightness(image, scaler, ARTIFACT_ASTRAL_X1, ARTIFACT_ASTRAL_Y1);
    if astral >= ICON_BRIGHT_PRESENT && astral <= ICON_BRIGHT_ABSENT {
        return true;
    }
    astral <= ICON_BRIGHT_PRESENT && lock > ICON_BRIGHT_PRESENT
}

/// Whether the lock icon of a weapon has not settled.
pub fn is_weapon_icon_ambiguous(image: &RgbImage, scaler: &CoordScaler) -> (yes: bool)
    ensures
        yes == fading(
            brightness_at(*image, *scaler, WEAPON_LOCK_X1 as int, WEAPON_LOCK_Y1 as int),
        ),
{
    let b: u32 = get_pixel_brightness(image, scaler, WEAPON_LOCK_X1, WEAPON_LOCK_Y1);
    b >= ICON_BRIGHT_PRESENT && b <= ICON_BRIGHT_ABSENT
}

/// Whether a place is dark.
pub fn is_pixel_dark(image: &RgbImage, scaler: &CoordScaler, base_x: i32, base_y: i32) -> (yes: bool)
    ensures
        yes == dark_at(*image, *scaler, base_x as int, base_y as int),
{
    match pixel_at_base(image, scaler, base_x, base_y) {
        Some(p) => pixel_brightness(p) < 128,
        None => false,
    }
}

/// What two pixels of an icon say: the first one decides, the second only tells
/// whether it agrees.
pub fn detect_dark_icon(
    image: &RgbImage,
    scaler: &CoordScaler,
    x1: i32,
    y1: i32,
    x2: i32,
    y2: i32,
) -> (seen: (bool, bool))
    ensures
        seen.0 == dark_at(*image, *scaler, x1 as int, y1 as int),
        seen.1 == (seen.0 == dark_at(*image, *scaler, x2 as int, y2 as int)),
{
    let d1 = is_pixel_dark(image, scaler, x1, y1);
    let d2 = is_pixel_dark(image, scaler, x2, y2);
    (d1, d1 == d2)
}

/// A column has the yellow of a star on one of the three rows around the stars.
pub open spec fn star_column(image: RgbImage, scaler: CoordScaler, x: int) -> bool {
    yellow_at(image, scaler, x, STAR_Y - 2) || yellow_at(image, scaler, x, STAR_Y as int)
        || yellow_at(image, scaler, x, STAR_Y + 2)
}

/// A star stands in an even column from `from` up to 1500 that lies beyond
/// `limit`.
pub open spec fn star_beyond(image: RgbImage, scaler: CoordScaler, from: int, limit: int) -> bool {
    exists|x: int| #[trigger]
        star_column(image, scaler, x) && from <= x <= 1500 && x > limit && x % 2 == 0
}

/// The last even column from `from` up to 1500 in which a star stands, 0 where
/// there is none.
fn rightmost_star(image: &RgbImage, scaler: &CoordScaler, from: i32) -> (last: i32)
    requires
        0 < from <= 1500,
        from % 2 == 0,
    ensures
        last == 0 || from <= last <= 1500,
        forall|limit: int| #[trigger]
            star_beyond(*image, *scaler, from as int, limit) <==> last > limit && last > 0,
{
    let mut x: i32 = 1500;
    while x >= from
        invariant
            0 < from <= 1500,
            from % 2 == 0,
            x % 2 == 0,
            from - 2 <= x <= 1500,
            forall|k: int|
                x < k <= 1500 && k % 2 == 0 ==> !#[trigger] star_column(*image, *scaler, k),
        decreases x,
    {
        if is_star_yellow(image, scaler, x, STAR_Y - 2) || is_star_yellow(image, scaler, x, STAR_Y)
            || is_star_yellow(image, scaler, x, STAR_Y + 2) {
            proof {
                assert(star_column(*image, *scaler, x as int));
            }
            return x;
        }
        x = x - 2;
    }
    0
}

/// The rarity of a weapon.
pub open spec fn weapon_rarity(image: RgbImage, scaler: CoordScaler) -> int {
    if star_beyond(image, scaler, 1300, 1470) {
        5
    } else if star_beyond(image, scaler, 1300, 1430) {
        4
    } else if star_beyond(image, scaler, 1300, 1400) {
        3
    } else if star_beyond(image, scaler, 1300, 0) {
        2
    } else if yellow_at(image, scaler, 1485, STAR_Y as int) {
        5
    } else if yellow_at(image, scaler, 1450, STAR_Y as int) {
        4
    } else if yellow_at(image, scaler, 1416, STAR_Y as int) {
        3
    } else {
        2
    }
}

/// The rarity of a weapon, by how far to the right its stars reach.
pub fn detect_weapon_rarity(image: &RgbImage, scaler: &CoordScaler) -> (rarity: i32)
    ensures
        rarity == weapon_rarity(*image, *scaler),
{
    let last: i32 = rightmost_star(image, scaler, 1300);
    proof {
        assert(star_beyond(*image, *scaler, 1300, 1470) <==> last > 1470);
        assert(star_beyond(*image, *scaler, 1300, 1430) <==> last > 1430);
        assert(star_beyond(*image, *scaler, 1300, 1400) <==> last > 1400);
        assert(star_beyond(*image, *scaler, 1300, 0) <==> last > 0);
    }
    if last > 1470 {
        5
    } else if last > 1430 {
        4
    } else if last > 1400 {
        3
    } else if last > 0 {
        2
    } else if is_star_yellow(image, scaler, 1485, STAR_Y) {
        5
    } else if is_star_yellow(image, scaler, 1450, STAR_Y) {
        4
    } else if is_star_yellow(image, scaler, 1416, STAR_Y) {
        3
    } else {
        2
    }
}

/// The rarity of an artifact.
pub open spec fn artifact_rarity(image: RgbImage, scaler: CoordScaler) -> int {
    if star_beyond(image, scaler, 1340, 1470) {
        5
    } else if star_beyond(image, scaler, 1340, 1430) {
        4
    } else if star_beyond(image, scaler, 1340, 0) {
        3
    } else if yellow_at(image, scaler, 1485, STAR_Y as int) {
        5
    } else if yellow_at(image, scaler, 1450, STAR_Y as int) {
        4
    } else {
        3
    }
}

/// The rarity of an artifact, by how far to the right its stars reach.
pub fn detect_artifact_rarity(image: &RgbImage, scaler: &CoordScaler) -> (rarity: i32)
    ensures
        rarity == artifact_rarity(*image, *scaler),
{
    let last: i32 = rightmost_star(image, scaler, 1340);
    proof {
        assert(star_beyond(*image, *scaler, 1340, 1470) <==> last > 1470);
        assert(star_beyond(*image, *scaler, 1340, 1430) <==> last > 1430);
        assert(star_beyond(*image, *scaler, 1340, 0) <==> last > 0);
    }
    if last > 1470 {
        5
    } else if last > 1430 {
        4
    } else if last > 0 {
        3
    } else if is_star_yellow(image, scaler, 1485, STAR_Y) {
        5
    } else if is_star_yellow(image, scaler, 1450, STAR_Y) {
        4
    } else {
        3
    }
}

/// Whether an artifact is below the lowest rarity to keep.
pub fn artifact_below_min_rarity(image: &RgbImage, scaler: &CoordScaler, min_rarity: i32) -> (yes:
    bool)
    ensures
        yes == (artifact_rarity(*image, *scaler) < min_rarity),
{
    detect_artifact_rarity(image, scaler) < min_rarity
}

/// Whether a weapon is below the lowest rarity to keep.
pub fn weapon_below_min_rarity(image: &RgbImage, scaler: &CoordScaler, min_rarity: i32) -> (yes:
    bool)
    ensures
        yes == (weapon_rarity(*image, *scaler) < min_rarity),
{
    detect_weapon_rarity(image, scaler) < min_rarity
}

/// Whether a weapon is locked.
pub fn detect_weapon_lock(image: &RgbImage, scaler: &CoordScaler) -> (locked: bool)
    ensures
        locked == dark_at(*image, *scaler, WEAPON_LOCK_X1 as int, WEAPON_LOCK_Y1 as int),
{
    detect_dark_icon(
        image,
        scaler,
        WEAPON_LOCK_X1,
        WEAPON_LOCK_Y1,
        WEAPON_LOCK_X2,
        WEAPON_LOCK_Y2,
    ).0
}

/// Whether an artifact is locked; `y_shift` is how much lower its card
/// continues.
pub fn detect_artifact_lock(image: &RgbImage, scaler: &CoordScaler, y_shift: i32) -> (locked: bool)
    requires
        -10_000 <= y_shift <= 10_000,
    ensures
        locked == dark_at(
            *image,
            *scaler,
            ARTIFACT_LOCK_X1 as int,
            ARTIFACT_LOCK_Y1 + y_shift,
        ),
{
    detect_dark_icon(
        image,
        scaler,
        ARTIFACT_LOCK_X1,
        ARTIFACT_LOCK_Y1 + y_shift,
        ARTIFACT_LOCK_X2,
        ARTIFACT_LOCK_Y2 + y_shift,
    ).0
}

/// Whether an artifact has the astral mark.
pub fn detect_artifact_astral_mark(image: &RgbImage, scaler: &CoordScaler, y_shift: i32) -> (marked:
    bool)
    requires
        -10_000 <= y_shift <= 10_000,
    ensures
        marked == dark_at(
            *image,
            *scaler,
            ARTIFACT_ASTRAL_X1 as int,
            ARTIFACT_ASTRAL_Y1 + y_shift,
        ),
{
    detect_dark_icon(
        image,
        scaler,
        ARTIFACT_ASTRAL_X1,
        ARTIFACT_ASTRAL_Y1 + y_shift,
        ARTIFACT_ASTRAL_X2,
        ARTIFACT_ASTRAL_Y2 + y_shift,
    ).0
}

/// A part of a picture.
#[derive(Debug, Clone, Copy, PartialEq, Eq, Structural)]
pub struct Region {
    pub x: u32,
    pub y: u32,
    pub w: u32,
    pub h: u32,
}

/// A coordinate as an unsigned number; below zero it lies beyond any picture.
pub open spec fn as_unsigned(v: int) -> int {
    if v < 0 {
        v + 0x1_0000_0000
    } else {
        v
    }
}

/// The smaller of two numbers.
pub open spec fn lesser(a: int, b: int) -> int {
    if a <= b {
        a
    } else {
        b
    }
}

/// One less, but no less than zero.
pub open spec fn last_index(n: int) -> int {
    if n > 0 {
        n - 1
    } else {
        0
    }
}

/// The part of a picture under a rectangle of the base resolution: its corner
/// is brought into the picture, and what then sticks out is cut off.
pub open spec fn region_of(
    image: RgbImage,
    scaler: CoordScaler,
    rect: (int, int, int, int),
) -> (int, int, int, int) {
    let width = image.spec_width() as int;
    let height = image.spec_height() as int;
    let x = lesser(as_unsigned(scaler.sx(rect.0)), last_index(width));
    let y = lesser(as_unsigned(scaler.sy(rect.1)), last_index(height));
    (
        x,
        y,
        lesser(as_unsigned(scaler.sx(rect.2)), width - x),
        lesser(as_unsigned(scaler.sy(rect.3)), height - y),
    )
}

fn to_unsigned(v: i32) -> (u: u32)
    ensures
        u == as_unsigned(v as int),
{
    if v < 0 {
        (v as i64 + 0x1_0000_0000) as u32
    } else {
        v as u32
    }
}

fn lesser_u32(a: u32, b: u32) -> (m: u32)
    ensures
        m == lesser(a as int, b as int),
{
    if a <= b {
        a
    } else {
        b
    }
}

/// The part of a picture under a rectangle of the base resolution.
pub fn crop_region(image: &RgbImage, scaler: &CoordScaler, rect: (i32, i32, i32, i32)) -> (r: Region)
    ensures
        (r.x as int, r.y as int, r.w as int, r.h as int) == region_of(
            *image,
            *scaler,
            (rect.0 as int, rect.1 as int, rect.2 as int, rect.3 as int),
        ),
        r.x + r.w <= image.spec_width(),
        r.y + r.h <= image.spec_height(),
{
    let width: u32 = image.width();
    let height: u32 = image.height();
    let last_x: u32 = if width > 0 {
        width - 1
    } else {
        0
    };
    let last_y: u32 = if height > 0 {
        height - 1
    } else {
        0
    };
    let x: u32 = lesser_u32(to_unsigned(scaler.x(rect.0)), last_x);
    let y: u32 = lesser_u32(to_unsigned(scaler.y(rect.1)), last_y);
    let w: u32 = lesser_u32(to_unsigned(scaler.x(rect.2)), width - x);
    let h: u32 = lesser_u32(to_unsigned(scaler.y(rect.3)), height - y);
    Region { x, y, w, h }
}

/// The part of a picture under the right of a rectangle: three fifths of its
/// width for a percentage, three quarters else.
pub open spec fn number_region_of(
    image: RgbImage,
    scaler: CoordScaler,
    rect: (int, int, int, int),
    pct: bool,
) -> (int, int, int, int) {
    let width = image.spec_width() as int;
    let height = image.spec_height() as int;
    let cut = if pct {
        8
    } else {
        5int
    };
    let x = lesser(as_unsigned(scaler.sx_fine(rect.0 * 20 + rect.2 * cut)), last_index(width));
    let y = lesser(as_unsigned(scaler.sy(rect.1)), last_index(height));
    (
        x,
        y,
        lesser(as_unsigned(scaler.sx_fine(rect.2 * (20 - cut))), width - x),
        lesser(as_unsigned(scaler.sy(rect.3)), height - y),
    )
}

/// The part of a picture with the number of a stat line.
pub fn number_region(
    image: &RgbImage,
    scaler: &CoordScaler,
    rect: (i32, i32, i32, i32),
    pct: bool,
) -> (r: Region)
    requires
        0 <= rect.0 <= 1_000_000,
        0 <= rect.2 <= 1_000_000,
    ensures
        (r.x as int, r.y as int, r.w as int, r.h as int) == number_region_of(
            *image,
            *scaler,
            (rect.0 as int, rect.1 as int, rect.2 as int, rect.3 as int),
            pct,
        ),
{
    let width: u32 = image.width();
    let height: u32 = image.height();
    let last_x: u32 = if width > 0 {
        width - 1
    } else {
        0
    };
    let last_y: u32 = if height > 0 {
        height - 1
    } else {
        0
    };
    let left: i32 = if pct {
        rect.0 * 20 + rect.2 * 8
    } else {
        rect.0 * 20 + rect.2 * 5
    };
    let rest: i32 = if pct {
        rect.2 * 12
    } else {
        rect.2 * 15
    };
    let x: u32 = lesser_u32(to_unsigned(scaler.x_fine(left)), last_x);
    let y: u32 = lesser_u32(to_unsigned(scaler.y(rect.1)), last_y);
    let w: u32 = lesser_u32(to_unsigned(scaler.x_fine(rest)), width - x);
    let h: u32 = lesser_u32(to_unsigned(scaler.y(rect.3)), height - y);
    Region { x, y, w, h }
}

/// How many of every second pixel of a row, from `from` up to `to`, have a
/// brightness above `low` and up to `high`.
pub open spec fn row_count(
    image: RgbImage,
    y: int,
    from: int,
    to: int,
    low: int,
    high: int,
) -> int
    decreases to - from + 1,
{
    if from >= to {
        0
    } else {
        row_count(image, y, from + 2, to, low, high) + if low < brightness(image.at(from, y))
            <= high {
            1int
        } else {
            0int
        }
    }
}

/// The same over every second row from `y` up to `bottom`.
pub open spec fn area_count(
    image: RgbImage,
    y: int,
    bottom: int,
    from: int,
    to: int,
    low: int,
    high: int,
) -> int
    decreases bottom - y + 1,
{
    if y >= bottom {
        0
    } else {
        area_count(image, y + 2, bottom, from, to, low, high) + row_count(
            image,
            y,
            from,
            to,
            low,
            high,
        )
    }
}

/// The text of a line is dimmed: of the sampled pixels in the right two thirds,
/// more than a fifth are of middle brightness and under 78 of a hundred are
/// bright.
pub open spec fn dimmed(image: RgbImage, region: (int, int, int, int)) -> bool {
    let from = region.0 + region.2 / 3;
    let to = region.0 + region.2;
    let bottom = region.1 + region.3;
    let total = area_count(image, region.1, bottom, from, to, -1, 255);
    let bright = area_count(image, region.1, bottom, from, to, 200, 255);
    let mid = area_count(image, region.1, bottom, from, to, 130, 200);
    region.2 > 0 && region.3 > 0 && total > 0 && mid * 100 / total > 20 && bright * 100 / total
        < 78
}

/// The counts of a row.
struct Counts {
    bright: u64,
    mid: u64,
    total: u64,
}

fn count_row(image: &RgbImage, y: u32, from: u32, to: u32) -> (c: Counts)
    requires
        y < image.spec_height(),
        from <= to <= image.spec_width(),
    ensures
        c.bright == row_count(*image, y as int, from as int, to as int, 200, 255),
        c.mid == row_count(*image, y as int, from as int, to as int, 130, 200),
        c.total == row_count(*image, y as int, from as int, to as int, -1, 255),
        c.bright <= to - from,
        c.mid <= to - from,
        c.total <= to - from,
    decreases to - from,
{
    if from >= to {
        return Counts { bright: 0, mid: 0, total: 0 };
    }
    let b: u32 = pixel_brightness(image.pixel(from, y));
    let rest = if to - from <= 2 {
        proof {
            assert(row_count(*image, y as int, from + 2, to as int, 200, 255) == 0);
            assert(row_count(*image, y as int, from + 2, to as int, 130, 200) == 0);
            assert(row_count(*image, y as int, from + 2, to as int, -1, 255) == 0);
        }
        Counts { bright: 0, mid: 0, total: 0 }
    } else {
        count_row(image, y, from + 2, to)
    };
    Counts {
        bright: if b > 200 {
            rest.bright + 1
        } else {
            rest.bright
        },
        mid: if b > 130 && b <= 200 {
            rest.mid + 1
        } else {
            rest.mid
        },
        total: rest.total + 1,
    }
}

fn count_area(image: &RgbImage, y: u32, bottom: u32, from: u32, to: u32) -> (c: Counts)
    requires
        y <= bottom <= image.spec_height(),
        from <= to <= image.spec_width(),
    ensures
        c.bright == area_count(
            *image,
            y as int,
            bottom as int,
            from as int,
            to as int,
            200,
            255,
        ),
        c.mid == area_count(*image, y as int, bottom as int, from as int, to as int, 130, 200),
        c.total == area_count(*image, y as int, bottom as int, from as int, to as int, -1, 255),
        c.bright <= (bottom - y) * 0xffff_ffff,
        c.mid <= (bottom - y) * 0xffff_ffff,
        c.total <= (bottom - y) * 0xffff_ffff,
    decreases bottom - y,
{
    if y >= bottom {
        return Counts { bright: 0, mid: 0, total: 0 };
    }
    let row = count_row(image, y, from, to);
    let rest = if bottom - y <= 2 {
        proof {
            assert(area_count(
                *image,
                y + 2,
                bottom as int,
                from as int,
                to as int,
                200,
                255,
            ) == 0);
            assert(area_count(
                *image,
                y + 2,
                bottom as int,
                from as int,
                to as int,
                130,
                200,
            ) == 0);
            assert(area_count(*image, y + 2, bottom as int, from as int, to as int, -1, 255) == 0);
        }
        Counts { bright: 0, mid: 0, total: 0 }
    } else {
        count_area(image, y + 2, bottom, from, to)
    };
    assert((bottom - y) * 0xffff_ffff <= 0xffff_ffff * 0xffff_ffff) by (nonlinear_arith)
        requires
            0 <= bottom - y <= 0xffff_ffff,
    ;
    Counts {
        bright: rest.bright + row.bright,
        mid: rest.mid + row.mid,
        total: rest.total + row.total,
    }
}

/// Whether a substat line, at a rectangle of the base resolution, is not yet
/// activated.
pub fn is_substat_dimmed(
    image: &RgbImage,
    scaler: &CoordScaler,
    rect: (i32, i32, i32, i32),
    y_shift: i32,
) -> (yes: bool)
    requires
        i32::MIN <= rect.1 + y_shift <= i32::MAX,
    ensures
        yes == dimmed(
            *image,
            region_of(
                *image,
                *scaler,
                (rect.0 as int, rect.1 + y_shift, rect.2 as int, rect.3 as int),
            ),
        ),
{
    let r = crop_region(image, scaler, (rect.0, rect.1 + y_shift, rect.2, rect.3));
    if r.w == 0 || r.h == 0 {
        return false;
    }
    let c = count_area(image, r.y, r.y + r.h, r.x + r.w / 3, r.x + r.w);
    if c.total == 0 {
        return false;
    }
    let bright: u128 = c.bright as u128 * 100 / c.total as u128;
    let mid: u128 = c.mid as u128 * 100 / c.total as u128;
    mid > 20 && bright < 78
}

/// Where the constellation icons are, and how bright their rings are when they
/// are active.
#[derive(Debug, Clone)]
pub struct ConstellationLayout {
    /// The centres of the six icons.
    pub nodes: Vec<(i32, i32)>,
    pub ring_inner: i32,
    pub ring_outer: i32,
    /// The least mean brightness of each active ring.
    pub thresholds: Vec<u32>,
}

impl ConstellationLayout {
    /// Six icons on a screen of sensible size.
    pub open spec fn valid(&self) -> bool {
        &&& self.nodes@.len() == 6
        &&& self.thresholds@.len() == 6
        &&& 0 <= self.ring_inner <= 1000
        &&& 0 <= self.ring_outer <= 1000
        &&& forall|i: int|
            0 <= i < 6 ==> -100_000 <= (#[trigger] self.nodes@[i]).0 <= 100_000 && -100_000
                <= self.nodes@[i].1 <= 100_000
    }
}

/// A point lies on the ring around a centre.
pub open spec fn on_ring(inner: int, outer: int, dx: int, dy: int) -> bool {
    inner * inner <= dx * dx + dy * dy <= outer * outer
}

/// The three parts of the pixels of a ring in one column, from `dy` down by
/// twos, added up, and how many pixels they are.
pub open spec fn ring_column(
    image: RgbImage,
    scaler: CoordScaler,
    cx: int,
    cy: int,
    inner: int,
    outer: int,
    dx: int,
    dy: int,
) -> (int, int)
    decreases outer - dy + 2,
{
    if dy > outer {
        (0, 0)
    } else {
        let rest = ring_column(image, scaler, cx, cy, inner, outer, dx, dy + 2);
        if on_ring(inner, outer, dx, dy) {
            match base_pixel(image, scaler, cx + dx, cy + dy) {
                Some(p) => (rest.0 + p.0 + p.1 + p.2, rest.1 + 1),
                None => rest,
            }
        } else {
            rest
        }
    }
}

/// The same over the columns from `dx` to the right by twos.
pub open spec fn ring_sum(
    image: RgbImage,
    scaler: CoordScaler,
    cx: int,
    cy: int,
    inner: int,
    outer: int,
    dx: int,
) -> (int, int)
    decreases outer - dx + 2,
{
    if dx > outer {
        (0, 0)
    } else {
        let rest = ring_sum(image, scaler, cx, cy, inner, outer, dx + 2);
        let col = ring_column(image, scaler, cx, cy, inner, outer, dx, -outer);
        (rest.0 + col.0, rest.1 + col.1)
    }
}

/// The mean brightness of a ring reaches a threshold; a ring outside the
/// picture has none.
pub open spec fn ring_bright(sum: (int, int), threshold: int) -> bool {
    if sum.1 > 0 {
        sum.0 >= threshold * 3 * sum.1
    } else {
        threshold == 0
    }
}

/// The constellation icon is active.
pub open spec fn node_active(
    image: RgbImage,
    scaler: CoordScaler,
    layout: ConstellationLayout,
    i: int,
) -> bool {
    ring_bright(
        ring_sum(
            image,
            scaler,
            layout.nodes@[i].0 as int,
            layout.nodes@[i].1 as int,
            layout.ring_inner as int,
            layout.ring_outer as int,
            -layout.ring_outer,
        ),
        layout.thresholds@[i] as int,
    )
}

fn sum_column(
    image: &RgbImage,
    scaler: &CoordScaler,
    cx: i32,
    cy: i32,
    inner: i32,
    outer: i32,
    dx: i32,
    dy: i32,
) -> (s: (u64, u64))
    requires
        -100_000 <= cx <= 100_000,
        -100_000 <= cy <= 100_000,
        0 <= inner <= 1000,
        0 <= outer <= 1000,
        -1000 <= dx <= 1002,
        -1000 <= dy <= 1002,
    ensures
        (s.0 as int, s.1 as int) == ring_column(
            *image,
            *scaler,
            cx as int,
            cy as int,
            inner as int,
            outer as int,
            dx as int,
            dy as int,
        ),
        s.0 <= (if dy > outer { 0 } else { outer - dy + 1 }) * 765,
        s.1 <= if dy > outer { 0 } else { outer - dy + 1 },
    decreases outer - dy + 2,
{
    if dy > outer {
        return (0, 0);
    }
    let rest = sum_column(image, scaler, cx, cy, inner, outer, dx, dy + 2);
    assert(0 <= dx * dx <= 1_010_000) by (nonlinear_arith)
        requires
            -1000 <= dx <= 1002,
    ;
    assert(0 <= dy * dy <= 1_010_000) by (nonlinear_arith)
        requires
            -1000 <= dy <= 1002,
    ;
    assert(0 <= inner * inner <= 1_010_000) by (nonlinear_arith)
        requires
            0 <= inner <= 1000,
    ;
    assert(0 <= outer * outer <= 1_010_000) by (nonlinear_arith)
        requires
            0 <= outer <= 1000,
    ;
    let d: i32 = dx * dx + dy * dy;
    if inner * inner <= d && d <= outer * outer {
        match pixel_at_base(image, scaler, cx + dx, cy + dy) {
            Some(p) => (rest.0 + (p.0 as u64 + p.1 as u64 + p.2 as u64), rest.1 + 1),
            None => rest,
        }
    } else {
        rest
    }
}

fn sum_ring(
    image: &RgbImage,
    scaler: &CoordScaler,
    cx: i32,
    cy: i32,
    inner: i32,
    outer: i32,
    dx: i32,
) -> (s: (u64, u64))
    requires
        -100_000 <= cx <= 100_000,
        -100_000 <= cy <= 100_000,
        0 <= inner <= 1000,
        0 <= outer <= 1000,
        -1000 <= dx <= 1002,
    ensures
        (s.0 as int, s.1 as int) == ring_sum(
            *image,
            *scaler,
            cx as int,
            cy as int,
            inner as int,
            outer as int,
            dx as int,
        ),
        s.0 <= (if dx > outer { 0 } else { outer - dx + 1 }) * 2001 * 765,
        s.1 <= (if dx > outer { 0 } else { outer - dx + 1 }) * 2001,
    decreases outer - dx + 2,
{
    if dx > outer {
        return (0, 0);
    }
    let rest = sum_ring(image, scaler, cx, cy, inner, outer, dx + 2);
    let col = sum_column(image, scaler, cx, cy, inner, outer, dx, -outer);
    (rest.0 + col.0, rest.1 + col.1)
}

/// Whether a constellation icon is active.
fn is_node_active(
    image: &RgbImage,
    scaler: &CoordScaler,
    layout: &ConstellationLayout,
    i: usize,
) -> (active: bool)
    requires
        layout.valid(),
        i < 6,
    ensures
        active == node_active(*image, *scaler, *layout, i as int),
{
    let node: (i32, i32) = layout.nodes[i];
    assert(-100_000 <= layout.nodes@[i as int].0 <= 100_000);
    let s = sum_ring(
        image,
        scaler,
        node.0,
        node.1,
        layout.ring_inner,
        layout.ring_outer,
        -layout.ring_outer,
    );
    let threshold: u64 = layout.thresholds[i] as u64;
    if s.1 > 0 {
        assert(s.1 <= 2001 * 2001);
        assert(threshold * 3 * s.1 <= 0xffff_ffff * 3 * 4_004_001) by (nonlinear_arith)
            requires
                0 <= threshold <= 0xffff_ffff,
                0 <= s.1 <= 4_004_001,
        ;
        assert(0 <= threshold * 3 * s.1) by (nonlinear_arith)
            requires
                0 <= threshold,
                0 <= s.1,
        ;
        s.0 >= threshold * 3 * s.1
    } else {
        threshold == 0
    }
}

/// How many icons are active before the first that is not.
pub open spec fn leading_active(active: Seq<bool>) -> int
    decreases active.len(),
{
    if active.len() > 0 && active[0] {
        1 + leading_active(active.skip(1))
    } else {
        0
    }
}

/// The constellation that a row of icons shows: the icons before the first that
/// is not active. The second part tells whether no icon behind it is active.
pub fn read_constellation(active: &Vec<bool>) -> (c: (i32, bool))
    requires
        active@.len() == 6,
    ensures
        c.0 == leading_active(active@),
        0 <= c.0 <= 6,
        c.1 == forall|i: int| c.0 <= i < 6 ==> !#[trigger] active@[i],
{
    let mut n: usize = 0;
    assert(active@.skip(0) == active@);
    while n < 6 && active[n]
        invariant
            n <= 6,
            active@.len() == 6,
            leading_active(active@) == n + leading_active(active@.skip(n as int)),
        decreases 6 - n,
    {
        assert(active@.skip(n as int).skip(1) == active@.skip(n + 1));
        n = n + 1;
    }
    let mut k: usize = n;
    while k < 6
        invariant
            n <= k <= 6,
            active@.len() == 6,
            leading_active(active@) == n,
            forall|i: int| n <= i < k ==> !#[trigger] active@[i],
        decreases 6 - k,
    {
        if active[k] {
            return (n as i32, false);
        }
        k = k + 1;
    }
    (n as i32, true)
}

/// The constellation that a screenshot shows, and whether its icons are
/// consistent.
pub fn detect_constellation_pixel(
    image: &RgbImage,
    scaler: &CoordScaler,
    layout: &ConstellationLayout,
) -> (c: (i32, bool))
    requires
        layout.valid(),
    ensures
        ({
            let active = Seq::new(6, |i: int| node_active(*image, *scaler, *layout, i));
            c.0 == leading_active(active) && c.1 == forall|i: int|
                c.0 <= i < 6 ==> !#[trigger] active[i]
        }),
        0 <= c.0 <= 6,
{
    let mut active: Vec<bool> = Vec::new();
    let mut i: usize = 0;
    while i < 6
        invariant
            i <= 6,
            layout.valid(),
            active@.len() == i,
            forall|k: int|
                0 <= k < i ==> #[trigger] active@[k] == node_active(*image, *scaler, *layout, k),
        decreases 6 - i,
    {
        active.push(is_node_active(image, scaler, layout, i));
        i = i + 1;
    }
    assert(active@ =~= Seq::new(6, |i: int| node_active(*image, *scaler, *layout, i)));
    read_constellation(&active)
}

} // verus!
