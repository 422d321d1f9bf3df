//! What holds of what is seen in a picture.
use crate::good_common::pixel_utils::{artifact_stars, weapon_stars};
use crate::image::{brightness, Rgb, RgbImage};
use crate::scanner::common::coord_scaler::CoordScaler;
use crate::scanner::common::pixel_utils::{
    area_count, artifact_rarity, base_pixel, brightness_at, dark_at, dimmed, fading, leading_active,
    number_region_of, on_ring, region_of, ring_bright, ring_column, row_count, star_beyond,
    star_column, weapon_rarity, yellow, yellow_at,
};
use crate::scanner::common::treatments::{green_value, mean_color};
use vstd::prelude::*;

verus! {

/// The brightness of a pixel is the mean of its parts, rounded down.
pub proof fn brightness_is_the_mean(p: Rgb)
    ensures
        3 * brightness(p) <= p.0 + p.1 + p.2 < 3 * brightness(p) + 3,
        0 <= brightness(p) <= 255,
{
}

/// The yellow of a star has more than 150 red, more than 100 green and less than
/// 100 blue; no grey is yellow, and more red, more green and less blue keep a
/// yellow one.
pub proof fn star_yellow(p: Rgb, q: Rgb)
    ensures
        yellow(p) <==> p.0 >= 151 && p.1 >= 101 && p.2 <= 99,
        p.0 == p.1 && p.1 == p.2 ==> !yellow(p),
        yellow(p) && q.0 >= p.0 && q.1 >= p.1 && q.2 <= p.2 ==> yellow(q),
{
}

/// The window has the size for which the places are given.
pub open spec fn base_window(scaler: CoordScaler) -> bool {
    scaler.game_width == 1920 && scaler.game_height == 1080
}

/// In a window of 1920 by 1080 the pixel of a place is the pixel at that place,
/// and in a window of any size the places grow with the window.
pub proof fn places_are_pixels(image: RgbImage, scaler: CoordScaler, x: int, y: int)
    requires
        base_window(scaler),
        0 <= x <= 100_000,
        0 <= y <= 100_000,
    ensures
        base_pixel(image, scaler, x, y) == if image.contains(x, y) {
            Some(image.at(x, y))
        } else {
            None
        },
        dark_at(image, scaler, x, y) <==> image.contains(x, y) && (image.at(x, y).0 + image.at(x, y).1
            + image.at(x, y).2) < 384,
        brightness_at(image, scaler, x, y) == if image.contains(x, y) {
            (image.at(x, y).0 + image.at(x, y).1 + image.at(x, y).2) / 3
        } else {
            0
        },
{
    assert(scaler.sx(x) == x) by {
        assert(x * 1920 / 1920 == x);
    }
    assert(scaler.sy(y) == y) by {
        assert(y * 1080 / 1080 == y);
    }
}

/// An icon that is neither clearly there nor clearly gone has a brightness from
/// 116 to 208.
pub proof fn fading_icons(b: int)
    ensures
        fading(b) <==> 116 <= b <= 208,
{
}

/// A star stands in the column: it is yellow at its middle line or two pixels
/// above or below it.
pub open spec fn star_in(image: RgbImage, scaler: CoordScaler, x: int) -> bool {
    yellow_at(image, scaler, x, 370) || yellow_at(image, scaler, x, 372) || yellow_at(
        image,
        scaler,
        x,
        374,
    )
}

/// Some star stands in one of the columns.
pub open spec fn star_between(image: RgbImage, scaler: CoordScaler, from: int, to: int) -> bool {
    exists|x: int| #[trigger] star_in(image, scaler, x) && from <= x <= to && x % 2 == 0
}

proof fn lemma_star_beyond(image: RgbImage, scaler: CoordScaler, from: int, limit: int)
    ensures
        star_beyond(image, scaler, from, limit) == star_between(
            image,
            scaler,
            if limit + 1 >= from {
                limit + 1
            } else {
                from
            },
            1500,
        ),
{
    if star_beyond(image, scaler, from, limit) {
        let x = choose|x: int| #[trigger]
            star_column(image, scaler, x) && from <= x <= 1500 && x > limit && x % 2 == 0;
        assert(star_in(image, scaler, x));
    }
    let low = if limit + 1 >= from {
        limit + 1
    } else {
        from
    };
    if star_between(image, scaler, low, 1500) {
        let x = choose|x: int| #[trigger]
            star_in(image, scaler, x) && low <= x <= 1500 && x % 2 == 0;
        assert(star_column(image, scaler, x));
    }
}

/// The last star tells the rarity: an artifact with a star right of 1470 has five
/// stars, else with one right of 1430 four, else three; a weapon may have two.
/// Without any star in the row the single places of the stars decide.
pub proof fn the_last_star_tells_the_rarity(image: RgbImage, scaler: CoordScaler)
    ensures
        star_between(image, scaler, 1471, 1500) ==> artifact_rarity(image, scaler) == 5
            && weapon_rarity(image, scaler) == 5,
        !star_between(image, scaler, 1471, 1500) && star_between(image, scaler, 1431, 1470)
            ==> artifact_rarity(image, scaler) == 4 && weapon_rarity(image, scaler) == 4,
        !star_between(image, scaler, 1431, 1500) && star_between(image, scaler, 1340, 1430)
            ==> artifact_rarity(image, scaler) == 3,
        !star_between(image, scaler, 1431, 1500) && star_between(image, scaler, 1401, 1430)
            ==> weapon_rarity(image, scaler) == 3,
        !star_between(image, scaler, 1401, 1500) && star_between(image, scaler, 1300, 1400)
            ==> weapon_rarity(image, scaler) == 2,
        !star_between(image, scaler, 1340, 1500) ==> artifact_rarity(image, scaler)
            == artifact_stars(image, scaler),
        !star_between(image, scaler, 1300, 1500) ==> weapon_rarity(image, scaler) == weapon_stars(
            image,
            scaler,
        ),
{
    lemma_star_beyond(image, scaler, 1300, 1470);
    lemma_star_beyond(image, scaler, 1300, 1430);
    lemma_star_beyond(image, scaler, 1300, 1400);
    lemma_star_beyond(image, scaler, 1300, 0);
    lemma_star_beyond(image, scaler, 1340, 1470);
    lemma_star_beyond(image, scaler, 1340, 1430);
    lemma_star_beyond(image, scaler, 1340, 0);
    lemma_between(image, scaler, 1471, 1471, 1500);
    lemma_between(image, scaler, 1431, 1470, 1500);
    lemma_between(image, scaler, 1401, 1430, 1500);
    lemma_between(image, scaler, 1340, 1430, 1500);
    lemma_between(image, scaler, 1300, 1400, 1500);
    lemma_between(image, scaler, 1300, 1339, 1500);
}

proof fn lemma_between(image: RgbImage, scaler: CoordScaler, from: int, middle: int, to: int)
    requires
        from <= middle <= to,
    ensures
        star_between(image, scaler, from, to) == (star_between(image, scaler, from, middle)
            || star_between(image, scaler, middle + 1, to)),
{
    if star_between(image, scaler, from, to) {
        let x = choose|x: int| #[trigger]
            star_in(image, scaler, x) && from <= x <= to && x % 2 == 0;
        assert(star_in(image, scaler, x));
        if x <= middle {
            assert(star_between(image, scaler, from, middle));
        } else {
            assert(star_between(image, scaler, middle + 1, to));
        }
    }
    if star_between(image, scaler, from, middle) {
        let x = choose|x: int| #[trigger]
            star_in(image, scaler, x) && from <= x <= middle && x % 2 == 0;
        assert(star_in(image, scaler, x));
    }
    if star_between(image, scaler, middle + 1, to) {
        let x = choose|x: int| #[trigger]
            star_in(image, scaler, x) && middle + 1 <= x <= to && x % 2 == 0;
        assert(star_in(image, scaler, x));
    }
}

/// By their single places, the fifth star counts first, then the fourth, then the
/// third; an artifact has three stars at least and a weapon two, and the two
/// agree on four and five stars.
pub proof fn single_places_of_stars(image: RgbImage, scaler: CoordScaler)
    ensures
        artifact_stars(image, scaler) == 5 <==> yellow_at(image, scaler, 1485, 372),
        weapon_stars(image, scaler) == 5 <==> yellow_at(image, scaler, 1485, 372),
        artifact_stars(image, scaler) >= 4 <==> yellow_at(image, scaler, 1485, 372) || yellow_at(
            image,
            scaler,
            1450,
            372,
        ),
        artifact_stars(image, scaler) >= 4 || weapon_stars(image, scaler) >= 4 ==> artifact_stars(
            image,
            scaler,
        ) == weapon_stars(image, scaler),
        weapon_stars(image, scaler) == 3 <==> weapon_stars(image, scaler) < 4 && yellow_at(
            image,
            scaler,
            1416,
            372,
        ),
        3 <= artifact_stars(image, scaler) <= 5,
        2 <= weapon_stars(image, scaler) <= 5,
        3 <= artifact_rarity(image, scaler) <= 5,
        2 <= weapon_rarity(image, scaler) <= 5,
{
}

/// In a window of 1920 by 1080 the part under a rectangle that lies in the
/// picture is the rectangle.
pub proof fn rectangles_are_parts(
    image: RgbImage,
    scaler: CoordScaler,
    rect: (int, int, int, int),
)
    requires
        base_window(scaler),
        0 <= rect.0,
        0 <= rect.1,
        0 < rect.2,
        0 < rect.3,
        rect.0 + rect.2 <= image.spec_width() <= 0x1000_0000,
        rect.1 + rect.3 <= image.spec_height() <= 0x1000_0000,
    ensures
        region_of(image, scaler, rect) == rect,
{
    assert(scaler.sx(rect.0) == rect.0 && scaler.sx(rect.2) == rect.2) by {
        assert(rect.0 * 1920 / 1920 == rect.0 && rect.2 * 1920 / 1920 == rect.2);
    }
    assert(scaler.sy(rect.1) == rect.1 && scaler.sy(rect.3) == rect.3) by {
        assert(rect.1 * 1080 / 1080 == rect.1 && rect.3 * 1080 / 1080 == rect.3);
    }
}

/// The number of a line stands at its right: in the last three fifths of it for a
/// percentage, in the last three quarters for a flat stat.
pub proof fn numbers_stand_at_the_right(
    image: RgbImage,
    scaler: CoordScaler,
    rect: (int, int, int, int),
)
    requires
        base_window(scaler),
        0 <= rect.0,
        0 <= rect.1,
        0 < rect.2,
        rect.2 % 20 == 0,
        0 < rect.3,
        rect.0 + rect.2 <= image.spec_width() <= 0x10_0000,
        rect.1 + rect.3 <= image.spec_height() <= 0x10_0000,
    ensures
        number_region_of(image, scaler, rect, true) == (
            rect.0 + rect.2 * 2 / 5,
            rect.1,
            rect.2 * 3 / 5,
            rect.3,
        ),
        number_region_of(image, scaler, rect, false) == (
            rect.0 + rect.2 / 4,
            rect.1,
            rect.2 * 3 / 4,
            rect.3,
        ),
{
    let w = rect.2 / 20;
    assert(rect.2 == 20 * w);
    assert(scaler.sx_fine(rect.0 * 20 + rect.2 * 8) == rect.0 + 8 * w);
    assert(scaler.sx_fine(rect.0 * 20 + rect.2 * 5) == rect.0 + 5 * w);
    assert(scaler.sx_fine(rect.2 * 12) == 12 * w);
    assert(scaler.sx_fine(rect.2 * 15) == 15 * w);
    assert(scaler.sy(rect.1) == rect.1 && scaler.sy(rect.3) == rect.3) by {
        assert(rect.1 * 1080 / 1080 == rect.1 && rect.3 * 1080 / 1080 == rect.3);
    }
}

/// The active nodes of a constellation are counted from the first one on, up to
/// the first that is not active.
pub proof fn leading_nodes_are_counted(active: Seq<bool>)
    ensures
        0 <= leading_active(active) <= active.len(),
        forall|i: int| 0 <= i < leading_active(active) ==> #[trigger] active[i],
        leading_active(active) < active.len() ==> !active[leading_active(active)],
    decreases active.len(),
{
    if active.len() > 0 && active[0] {
        let rest = active.skip(1);
        leading_nodes_are_counted(rest);
        assert forall|i: int| 0 <= i < leading_active(active) implies #[trigger] active[i] by {
            if i > 0 {
                assert(rest[i - 1] == active[i]);
            }
        }
        if leading_active(active) < active.len() {
            assert(rest[leading_active(rest)] == active[leading_active(active)]);
        }
    }
}

/// A node is active where the mean of its ring is as bright as its threshold, and
/// the ring has the pixels between its two radii.
pub proof fn rings_are_bright_in_the_mean(
    sum: int,
    count: int,
    threshold: int,
    inner: int,
    outer: int,
    dx: int,
    dy: int,
)
    requires
        count > 0,
        0 <= inner <= outer,
    ensures
        ring_bright((sum, count), threshold) <==> sum >= 3 * threshold * count,
        on_ring(inner, outer, dx, 0) <==> inner <= dx <= outer || inner <= -dx <= outer,
        on_ring(inner, outer, dx, dy) == on_ring(inner, outer, dy, dx),
        on_ring(inner, outer, dx, dy) == on_ring(inner, outer, -dx, dy),
{
    assert(threshold * 3 * count == 3 * threshold * count) by (nonlinear_arith);
    assert((-dx) * (-dx) == dx * dx) by (nonlinear_arith);
    lemma_squares(inner, outer, dx);
    lemma_squares(inner, outer, -dx);
}

proof fn lemma_squares(inner: int, outer: int, d: int)
    requires
        0 <= inner <= outer,
    ensures
        d >= 0 ==> (inner * inner <= d * d <= outer * outer <==> inner <= d <= outer),
{
    if d >= 0 {
        assert((inner * inner <= d * d) == (inner <= d)) by (nonlinear_arith)
            requires
                0 <= inner,
                0 <= d,
        ;
        assert((d * d <= outer * outer) == (d <= outer)) by (nonlinear_arith)
            requires
                0 <= outer,
                0 <= d,
        ;
    }
}

proof fn lemma_row_parts(image: RgbImage, y: int, from: int, to: int)
    ensures
        0 <= row_count(image, y, from, to, 130, 200),
        0 <= row_count(image, y, from, to, 200, 255),
        row_count(image, y, from, to, 130, 200) + row_count(image, y, from, to, 200, 255)
            <= row_count(image, y, from, to, -1, 255),
    decreases to - from + 1,
{
    if from < to {
        lemma_row_parts(image, y, from + 2, to);
    }
}

proof fn lemma_area_parts(image: RgbImage, y: int, bottom: int, from: int, to: int)
    ensures
        0 <= area_count(image, y, bottom, from, to, 130, 200),
        0 <= area_count(image, y, bottom, from, to, 200, 255),
        area_count(image, y, bottom, from, to, 130, 200) + area_count(
            image,
            y,
            bottom,
            from,
            to,
            200,
            255,
        ) <= area_count(image, y, bottom, from, to, -1, 255),
    decreases bottom - y + 1,
{
    if y < bottom {
        lemma_area_parts(image, y + 2, bottom, from, to);
        lemma_row_parts(image, y, from, to);
    }
}

/// A dimmed line has, in its right two thirds, more than a fifth of pixels of a
/// medium brightness, from 131 to 200, and fewer than 78 in a hundred brighter
/// ones.
pub proof fn dimmed_lines_are_neither_dark_nor_bright(
    image: RgbImage,
    x: int,
    y: int,
    w: int,
    h: int,
)
    ensures
        dimmed(image, (x, y, w, h)) <==> {
            let total = area_count(image, y, y + h, x + w / 3, x + w, -1, 255);
            &&& w > 0 && h > 0 && total > 0
            &&& 100 * area_count(image, y, y + h, x + w / 3, x + w, 130, 200) >= 21 * total
            &&& 100 * area_count(image, y, y + h, x + w / 3, x + w, 200, 255) < 78 * total
        },
{
    let total = area_count(image, y, y + h, x + w / 3, x + w, -1, 255);
    let mid = area_count(image, y, y + h, x + w / 3, x + w, 130, 200);
    let bright = area_count(image, y, y + h, x + w / 3, x + w, 200, 255);
    lemma_area_parts(image, y, y + h, x + w / 3, x + w);
    if total > 0 {
        assert((mid * 100 / total > 20) == (100 * mid >= 21 * total)) by (nonlinear_arith)
            requires
                total > 0,
                mid >= 0,
        ;
        assert((bright * 100 / total < 78) == (100 * bright < 78 * total)) by (nonlinear_arith)
            requires
                total > 0,
                bright >= 0,
        ;
    }
}

/// Green text becomes dark on white: a pixel without more green than red and blue
/// becomes white, and the more green it has beyond them, the darker it becomes,
/// black from 64 on.
pub proof fn green_becomes_dark(p: Rgb)
    ensures
        0 <= green_value(p) <= 255,
        p.1 <= p.0 || p.1 <= p.2 ==> green_value(p) == 255,
        p.1 >= p.0 + 64 && p.1 >= p.2 + 64 ==> green_value(p) == 0,
        p.0 >= p.2 && p.0 <= p.1 < p.0 + 64 ==> green_value(p) == 255 - 4 * (p.1 - p.0),
        p.2 >= p.0 && p.2 <= p.1 < p.2 + 64 ==> green_value(p) == 255 - 4 * (p.1 - p.2),
{
}

/// The mean of three colours lies between them in each part, and that of three
/// equal ones is the colour itself.
pub proof fn mean_colors_lie_between(a: Rgb, b: Rgb, c: Rgb)
    ensures
        3 * mean_color(a, b, c).0 <= a.0 + b.0 + c.0 < 3 * mean_color(a, b, c).0 + 3,
        3 * mean_color(a, b, c).1 <= a.1 + b.1 + c.1 < 3 * mean_color(a, b, c).1 + 3,
        3 * mean_color(a, b, c).2 <= a.2 + b.2 + c.2 < 3 * mean_color(a, b, c).2 + 3,
        mean_color(a, a, a) == a,
{
}

/// In a row every second pixel is looked at, and counts where its brightness is in
/// the range.
pub proof fn every_second_pixel_of_a_row_counts(
    image: RgbImage,
    y: int,
    from: int,
    to: int,
    low: int,
    high: int,
)
    requires
        from <= to,
    ensures
        0 <= row_count(image, y, from, to, low, high) <= (to - from + 1) / 2,
        (forall|x: int|
            from <= x < to ==> low < brightness(#[trigger] image.at(x, y)) <= high)
            ==> row_count(image, y, from, to, low, high) == (to - from + 1) / 2,
        (forall|x: int|
            from <= x < to ==> !(low < brightness(#[trigger] image.at(x, y)) <= high))
            ==> row_count(image, y, from, to, low, high) == 0,
    decreases to - from,
{
    if from < to {
        if from + 2 <= to {
            every_second_pixel_of_a_row_counts(image, y, from + 2, to, low, high);
        } else {
            assert(row_count(
                image,
                y,
                from + 2,
                to,
                low,
                high,
            ) == 0);
        }
        let here = image.at(from, y);
    }
}

/// In a column of a ring every second place is looked at; a place counts once, with
/// its three colours.
pub proof fn every_second_place_of_a_ring_counts(
    image: RgbImage,
    scaler: CoordScaler,
    cx: int,
    cy: int,
    inner: int,
    outer: int,
    dx: int,
    dy: int,
)
    requires
        dy <= outer + 1,
    ensures
        ({
            let c = ring_column(
                image,
                scaler,
                cx,
                cy,
                inner,
                outer,
                dx,
                dy,
            );
            &&& 0 <= 2 * c.1 <= outer - dy + 2
            &&& 0 <= c.0 <= 765 * c.1
            &&& dy <= outer && on_ring(inner, outer, dx, dy) ==> (base_pixel(
                image,
                scaler,
                cx + dx,
                cy + dy,
            ) matches Some(p) ==> c.1 >= 1 && c.0 >= p.0 + p.1 + p.2)
        }),
    decreases outer - dy + 2,
{
    if dy <= outer {
        if dy + 2 <= outer + 1 {
            every_second_place_of_a_ring_counts(
                image,
                scaler,
                cx,
                cy,
                inner,
                outer,
                dx,
                dy + 2,
            );
        } else {
            assert(ring_column(
                image,
                scaler,
                cx,
                cy,
                inner,
                outer,
                dx,
                dy + 2,
            ) == (0int, 0int));
        }
    }
}

} // verus!
