//! What holds of the lines of substats that were read.
use crate::image::RgbImage;
use crate::scanner::artifact::artifact_laws::was_answered;
use crate::scanner::artifact::substat_reader::{
    all_lines_read, cropped_read, four_lines, line_judged, line_masked, line_read, line_recovered,
    line_text_read, lines_found, lines_guessed, lines_read, lines_recovered, lines_solved,
    nonempty, number_request, pieced, settled, settled_at_last, settled_cropped, stat_tried,
    varied_rect, variation_tried, with_reading, CardLines,
};
use crate::scanner::artifact::set_name::set_named;
use crate::scanner::artifact::substats::{line_stat, past_substats, stat_said, Stat, Substats};
use crate::scanner::common::coord_scaler::CoordScaler;
use crate::scanner::common::ocr::{
    asked, request_for, text_or_empty, Answer, BaseRect, Log, Treatment,
};
use vstd::prelude::*;

verus! {

/// A line gives the text of its place, as it is or with its icon painted over; it
/// is painted over only where the text as it is gives no stat.
pub proof fn lines_give_the_text_of_their_place(
    before: Log,
    after: Log,
    image: RgbImage,
    scaler: CoordScaler,
    rect: BaseRect,
    text: Seq<char>,
)
    requires
        line_text_read(before, after, image, scaler, rect, text),
    ensures
        exists|plain: Answer| #[trigger]
            was_answered(request_for(image, scaler, rect, Treatment::Plain), plain) && (text
                == text_or_empty(plain) || (stat_said(text_or_empty(plain)) is None && exists|
                masked: Answer| #[trigger]
                was_answered(request_for(image, scaler, rect, Treatment::Masked), masked) && text
                    == text_or_empty(masked))),
{
    let (middle, plain) = choose|middle: Log, plain: Answer|
        {
            &&& #[trigger] asked(
                before,
                middle,
                request_for(image, scaler, rect, Treatment::Plain),
                plain,
            )
            &&& if stat_said(text_or_empty(plain)) is Some {
                after == middle && text == text_or_empty(plain)
            } else {
                line_masked(middle, after, image, scaler, rect, text_or_empty(plain), text)
            }
        };
    assert(was_answered(request_for(image, scaler, rect, Treatment::Plain), plain));
    if stat_said(text_or_empty(plain)) is None {
        let masked = choose|masked: Answer| #[trigger]
            asked(middle, after, request_for(image, scaler, rect, Treatment::Masked), masked)
                && text == crate::scanner::artifact::substats::better_line(
                text_or_empty(plain),
                text_or_empty(masked),
            );
        assert(was_answered(request_for(image, scaler, rect, Treatment::Masked), masked));
    }
}

/// The text of a line that gives a stat gives that stat and no other; with the
/// effects of the set the lines are over; else the number may be read apart, and
/// it belongs to the stat of which the text has the name.
pub proof fn texts_of_lines_are_judged(
    before: Log,
    after: Log,
    image: RgbImage,
    scaler: CoordScaler,
    sets: Map<Seq<char>, String>,
    rect: BaseRect,
    text: Seq<char>,
    line: Option<Seq<Stat>>,
)
    requires
        line_judged(before, after, image, scaler, sets, rect, text, line),
    ensures
        past_substats(text) ==> line is None && after == before,
        !past_substats(text) ==> (line_stat(text) matches Some(stat) ==> line == Some(seq![stat])
            && after == before),
        line matches Some(found) ==> found.len() <= 1,
        line is None && !past_substats(text) ==> exists|key: Seq<char>| #[trigger]
            set_named(crate::text::trimmed(text), sets, Some(key)),
        line_stat(text) is None && (line matches Some(found) && found.len() == 1) ==> (
        crate::good_common::stat_parser::stat_key_in(crate::text::trimmed(text)) matches Some(named)
            && named.0 == (line->0)[0].0 && named.2 == (line->0)[0].2 && (line->0)[0].1 > 500_000),
{
    if !past_substats(text) && line_stat(text) is None {
        let key = choose|key: Option<Seq<char>>|
            {
                &&& #[trigger] set_named(crate::text::trimmed(text), sets, key)
                &&& if key is Some {
                    after == before && line is None
                } else if crate::scanner::common::fuzzy_match::byte_len(crate::text::trimmed(text))
                    < 2 {
                    after == before && line == Some(Seq::<Stat>::empty())
                } else {
                    exists|found: Option<Stat>| #[trigger]
                        pieced(before, after, image, scaler, rect, text, found) && line == Some(
                            crate::scanner::artifact::substat_reader::at_most_one(found),
                        )
                }
            };
        if key is Some {
            assert(set_named(crate::text::trimmed(text), sets, Some(key->0)));
        }
    }
}

/// A number that is read apart is enlarged.
pub proof fn numbers_are_enlarged(
    image: RgbImage,
    scaler: CoordScaler,
    rect: BaseRect,
    pct: bool,
)
    ensures
        number_request(image, scaler, rect, pct).treatment == Treatment::Enlarged,
{
}

/// The lines of a card stand at their places, moved down with the texts of the
/// card, and cut ones keep their left edge.
pub proof fn lines_have_their_places(card: CardLines, i: int, cut: int)
    requires
        card.regions.standard(),
        0 <= i < 4,
        0 <= cut <= 20,
        0 <= card.y_shift <= 40,
    ensures
        card.rect(i) == (
            1356i32,
            if i == 0 {
                (478 + card.y_shift) as i32
            } else if i == 1 {
                (513 + card.y_shift) as i32
            } else if i == 2 {
                (550 + card.y_shift) as i32
            } else {
                (589 + card.y_shift) as i32
            },
            if i == 3 {
                355i32
            } else {
                255i32
            },
            if i == 0 {
                35i32
            } else if i == 1 {
                37i32
            } else {
                39i32
            },
        ),
        card.cut_rect(i, cut).2 == card.rect(i).2 - cut,
        card.cut_rect(i, cut).0 == card.rect(i).0,
        card.cut_rect(i, cut).1 == card.rect(i).1,
        card.cut_rect(i, cut).3 == card.rect(i).3,
{
}

/// A line that was read at a place.
pub open spec fn line_was_read(
    card: CardLines,
    sets: Map<Seq<char>, String>,
    rect: BaseRect,
    line: Option<Seq<Stat>>,
) -> bool {
    exists|x: Log, y: Log| #[trigger] line_read(x, y, card.image, card.scaler, sets, rect, line)
}

/// Every line was read at its own place, from the first one on.
pub proof fn lines_are_read_in_their_order(
    before: Log,
    after: Log,
    card: CardLines,
    sets: Map<Seq<char>, String>,
    lines: Seq<Seq<Stat>>,
    i: int,
)
    requires
        lines_read(before, after, card, sets, lines),
        0 <= i < lines.len(),
    ensures
        line_was_read(card, sets, card.rect(i), Some(lines[i])),
    decreases lines.len(),
{
    let middle = choose|middle: Log|
        {
            &&& lines_read(before, middle, card, sets, lines.drop_last())
            &&& #[trigger] line_read(
                middle,
                after,
                card.image,
                card.scaler,
                sets,
                card.rect(lines.len() - 1),
                Some(lines.last()),
            )
        };
    if i < lines.len() - 1 {
        lines_are_read_in_their_order(before, middle, card, sets, lines.drop_last(), i);
    }
}

/// No more lines are read than there can be; where there are fewer, the line after
/// the last one was read as one past the substats.
pub proof fn lines_end_where_the_substats_do(
    before: Log,
    after: Log,
    card: CardLines,
    sets: Map<Seq<char>, String>,
    max: int,
    lines: Seq<Seq<Stat>>,
    i: int,
)
    requires
        all_lines_read(before, after, card, sets, max, lines),
        0 <= i < lines.len(),
    ensures
        lines.len() <= max,
        line_was_read(card, sets, card.rect(i), Some(lines[i])),
        lines.len() < max ==> line_was_read(card, sets, card.rect(lines.len() as int), None),
{
    if lines.len() == max {
        lines_are_read_in_their_order(before, after, card, sets, lines, i);
    } else {
        let middle = choose|middle: Log|
            {
                &&& lines_read(before, middle, card, sets, lines)
                &&& #[trigger] line_read(
                    middle,
                    after,
                    card.image,
                    card.scaler,
                    sets,
                    card.rect(lines.len() as int),
                    None,
                )
            };
        lines_are_read_in_their_order(before, middle, card, sets, lines, i);
    }
}

proof fn lemma_tried(
    before: Log,
    after: Log,
    image: RgbImage,
    scaler: CoordScaler,
    rect: BaseRect,
    found: Option<Stat>,
)
    requires
        stat_tried(before, after, image, scaler, rect, found),
    ensures
        was_tried(image, scaler, rect, found),
{
    let answer = choose|answer: Answer| #[trigger]
        asked(before, after, request_for(image, scaler, rect, Treatment::Plain), answer) && found
            == line_stat(text_or_empty(answer));
    assert(was_answered(request_for(image, scaler, rect, Treatment::Plain), answer));
}

/// A place was read once more, and its text gives this.
pub open spec fn was_tried(
    image: RgbImage,
    scaler: CoordScaler,
    rect: BaseRect,
    found: Option<Stat>,
) -> bool {
    exists|answer: Answer| #[trigger]
        was_answered(request_for(image, scaler, rect, Treatment::Plain), answer) && found
            == line_stat(text_or_empty(answer))
}

/// A line that is recovered gives the stat of a text at its place, moved by at most
/// two and at most ten wider or narrower.
pub proof fn recovered_lines_are_near_their_place(
    g0: Log,
    g1: Log,
    l0: Log,
    l1: Log,
    image: RgbImage,
    scaler: CoordScaler,
    rect: BaseRect,
    stat: Stat,
)
    requires
        line_recovered(g0, g1, l0, l1, image, scaler, rect, Some(stat)),
    ensures
        exists|k: int|
            0 <= k < 9 && was_tried(image, scaler, #[trigger] varied_rect(rect, k), Some(stat)),
{
    let (k, g, l) = choose|k: int, g: Log, l: Log|
        {
            &&& 0 <= k < crate::scanner::artifact::substat_reader::VARIATIONS
            &&& crate::scanner::artifact::substat_reader::variations_failed(
                g0,
                g,
                l0,
                l,
                image,
                scaler,
                rect,
                k,
            )
            &&& #[trigger] variation_tried(g, g1, l, l1, image, scaler, rect, k, Some(stat))
        };
    let varied = varied_rect(rect, k);
    if k == 0 {
        lemma_tried(l, l1, image, scaler, varied, Some(stat));
    } else {
        let first = choose|first: Option<Stat>|
            {
                &&& #[trigger] stat_tried(g, g1, image, scaler, varied, first)
                &&& if first is Some {
                    l1 == l && Some(stat) == first
                } else {
                    stat_tried(l, l1, image, scaler, varied, Some(stat))
                }
            };
        if first is Some {
            lemma_tried(g, g1, image, scaler, varied, first);
        } else {
            lemma_tried(l, l1, image, scaler, varied, Some(stat));
        }
    }
}

/// Lines that hold a reading keep it when others are recovered, and only as many
/// lines are recovered as the card has at least.
pub proof fn readings_stay_when_others_are_recovered(
    g0: Log,
    g1: Log,
    l0: Log,
    l1: Log,
    card: CardLines,
    n: int,
    lines: Seq<Seq<Stat>>,
    out: Seq<Seq<Stat>>,
    i: int,
)
    requires
        lines_recovered(g0, g1, l0, l1, card, n, lines, out),
        n <= 4,
        0 <= i < 4,
    ensures
        out.len() == 4,
        i < lines.len() && lines[i].len() > 0 ==> out[i] == lines[i],
        i >= n ==> out[i] == if i < lines.len() {
            lines[i]
        } else {
            Seq::<Stat>::empty()
        },
        i < n && (i >= lines.len() || lines[i].len() == 0) ==> out[i].len() <= 1,
    decreases n,
{
    if n > 0 {
        if four_lines(lines)[n - 1].len() > 0 {
            readings_stay_when_others_are_recovered(g0, g1, l0, l1, card, n - 1, lines, out, i);
        } else {
            let (g, l, found) = choose|g: Log, l: Log, found: Option<Stat>|
                {
                    &&& out.len() == 4
                    &&& out[n - 1] == crate::scanner::artifact::substat_reader::at_most_one(found)
                    &&& lines_recovered(
                        g0,
                        g,
                        l0,
                        l,
                        card,
                        n - 1,
                        lines,
                        out.update(n - 1, Seq::empty()),
                    )
                    &&& #[trigger] line_recovered(
                        g,
                        g1,
                        l,
                        l1,
                        card.image,
                        card.scaler,
                        card.rect(n - 1),
                        found,
                    )
                };
            readings_stay_when_others_are_recovered(
                g0,
                g,
                l0,
                l,
                card,
                n - 1,
                lines,
                out.update(n - 1, Seq::empty()),
                i,
            );
        }
    }
}

/// A line that was read again with its end cut off keeps its readings; the new one
/// comes after them, from the cut place.
pub proof fn cut_lines_keep_their_readings(
    before: Log,
    after: Log,
    card: CardLines,
    cut: int,
    lines: Seq<Seq<Stat>>,
    out: Seq<Seq<Stat>>,
    i: int,
)
    requires
        cropped_read(before, after, card, cut, lines, out),
        0 <= i < out.len() <= lines.len(),
    ensures
        exists|x: Log, y: Log, text: Seq<char>| #[trigger]
            line_text_read(x, y, card.image, card.scaler, card.cut_rect(i, cut), text) && (out[i]
                == lines[i] || (line_stat(text) matches Some(stat) && out[i] == lines[i] + seq![
                stat,
            ])),
        lines[i].len() == 0 ==> out[i].len() <= 1,
    decreases out.len(),
{
    let (middle, text) = choose|middle: Log, text: Seq<char>|
        {
            &&& cropped_read(before, middle, card, cut, lines, out.drop_last())
            &&& #[trigger] line_text_read(
                middle,
                after,
                card.image,
                card.scaler,
                card.cut_rect(out.len() - 1, cut),
                text,
            )
            &&& out.last() == with_reading(lines[out.len() - 1], line_stat(text))
        };
    if i < out.len() - 1 {
        cut_lines_keep_their_readings(before, middle, card, cut, lines, out.drop_last(), i);
    } else if line_stat(text) is Some {
        let stat = line_stat(text)->0;
        assert(lines[i].push(stat) =~= lines[i] + seq![stat]);
    }
}

/// Lines with which the lines were read again, their ends cut off by so much.
pub open spec fn were_cut(
    card: CardLines,
    cut: int,
    lines: Seq<Seq<Stat>>,
    more: Seq<Seq<Stat>>,
) -> bool {
    more.len() == lines.len() && exists|x: Log, y: Log| #[trigger]
        cropped_read(x, y, card, cut, lines, more)
}

/// The rolls are solved with the readings of the lines cut by so much.
pub open spec fn solved_when_cut(
    card: CardLines,
    cut: int,
    rarity: i32,
    levels: Seq<i32>,
    lines: Seq<Seq<Stat>>,
    out: Substats,
) -> bool {
    exists|more: Seq<Seq<Stat>>| #[trigger]
        were_cut(card, cut, lines, more) && lines_solved(rarity, levels, more, Some(out))
}

proof fn lemma_settled_at_last(
    before: Log,
    after: Log,
    card: CardLines,
    rarity: i32,
    levels: Seq<i32>,
    lines: Seq<Seq<Stat>>,
    out: Substats,
)
    requires
        settled_at_last(before, after, card, rarity, levels, lines, out),
    ensures
        solved_when_cut(card, 20, rarity, levels, lines, out) || lines_guessed(lines, out),
{
    if !lines_guessed(lines, out) {
        let more = choose|more: Seq<Seq<Stat>>|
            {
                &&& more.len() == lines.len()
                &&& #[trigger] cropped_read(before, after, card, 20, lines, more)
                &&& lines_solved(rarity, levels, more, Some(out))
            };
        assert(were_cut(card, 20, lines, more));
    }
}

proof fn lemma_settled_cropped(
    before: Log,
    after: Log,
    card: CardLines,
    rarity: i32,
    levels: Seq<i32>,
    lines: Seq<Seq<Stat>>,
    out: Substats,
)
    requires
        settled_cropped(before, after, card, rarity, levels, lines, out),
    ensures
        solved_when_cut(card, 10, rarity, levels, lines, out) || solved_when_cut(
            card,
            20,
            rarity,
            levels,
            lines,
            out,
        ) || lines_guessed(lines, out),
{
    let (middle, more) = choose|middle: Log, more: Seq<Seq<Stat>>|
        {
            &&& more.len() == lines.len()
            &&& #[trigger] cropped_read(before, middle, card, 10, lines, more)
            &&& {
                ||| after == middle && lines_solved(rarity, levels, more, Some(out))
                ||| lines_solved(rarity, levels, more, None) && settled_at_last(
                    middle,
                    after,
                    card,
                    rarity,
                    levels,
                    lines,
                    out,
                )
            }
        };
    if settled_at_last(middle, after, card, rarity, levels, lines, out) {
        lemma_settled_at_last(middle, after, card, rarity, levels, lines, out);
    } else {
        assert(were_cut(card, 10, lines, more));
    }
}

/// The rolls are solved from the lines as they were read, else with the readings of
/// the lines cut by ten or by twenty; else the substats are guessed from the lines
/// as they were read. Lines are cut only where the rolls of those that were read
/// cannot be solved.
pub proof fn substats_are_solved_or_guessed(
    before: Log,
    after: Log,
    card: CardLines,
    rarity: i32,
    levels: Seq<i32>,
    lines: Seq<Seq<Stat>>,
    out: Substats,
)
    requires
        settled(before, after, card, rarity, levels, lines, out),
    ensures
        lines_solved(rarity, levels, lines, Some(out)) || (lines_solved(
            rarity,
            levels,
            lines,
            None,
        ) && (solved_when_cut(card, 10, rarity, levels, lines, out) || solved_when_cut(
            card,
            20,
            rarity,
            levels,
            lines,
            out,
        ) || lines_guessed(lines, out))),
{
    if settled_cropped(before, after, card, rarity, levels, lines, out) {
        lemma_settled_cropped(before, after, card, rarity, levels, lines, out);
    }
}

/// Substats that were solved tell how often they were rolled; guessed ones do not.
pub proof fn solved_substats_tell_their_rolls(
    rarity: i32,
    levels: Seq<i32>,
    lines: Seq<Seq<Stat>>,
    out: Substats,
)
    ensures
        lines_solved(rarity, levels, lines, Some(out)) ==> out.total_rolls is Some,
        lines_guessed(lines, out) ==> out.total_rolls is None,
{
}

/// A card shows at most four lines, and below level 4 only one of five stars does.
pub open spec fn shown_at_most(rarity: int, level: int) -> int {
    if rarity != 5 && level < 4 {
        3
    } else {
        4
    }
}

/// A card of five stars shows four lines; else two are shown at first, three from
/// level 4 on and four from level 8 on.
pub open spec fn shown_at_least(rarity: int, level: int) -> int {
    if rarity != 5 && level < 4 {
        2
    } else if rarity != 5 && level < 8 {
        3
    } else {
        4
    }
}

/// The lines are those that were read first where enough of them hold a reading:
/// two on a four-star card, three from level 4 and four from level 8 on, and four
/// on a five-star card. Else the empty ones are recovered.
pub proof fn enough_lines_are_read_or_recovered(
    g0: Log,
    g1: Log,
    l0: Log,
    l1: Log,
    card: CardLines,
    sets: Map<Seq<char>, String>,
    rarity: int,
    at_level: int,
    lines: Seq<Seq<Stat>>,
)
    requires
        lines_found(g0, g1, l0, l1, card, sets, rarity, at_level, lines),
    ensures
        exists|g: Log, first: Seq<Seq<Stat>>| #[trigger]
            all_lines_read(
                g0,
                g,
                card,
                sets,
                shown_at_most(rarity, at_level),
                first,
            ) && if nonempty(first, first.len()).len() < shown_at_least(rarity, at_level) {
                lines.len() == 4 && forall|i: int|
                    0 <= i < first.len() && i < 4 && #[trigger] first[i].len() > 0 ==> lines[i]
                        == first[i]
            } else {
                lines == first && l1 == l0
            },
{
    let fewest = crate::scanner::artifact::substats::fewest_lines(rarity, at_level);
    let max = crate::scanner::artifact::substats::most_lines(rarity, at_level);
    let (g, first) = choose|g: Log, first: Seq<Seq<Stat>>|
        {
            &&& #[trigger] all_lines_read(g0, g, card, sets, max, first)
            &&& if nonempty(first, first.len()).len() < fewest {
                lines_recovered(g, g1, l0, l1, card, fewest, first, lines)
            } else {
                g1 == g && l1 == l0 && lines == first
            }
        };
    if nonempty(first, first.len()).len() < fewest {
        readings_stay_when_others_are_recovered(g, g1, l0, l1, card, fewest, first, lines, 0);
        assert forall|i: int| 0 <= i < first.len() && i < 4 && #[trigger] first[i].len()
            > 0 implies lines[i] == first[i] by {
            readings_stay_when_others_are_recovered(g, g1, l0, l1, card, fewest, first, lines, i);
        }
    }
    assert(max == shown_at_most(rarity, at_level));
    assert(fewest == shown_at_least(rarity, at_level));
    assert(all_lines_read(g0, g, card, sets, shown_at_most(rarity, at_level), first));
}

} // verus!
