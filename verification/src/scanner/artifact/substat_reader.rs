//! Reading the substats of an artifact card.
use crate::good_common::stat_parser::{extract_number, parse_stat_from_text, try_extract_stat_key};
use crate::image::RgbImage;
use crate::name_map::NameMap;
use crate::scanner::artifact::regions::{shifted, ArtifactOcrRegions};
use crate::scanner::artifact::set_name::{find_set_key_in_text, set_named};
use crate::scanner::artifact::substats::{
    add_reading, as_guessed, as_solved, better_line, choose_line, fewest_lines, from_guess,
    from_solution, has_reading, line_stat, max_scan_lines, min_required, most_lines, parse_line, past_substats,
    same_value, stat_of, stat_said, Stat, Substats, MAX_LEVEL,
};
use crate::scanner::common::coord_scaler::CoordScaler;
use crate::scanner::common::fuzzy_match::byte_len;
use crate::scanner::common::ocr::{
    answer_of, asked, or_empty, read_part, read_region, region_at, request_for, text_or_empty,
    Answer, BaseRect, ImageToText, Log, OcrRequest, Treatment,
};
use crate::scanner::common::pixel_utils::{number_region, number_region_of};
use crate::scanner::common::roll_solver::{solution, solve, OcrCandidate, SolverInput, SolverResult};
use crate::text::{copy_of, trim_text};
use vstd::prelude::*;

verus! {

/// What the substat lines are read from: a screenshot with a card that may be
/// moved down.
pub struct CardLines {
    pub image: RgbImage,
    pub scaler: CoordScaler,
    pub regions: ArtifactOcrRegions,
    pub y_shift: int,
}

impl CardLines {
    /// The rectangle of a substat line.
    pub open spec fn rect(self, i: int) -> BaseRect {
        let r = self.regions.substat_lines@[i];
        (r.0, (r.1 + self.y_shift) as i32, r.2, r.3)
    }

    /// The rectangle of a substat line with its right cut off.
    pub open spec fn cut_rect(self, i: int, cut: int) -> BaseRect {
        let r = self.rect(i);
        (r.0, r.1, (r.2 - cut) as i32, r.3)
    }
}

/// The text of a line with the icon painted over was asked for, and the better
/// one of both was taken.
pub open spec fn line_masked(
    before: Log,
    after: Log,
    image: RgbImage,
    scaler: CoordScaler,
    rect: BaseRect,
    plain: Seq<char>,
    text: Seq<char>,
) -> bool {
    exists|masked: Answer| #[trigger]
        asked(before, after, request_for(image, scaler, rect, Treatment::Masked), masked) && text == better_line(
            plain,
            text_or_empty(masked),
        )
}

/// What was taken for a line: the text as it is, or where that gives no stat
/// the better one of it and the text with the icon painted over.
pub open spec fn line_text_read(
    before: Log,
    after: Log,
    image: RgbImage,
    scaler: CoordScaler,
    rect: BaseRect,
    text: Seq<char>,
) -> bool {
    exists|middle: Log, plain: Answer|
        {
            &&& #[trigger] asked(before, middle, request_for(image, scaler, rect, Treatment::Plain), plain)
            &&& if stat_said(text_or_empty(plain)) is Some {
                after == middle && text == text_or_empty(plain)
            } else {
                line_masked(middle, after, image, scaler, rect, text_or_empty(plain), text)
            }
        }
}

/// The text of a substat line.
pub fn read_line<P: ImageToText>(
    general: &mut P,
    image: &RgbImage,
    scaler: &CoordScaler,
    rect: BaseRect,
) -> (text: String)
    ensures
        line_text_read(
            old(general).log(),
            final(general).log(),
            *image,
            *scaler,
            rect,
            text@,
        ),
{
    let ghost before = general.log();
    let answer = read_region(general, image, scaler, rect, Treatment::Plain);
    let ghost first = answer_of(answer);
    let ghost middle = general.log();
    assert(asked(before, middle, request_for(*image, *scaler, rect, Treatment::Plain), first));
    let plain = or_empty(answer);
    if parse_stat_from_text(plain.as_str()).is_some() {
        return plain;
    }
    let answer = read_region(general, image, scaler, rect, Treatment::Masked);
    let ghost second = answer_of(answer);
    let masked = or_empty(answer);
    let ghost p = plain@;
    let text = choose_line(plain, masked);
    proof {
        let after = general.log();
        assert(asked(middle, after, request_for(*image, *scaler, rect, Treatment::Masked), second));
        assert(line_masked(middle, after, *image, *scaler, rect, p, text@));
    }
    text
}

/// What is asked for the number of a stat line.
pub open spec fn number_request(
    image: RgbImage,
    scaler: CoordScaler,
    rect: BaseRect,
    pct: bool,
) -> OcrRequest {
    OcrRequest {
        region: region_at(
            number_region_of(
                image,
                scaler,
                (rect.0 as int, rect.1 as int, rect.2 as int, rect.3 as int),
                pct,
            ),
        ),
        treatment: Treatment::Enlarged,
    }
}

/// The number that an answer gives for a stat: that in its text, if it is above
/// one half.
pub open spec fn number_given(answer: Answer) -> Option<int> {
    match answer {
        Ok(text) => match crate::good_common::stat_parser::extracted(
            crate::good_common::stat_parser::mended(crate::text::trimmed(text), true),
        ) {
            Some(value) => if value > 500_000 {
                Some(value)
            } else {
                None
            },
            None => None,
        },
        Err(_) => None,
    }
}

/// The stat that comes of a text with its name and of a second reading of its
/// number: where the text names a stat, the engine is asked once for the number
/// and gives it or not; else it is not asked, and there is no stat.
pub open spec fn pieced(
    before: Log,
    after: Log,
    image: RgbImage,
    scaler: CoordScaler,
    rect: BaseRect,
    text: Seq<char>,
    found: Option<Stat>,
) -> bool {
    match crate::good_common::stat_parser::stat_key_in(crate::text::trimmed(text)) {
        Some((key, pct, inactive)) => exists|answer: Answer|
            {
                &&& #[trigger] asked(before, after, number_request(image, scaler, rect, pct), answer)
                &&& found == match number_given(answer) {
                    Some(value) => Some((key, value, inactive)),
                    None => None::<Stat>,
                }
            },
        None => after == before && found is None,
    }
}

/// The stat of a reading, where there is one.
pub open spec fn stat_of_found(found: Option<OcrCandidate>) -> Option<Stat> {
    match found {
        Some(c) => Some(stat_of(c)),
        None => None,
    }
}

/// Pieces a stat together from a text with its name and a second reading of its
/// number.
pub fn piece_together<P: ImageToText>(
    general: &mut P,
    image: &RgbImage,
    scaler: &CoordScaler,
    rect: BaseRect,
    text: &str,
) -> (found: Option<OcrCandidate>)
    requires
        0 <= rect.0 <= 1_000_000,
        0 <= rect.2 <= 1_000_000,
    ensures
        crate::good_common::stat_parser::stat_key_in(crate::text::trimmed(text@)) is None
            ==> *final(general) == *old(general),
        pieced(
            old(general).log(),
            final(general).log(),
            *image,
            *scaler,
            rect,
            text@,
            stat_of_found(found),
        ),
{
    let bare = trim_text(text);
    match try_extract_stat_key(bare.as_str()) {
        Some((key, pct, inactive)) => {
            let ghost before = general.log();
            let region = number_region(image, scaler, rect, pct);
            let answer = read_part(general, region, Treatment::Enlarged);
            let ghost given = answer_of(answer);
            assert(asked(
                before,
                general.log(),
                number_request(*image, *scaler, rect, pct),
                given,
            ));
            match answer {
                Ok(number) => {
                    let bare_number = trim_text(number.as_str());
                    match extract_number(bare_number.as_str()) {
                        Some(value) => if value > 500_000 {
                            Some(OcrCandidate { key, value, inactive })
                        } else {
                            None
                        },
                        None => None,
                    }
                },
                Err(_) => None,
            }
        },
        None => None,
    }
}

/// The stats of a reading that may be missing.
pub open spec fn at_most_one(found: Option<Stat>) -> Seq<Stat> {
    match found {
        Some(stat) => seq![stat],
        None => Seq::empty(),
    }
}

/// What became of the text of a line: its stats, or nothing where the line is
/// no substat. A line past the substats is none, nor is one without a stat that
/// has the name of a set; else where the text has no stat, one may be pieced
/// together.
pub open spec fn line_judged(
    before: Log,
    after: Log,
    image: RgbImage,
    scaler: CoordScaler,
    sets: Map<Seq<char>, String>,
    rect: BaseRect,
    text: Seq<char>,
    line: Option<Seq<Stat>>,
) -> bool {
    if past_substats(text) {
        after == before && line is None
    } else if line_stat(text) is Some {
        after == before && line == Some(at_most_one(line_stat(text)))
    } else {
        exists|key: Option<Seq<char>>|
            {
                &&& #[trigger] set_named(crate::text::trimmed(text), sets, key)
                &&& if key is Some {
                    after == before && line is None
                } else if byte_len(crate::text::trimmed(text)) < 2 {
                    after == before && line == Some(Seq::<Stat>::empty())
                } else {
                    exists|found: Option<Stat>| #[trigger]
                        pieced(before, after, image, scaler, rect, text, found) && line
                            == Some(at_most_one(found))
                }
            }
    }
}

/// A line of the card was read and gave these stats, or it is no substat.
pub open spec fn line_read(
    before: Log,
    after: Log,
    image: RgbImage,
    scaler: CoordScaler,
    sets: Map<Seq<char>, String>,
    rect: BaseRect,
    line: Option<Seq<Stat>>,
) -> bool {
    exists|middle: Log, text: Seq<char>|
        {
            &&& #[trigger] line_text_read(before, middle, image, scaler, rect, text)
            &&& line_judged(middle, after, image, scaler, sets, rect, text, line)
        }
}

/// The lines of the card were read from top to bottom, and gave these stats.
pub open spec fn lines_read(
    before: Log,
    after: Log,
    card: CardLines,
    sets: Map<Seq<char>, String>,
    lines: Seq<Seq<Stat>>,
) -> bool
    decreases lines.len(),
{
    if lines.len() == 0 {
        after == before
    } else {
        exists|middle: Log|
            {
                &&& lines_read(before, middle, card, sets, lines.drop_last())
                &&& #[trigger] line_read(
                    middle,
                    after,
                    card.image,
                    card.scaler,
                    sets,
                    card.rect(lines.len() - 1),
                    Some(lines.last()),
                )
            }
    }
}

/// The lines of the card were read up to the first that is no substat, and no
/// more than `max` of them.
pub open spec fn all_lines_read(
    before: Log,
    after: Log,
    card: CardLines,
    sets: Map<Seq<char>, String>,
    max: int,
    lines: Seq<Seq<Stat>>,
) -> bool {
    if lines.len() == max {
        lines_read(before, after, card, sets, lines)
    } else {
        &&& lines.len() < max
        &&& exists|middle: Log|
            {
                &&& lines_read(before, middle, card, sets, lines)
                &&& #[trigger] line_read(
                    middle,
                    after,
                    card.image,
                    card.scaler,
                    sets,
                    card.rect(lines.len() as int),
                    None,
                )
            }
    }
}

/// The stats of the readings of a line.
pub open spec fn stats_of(line: Seq<OcrCandidate>) -> Seq<Stat> {
    Seq::new(line.len(), |i: int| stat_of(line[i]))
}

/// The stats of the readings of all lines.
pub open spec fn all_stats(lines: Seq<Vec<OcrCandidate>>) -> Seq<Seq<Stat>> {
    Seq::new(lines.len(), |i: int| stats_of(lines[i]@))
}

proof fn lemma_all_stats_push(lines: Seq<Vec<OcrCandidate>>, line: Vec<OcrCandidate>)
    ensures
        all_stats(lines.push(line)) == all_stats(lines).push(stats_of(line@)),
{
    assert(all_stats(lines.push(line)) =~= all_stats(lines).push(stats_of(line@)));
}

/// Reads a line of the card; nothing where it is no substat.
fn read_one<P: ImageToText>(
    general: &mut P,
    image: &RgbImage,
    scaler: &CoordScaler,
    rect: BaseRect,
    sets: &NameMap<String>,
) -> (line: Option<Vec<OcrCandidate>>)
    requires
        0 <= rect.0 <= 1_000_000,
        0 <= rect.2 <= 1_000_000,
    ensures
        match line {
            Some(l) => line_read(
                old(general).log(),
                final(general).log(),
                *image,
                *scaler,
                sets@,
                rect,
                Some(stats_of(l@)),
            ),
            None => line_read(old(general).log(), final(general).log(), *image, *scaler, sets@, rect, None),
        },
{
    let ghost before = general.log();
    let text = read_line(general, image, scaler, rect);
    let ghost middle = general.log();
    let (found, stop) = parse_line(text.as_str());
    assert(line_text_read(before, middle, *image, *scaler, rect, text@));
    if stop {
        assert(line_judged(middle, middle, *image, *scaler, sets@, rect, text@, None));
        return None;
    }
    let mut line: Vec<OcrCandidate> = Vec::new();
    match found {
        Some(c) => {
            line.push(c);
            proof {
                assert(stats_of(line@) =~= at_most_one(Some(stat_of(c))));
                assert(line_judged(middle, middle, *image, *scaler, sets@, rect, text@, Some(stats_of(line@))));
            }
        },
        None => {
            let bare = trim_text(text.as_str());
            let named = find_set_key_in_text(bare.as_str(), sets);
            let ghost key = crate::text::text_of(named);
            assert(set_named(crate::text::trimmed(text@), sets@, key));
            if named.is_some() {
                assert(line_judged(middle, middle, *image, *scaler, sets@, rect, text@, None));
                return None;
            }
            let len: usize = bare.as_str().len();
            if len >= 2 {
                let pieced_together = piece_together(general, image, scaler, rect, text.as_str());
                let ghost stat = stat_of_found(pieced_together);
                assert(pieced(middle, general.log(), *image, *scaler, rect, text@, stat));
                match pieced_together {
                    Some(c) => {
                        line.push(c);
                    },
                    None => {},
                }
                assert(stats_of(line@) =~= at_most_one(stat));
            } else {
                assert(stats_of(line@) =~= Seq::<Stat>::empty());
            }
            assert(line_judged(
                middle,
                general.log(),
                *image,
                *scaler,
                sets@,
                rect,
                text@,
                Some(stats_of(line@)),
            ));
        },
    }
    Some(line)
}

/// Reads the substat lines of a card from top to bottom, up to the first that
/// is no substat.
pub fn read_lines<P: ImageToText>(
    general: &mut P,
    image: &RgbImage,
    scaler: &CoordScaler,
    regions: &ArtifactOcrRegions,
    sets: &NameMap<String>,
    y_shift: i32,
    max: usize,
) -> (lines: Vec<Vec<OcrCandidate>>)
    requires
        regions.standard(),
        0 <= y_shift <= 40,
        max <= 4,
    ensures
        all_lines_read(
            old(general).log(),
            final(general).log(),
            card_lines(*image, *scaler, *regions, y_shift as int),
            sets@,
            max as int,
            all_stats(lines@),
        ),
{
    let ghost start = general.log();
    let ghost card = card_lines(*image, *scaler, *regions, y_shift as int);
    let mut lines: Vec<Vec<OcrCandidate>> = Vec::new();
    let mut i: usize = 0;
    while i < max
        invariant
            regions.standard(),
            0 <= y_shift <= 40,
            i <= max <= 4,
            lines@.len() == i,
            start == old(general).log(),
            card == card_lines(*image, *scaler, *regions, y_shift as int),
            lines_read(start, general.log(), card, sets@, all_stats(lines@)),
        decreases max - i,
    {
        let rect = shifted(regions.substat_lines[i], y_shift);
        assert(rect == card.rect(i as int));
        let ghost middle = general.log();
        let read = read_one(general, image, scaler, rect, sets);
        match read {
            Some(line) => {
                let ghost earlier = all_stats(lines@);
                proof {
                    lemma_all_stats_push(lines@, line);
                }
                lines.push(line);
                proof {
                    let now = all_stats(lines@);
                    assert(now.drop_last() =~= earlier);
                    assert(line_read(
                        middle,
                        general.log(),
                        card.image,
                        card.scaler,
                        sets@,
                        card.rect(now.len() - 1),
                        Some(now.last()),
                    ));
                }
            },
            None => {
                assert(line_read(
                    middle,
                    general.log(),
                    card.image,
                    card.scaler,
                    sets@,
                    card.rect(i as int),
                    None,
                ));
                return lines;
            },
        }
        i = i + 1;
    }
    lines
}

/// A card with its lines.
pub open spec fn card_lines(
    image: RgbImage,
    scaler: CoordScaler,
    regions: ArtifactOcrRegions,
    y_shift: int,
) -> CardLines {
    CardLines { image, scaler, regions, y_shift }
}

/// An engine was asked for the text under a rectangle, and this is the stat in
/// it.
pub open spec fn stat_tried(
    before: Log,
    after: Log,
    image: RgbImage,
    scaler: CoordScaler,
    rect: BaseRect,
    found: Option<Stat>,
) -> bool {
    exists|answer: Answer| #[trigger]
        asked(before, after, request_for(image, scaler, rect, Treatment::Plain), answer) && found
            == line_stat(text_or_empty(answer))
}

/// The substat that an engine reads under a rectangle.
pub fn try_engine<O: ImageToText>(
    ocr: &mut O,
    image: &RgbImage,
    scaler: &CoordScaler,
    rect: BaseRect,
) -> (found: Option<OcrCandidate>)
    ensures
        stat_tried(
            old(ocr).log(),
            final(ocr).log(),
            *image,
            *scaler,
            rect,
            stat_of_found(found),
        ),
{
    let ghost before = ocr.log();
    let answer = read_region(ocr, image, scaler, rect, Treatment::Plain);
    let ghost given = answer_of(answer);
    assert(asked(before, ocr.log(), request_for(*image, *scaler, rect, Treatment::Plain), given));
    parse_line(or_empty(answer).as_str()).0
}

/// How a rectangle is varied when a line is read again: how far it is moved
/// down, and by how much it is widened.
pub open spec fn variation(k: int) -> (int, int) {
    if k == 0 {
        (0, 0)
    } else if k == 1 {
        (-2, 0)
    } else if k == 2 {
        (-2, 10)
    } else if k == 3 {
        (-2, -10)
    } else if k == 4 {
        (2, 0)
    } else if k == 5 {
        (2, 10)
    } else if k == 6 {
        (2, -10)
    } else if k == 7 {
        (0, 10)
    } else {
        (0, -10)
    }
}

/// The number of variations.
pub const VARIATIONS: usize = 9;

/// The varied rectangle of a substat line.
pub open spec fn varied_rect(rect: BaseRect, k: int) -> BaseRect {
    (rect.0, (rect.1 + variation(k).0) as i32, (rect.2 + variation(k).1) as i32, rect.3)
}

/// The varied rectangle of a substat line.
pub fn vary(rect: BaseRect, k: usize) -> (r: BaseRect)
    requires
        k < VARIATIONS,
        -10_000 <= rect.1 <= 10_000,
        -10_000 <= rect.2 <= 10_000,
    ensures
        r == varied_rect(rect, k as int),
{
    let dy: i32 = if 1 <= k && k <= 3 {
        -2
    } else if 4 <= k && k <= 6 {
        2
    } else {
        0
    };
    let dw: i32 = if k == 2 || k == 5 || k == 7 {
        10
    } else if k == 3 || k == 6 || k == 8 {
        -10
    } else {
        0
    };
    (rect.0, rect.1 + dy, rect.2 + dw, rect.3)
}

/// What came of a variation of a rectangle: the general engine is asked first,
/// but not about the rectangle itself, and then the level engine, if the other
/// gave no stat.
pub open spec fn variation_tried(
    g0: Log,
    g1: Log,
    l0: Log,
    l1: Log,
    image: RgbImage,
    scaler: CoordScaler,
    rect: BaseRect,
    k: int,
    found: Option<Stat>,
) -> bool {
    let varied = varied_rect(rect, k);
    if k == 0 {
        g1 == g0 && stat_tried(l0, l1, image, scaler, varied, found)
    } else {
        exists|first: Option<Stat>|
            {
                &&& #[trigger] stat_tried(g0, g1, image, scaler, varied, first)
                &&& if first is Some {
                    l1 == l0 && found == first
                } else {
                    stat_tried(l0, l1, image, scaler, varied, found)
                }
            }
    }
}

/// The first `k` variations were tried one after the other, and none gave a
/// stat.
pub open spec fn variations_failed(
    g0: Log,
    g1: Log,
    l0: Log,
    l1: Log,
    image: RgbImage,
    scaler: CoordScaler,
    rect: BaseRect,
    k: int,
) -> bool
    decreases k,
{
    if k <= 0 {
        g1 == g0 && l1 == l0
    } else {
        exists|g: Log, l: Log|
            {
                &&& variations_failed(g0, g, l0, l, image, scaler, rect, k - 1)
                &&& #[trigger] variation_tried(
                    g,
                    g1,
                    l,
                    l1,
                    image,
                    scaler,
                    rect,
                    k - 1,
                    None,
                )
            }
    }
}

/// A line was read again: the first variation that gives a stat decides. Where
/// none does, the general engine is asked for the line once more, for the
/// record.
pub open spec fn line_recovered(
    g0: Log,
    g1: Log,
    l0: Log,
    l1: Log,
    image: RgbImage,
    scaler: CoordScaler,
    rect: BaseRect,
    found: Option<Stat>,
) -> bool {
    match found {
        Some(_) => exists|k: int, g: Log, l: Log|
            {
                &&& 0 <= k < VARIATIONS
                &&& variations_failed(g0, g, l0, l, image, scaler, rect, k)
                &&& #[trigger] variation_tried(
                    g,
                    g1,
                    l,
                    l1,
                    image,
                    scaler,
                    rect,
                    k,
                    found,
                )
            },
        None => exists|g: Log, answer: Answer|
            {
                &&& variations_failed(g0, g, l0, l1, image, scaler, rect, VARIATIONS as int)
                &&& #[trigger] asked(
                    g,
                    g1,
                    request_for(image, scaler, rect, Treatment::Plain),
                    answer,
                )
            },
    }
}

fn try_variation<O: ImageToText, P: ImageToText>(
    level_ocr: &mut O,
    general: &mut P,
    image: &RgbImage,
    scaler: &CoordScaler,
    rect: BaseRect,
    k: usize,
) -> (found: Option<OcrCandidate>)
    requires
        k < VARIATIONS,
        -10_000 <= rect.1 <= 10_000,
        -10_000 <= rect.2 <= 10_000,
    ensures
        variation_tried(
            old(general).log(),
            final(general).log(),
            old(level_ocr).log(),
            final(level_ocr).log(),
            *image,
            *scaler,
            rect,
            k as int,
            stat_of_found(found),
        ),
{
    let varied = vary(rect, k);
    if k > 0 {
        let ghost g = general.log();
        let found = try_engine(general, image, scaler, varied);
        let ghost first = stat_of_found(found);
        assert(stat_tried(g, general.log(), *image, *scaler, varied, first));
        if found.is_some() {
            return found;
        }
    }
    try_engine(level_ocr, image, scaler, varied)
}

/// Reads a line again with both engines and varied rectangles, until one of
/// them gives a substat.
pub fn recover_line<O: ImageToText, P: ImageToText>(
    level_ocr: &mut O,
    general: &mut P,
    image: &RgbImage,
    scaler: &CoordScaler,
    rect: BaseRect,
) -> (found: Option<OcrCandidate>)
    requires
        -10_000 <= rect.1 <= 10_000,
        -10_000 <= rect.2 <= 10_000,
    ensures
        line_recovered(
            old(general).log(),
            final(general).log(),
            old(level_ocr).log(),
            final(level_ocr).log(),
            *image,
            *scaler,
            rect,
            stat_of_found(found),
        ),
{
    let ghost g0 = general.log();
    let ghost l0 = level_ocr.log();
    let mut k: usize = 0;
    while k < VARIATIONS
        invariant
            k <= VARIATIONS,
            -10_000 <= rect.1 <= 10_000,
            -10_000 <= rect.2 <= 10_000,
            g0 == old(general).log(),
            l0 == old(level_ocr).log(),
            variations_failed(
                g0,
                general.log(),
                l0,
                level_ocr.log(),
                *image,
                *scaler,
                rect,
                k as int,
            ),
        decreases VARIATIONS - k,
    {
        let ghost g = general.log();
        let ghost l = level_ocr.log();
        let found = try_variation(level_ocr, general, image, scaler, rect, k);
        assert(variation_tried(
            g,
            general.log(),
            l,
            level_ocr.log(),
            *image,
            *scaler,
            rect,
            k as int,
            stat_of_found(found),
        ));
        if found.is_some() {
            return found;
        }
        k = k + 1;
        assert(variation_tried(
            g,
            general.log(),
            l,
            level_ocr.log(),
            *image,
            *scaler,
            rect,
            k - 1,
            None,
        ));
    }
    let ghost g = general.log();
    let answer = read_region(general, image, scaler, rect, Treatment::Plain);
    let ghost given = answer_of(answer);
    assert(asked(g, general.log(), request_for(*image, *scaler, rect, Treatment::Plain), given));
    None
}

/// The first `n` lines without those that have no reading.
pub open spec fn nonempty(lines: Seq<Seq<Stat>>, n: nat) -> Seq<Seq<Stat>>
    decreases n,
{
    if n == 0 {
        Seq::empty()
    } else if lines[n - 1].len() > 0 {
        nonempty(lines, (n - 1) as nat).push(lines[n - 1])
    } else {
        nonempty(lines, (n - 1) as nat)
    }
}

fn copy_line(line: &Vec<OcrCandidate>) -> (out: Vec<OcrCandidate>)
    ensures
        stats_of(out@) == stats_of(line@),
{
    let mut out: Vec<OcrCandidate> = Vec::new();
    let mut i: usize = 0;
    while i < line.len()
        invariant
            i <= line@.len(),
            out@.len() == i,
            forall|k: int| 0 <= k < i ==> stat_of(#[trigger] out@[k]) == stat_of(line@[k]),
        decreases line@.len() - i,
    {
        out.push(
            OcrCandidate {
                key: copy_of(line[i].key.as_str()),
                value: line[i].value,
                inactive: line[i].inactive,
            },
        );
        i = i + 1;
    }
    assert(stats_of(out@) =~= stats_of(line@));
    out
}

/// The lines without those that have no reading.
pub fn without_empty(lines: &Vec<Vec<OcrCandidate>>) -> (out: Vec<Vec<OcrCandidate>>)
    ensures
        all_stats(out@) == nonempty(all_stats(lines@), lines@.len()),
        out@.len() <= lines@.len(),
{
    let mut out: Vec<Vec<OcrCandidate>> = Vec::new();
    let mut i: usize = 0;
    assert(all_stats(out@) =~= nonempty(all_stats(lines@), 0));
    while i < lines.len()
        invariant
            i <= lines@.len(),
            out@.len() <= i,
            all_stats(out@) == nonempty(all_stats(lines@), i as nat),
        decreases lines@.len() - i,
    {
        assert(all_stats(lines@)[i as int].len() == lines@[i as int]@.len());
        if lines[i].len() > 0 {
            let ghost before = all_stats(out@);
            let line = copy_line(&lines[i]);
            out.push(line);
            assert(all_stats(out@) =~= before.push(stats_of(line@)));
        }
        i = i + 1;
    }
    out
}

/// The lines, filled up to four with lines that have no reading.
pub open spec fn four_lines(lines: Seq<Seq<Stat>>) -> Seq<Seq<Stat>> {
    Seq::new(
        4,
        |i: int|
            if i < lines.len() {
                lines[i]
            } else {
                Seq::empty()
            },
    )
}

/// The first `n` of four lines were read again one after the other, where they
/// had no reading.
pub open spec fn lines_recovered(
    g0: Log,
    g1: Log,
    l0: Log,
    l1: Log,
    card: CardLines,
    n: int,
    lines: Seq<Seq<Stat>>,
    out: Seq<Seq<Stat>>,
) -> bool
    decreases n,
{
    if n <= 0 {
        g1 == g0 && l1 == l0 && out == four_lines(lines)
    } else if four_lines(lines)[n - 1].len() > 0 {
        lines_recovered(g0, g1, l0, l1, card, n - 1, lines, out)
    } else {
        exists|g: Log, l: Log, found: Option<Stat>|
            {
                &&& out.len() == 4
                &&& out[n - 1] == at_most_one(found)
                &&& lines_recovered(
                    g0,
                    g,
                    l0,
                    l,
                    card,
                    n - 1,
                    lines,
                    out.update(n - 1, Seq::empty()),
                )
                &&& #[trigger] line_recovered(
                    g,
                    g1,
                    l,
                    l1,
                    card.image,
                    card.scaler,
                    card.rect(n - 1),
                    found,
                )
            }
    }
}

/// Fills up lines without a reading: the card has at least `required` of them.
pub fn recover_lines<O: ImageToText, P: ImageToText>(
    level_ocr: &mut O,
    general: &mut P,
    image: &RgbImage,
    scaler: &CoordScaler,
    regions: &ArtifactOcrRegions,
    y_shift: i32,
    required: usize,
    lines: Vec<Vec<OcrCandidate>>,
) -> (out: Vec<Vec<OcrCandidate>>)
    requires
        regions.standard(),
        0 <= y_shift <= 40,
        required <= 4,
        lines@.len() <= 4,
    ensures
        out@.len() == 4,
        lines_recovered(
            old(general).log(),
            final(general).log(),
            old(level_ocr).log(),
            final(level_ocr).log(),
            card_lines(*image, *scaler, *regions, y_shift as int),
            required as int,
            all_stats(lines@),
            all_stats(out@),
        ),
{
    let ghost g0 = general.log();
    let ghost l0 = level_ocr.log();
    let ghost card = card_lines(*image, *scaler, *regions, y_shift as int);
    let ghost first = all_stats(lines@);
    let mut lines = lines;
    while lines.len() < 4
        invariant
            first.len() <= lines@.len() <= 4,
            forall|i: int| 0 <= i < first.len() ==> #[trigger] all_stats(lines@)[i] == first[i],
            forall|i: int|
                first.len() <= i < lines@.len() ==> (#[trigger] all_stats(lines@)[i]).len() == 0,
        decreases 4 - lines@.len(),
    {
        let none: Vec<OcrCandidate> = Vec::new();
        proof {
            lemma_all_stats_push(lines@, none);
        }
        lines.push(none);
    }
    let ghost padded = all_stats(lines@);
    assert(padded =~= four_lines(first)) by {
        assert forall|i: int| first.len() <= i < 4 implies padded[i] == Seq::<Stat>::empty() by {
            assert(padded[i] =~= Seq::<Stat>::empty());
        }
    }
    let mut i: usize = 0;
    while i < required
        invariant
            regions.standard(),
            0 <= y_shift <= 40,
            i <= required <= 4,
            lines@.len() == 4,
            padded == four_lines(first),
            card == card_lines(*image, *scaler, *regions, y_shift as int),
            forall|k: int| i <= k < 4 ==> #[trigger] all_stats(lines@)[k] == padded[k],
            lines_recovered(
                g0,
                general.log(),
                l0,
                level_ocr.log(),
                card,
                i as int,
                first,
                all_stats(lines@),
            ),
        decreases required - i,
    {
        let ghost before = all_stats(lines@);
        assert(before[i as int] == padded[i as int]);
        assert(before[i as int].len() == lines@[i as int]@.len());
        if lines[i].len() == 0 {
            let ghost g = general.log();
            let ghost l = level_ocr.log();
            let rect = shifted(regions.substat_lines[i], y_shift);
            assert(rect == card.rect(i as int));
            let found = recover_line(level_ocr, general, image, scaler, rect);
            let ghost stat = stat_of_found(found);
            let mut line: Vec<OcrCandidate> = Vec::new();
            match found {
                Some(c) => {
                    line.push(c);
                },
                None => {},
            }
            assert(stats_of(line@) =~= at_most_one(stat));
            lines.set(i, line);
            proof {
                let now = all_stats(lines@);
                let n: int = i + 1;
                assert(now =~= before.update(i as int, stats_of(line@)));
                assert(before[i as int] =~= Seq::<Stat>::empty());
                assert(now.update(n - 1, Seq::empty()) =~= before);
                assert(line_recovered(
                    g,
                    general.log(),
                    l,
                    level_ocr.log(),
                    card.image,
                    card.scaler,
                    card.rect(n - 1),
                    stat,
                ));
                assert(lines_recovered(
                    g0,
                    general.log(),
                    l0,
                    level_ocr.log(),
                    card,
                    n,
                    first,
                    now,
                ));
            }
        }
        i = i + 1;
    }
    lines
}

/// The list already has such a stat: one with the same key and, but for less
/// than a hundredth, the same value.
pub open spec fn has_stat(line: Seq<Stat>, stat: Stat) -> bool {
    exists|i: int|
        0 <= i < line.len() && (#[trigger] line[i]).0 == stat.0 && same_value(line[i].1, stat.1)
}

/// The line with one more reading, unless there is none or the line has it.
pub open spec fn with_reading(line: Seq<Stat>, found: Option<Stat>) -> Seq<Stat> {
    match found {
        Some(stat) => if has_stat(line, stat) {
            line
        } else {
            line.push(stat)
        },
        None => line,
    }
}

/// All lines were read once more from top to bottom with the right of each
/// rectangle cut off, and what was not read before was added.
pub open spec fn cropped_read(
    before: Log,
    after: Log,
    card: CardLines,
    cut: int,
    lines: Seq<Seq<Stat>>,
    out: Seq<Seq<Stat>>,
) -> bool
    decreases out.len(),
{
    if out.len() == 0 {
        after == before
    } else {
        exists|middle: Log, text: Seq<char>|
            {
                &&& cropped_read(before, middle, card, cut, lines, out.drop_last())
                &&& #[trigger] line_text_read(
                    middle,
                    after,
                    card.image,
                    card.scaler,
                    card.cut_rect(out.len() - 1, cut),
                    text,
                )
                &&& out.last() == with_reading(lines[out.len() - 1], line_stat(text))
            }
    }
}

/// Reads all lines once more with the right of each rectangle cut off, and adds
/// what was not read before.
pub fn read_cropped<P: ImageToText>(
    general: &mut P,
    image: &RgbImage,
    scaler: &CoordScaler,
    regions: &ArtifactOcrRegions,
    y_shift: i32,
    cut: i32,
    lines: &Vec<Vec<OcrCandidate>>,
) -> (out: Vec<Vec<OcrCandidate>>)
    requires
        regions.standard(),
        0 <= y_shift <= 40,
        0 <= cut <= 20,
        lines@.len() <= 4,
    ensures
        out@.len() == lines@.len(),
        cropped_read(
            old(general).log(),
            final(general).log(),
            card_lines(*image, *scaler, *regions, y_shift as int),
            cut as int,
            all_stats(lines@),
            all_stats(out@),
        ),
{
    let ghost start = general.log();
    let ghost card = card_lines(*image, *scaler, *regions, y_shift as int);
    let ghost all = all_stats(lines@);
    let mut out: Vec<Vec<OcrCandidate>> = Vec::new();
    let mut i: usize = 0;
    while i < lines.len()
        invariant
            regions.standard(),
            0 <= y_shift <= 40,
            0 <= cut <= 20,
            i <= lines@.len() <= 4,
            out@.len() == i,
            all == all_stats(lines@),
            card == card_lines(*image, *scaler, *regions, y_shift as int),
            start == old(general).log(),
            cropped_read(start, general.log(), card, cut as int, all, all_stats(out@)),
        decreases lines@.len() - i,
    {
        let full = shifted(regions.substat_lines[i], y_shift);
        assert(regions.substat_lines@[i as int].2 >= 255);
        let rect = (full.0, full.1, full.2 - cut, full.3);
        assert(rect == card.cut_rect(i as int, cut as int));
        let ghost middle = general.log();
        let text = read_line(general, image, scaler, rect);
        let mut line = copy_line(&lines[i]);
        let ghost old_line = line@;
        let ghost old_stats = stats_of(line@);
        let (found, _) = parse_line(text.as_str());
        match found {
            Some(c) => {
                let ghost stat = stat_of(c);
                let added = add_reading(&mut line, c);
                proof {
                    lemma_has_stat(old_line, c);
                    if added {
                        assert(stats_of(line@) =~= old_stats.push(stat));
                    }
                }
            },
            None => {},
        }
        assert(stats_of(line@) == with_reading(all[i as int], line_stat(text@)));
        let ghost earlier = all_stats(out@);
        proof {
            lemma_all_stats_push(out@, line);
        }
        out.push(line);
        proof {
            let now = all_stats(out@);
            assert(now.drop_last() =~= earlier);
            assert(line_text_read(
                middle,
                general.log(),
                card.image,
                card.scaler,
                card.cut_rect(now.len() - 1, cut as int),
                text@,
            ));
        }
        i = i + 1;
    }
    out
}

proof fn lemma_has_stat(line: Seq<OcrCandidate>, c: OcrCandidate)
    ensures
        has_reading(line, c) == has_stat(stats_of(line), stat_of(c)),
{
    if has_reading(line, c) {
        let i = choose|i: int|
            0 <= i < line.len() && (#[trigger] line[i]).key@ == c.key@ && same_value(
                line[i].value as int,
                c.value as int,
            );
        assert(stats_of(line)[i] == stat_of(line[i]));
    }
    if has_stat(stats_of(line), stat_of(c)) {
        let i = choose|i: int|
            0 <= i < line.len() && (#[trigger] stats_of(line)[i]).0 == c.key@ && same_value(
                stats_of(line)[i].1,
                c.value as int,
            );
        assert(line[i].key@ == c.key@);
    }
}

/// How many lines have a reading.
pub fn count_nonempty(lines: &Vec<Vec<OcrCandidate>>) -> (n: usize)
    ensures
        n == nonempty(all_stats(lines@), lines@.len()).len(),
{
    let mut n: usize = 0;
    let mut i: usize = 0;
    while i < lines.len()
        invariant
            i <= lines@.len(),
            n <= i,
            n == nonempty(all_stats(lines@), i as nat).len(),
        decreases lines@.len() - i,
    {
        assert(all_stats(lines@)[i as int].len() == lines@[i as int]@.len());
        if lines[i].len() > 0 {
            n = n + 1;
        }
        i = i + 1;
    }
    n
}

/// The readings of the lines are what the solver is given, without the lines
/// that have none.
pub open spec fn input_of(
    input: SolverInput,
    rarity: i32,
    levels: Seq<i32>,
    lines: Seq<Seq<Stat>>,
) -> bool {
    &&& input.rarity == rarity
    &&& input.level_candidates@ == levels
    &&& all_stats(input.substat_candidates@) == nonempty(lines, lines.len())
}

/// What the solver made of the lines: the substats, or nothing.
pub open spec fn lines_solved(
    rarity: i32,
    levels: Seq<i32>,
    lines: Seq<Seq<Stat>>,
    out: Option<Substats>,
) -> bool {
    exists|input: SolverInput|
        {
            &&& #[trigger] input_of(input, rarity, levels, lines)
            &&& match out {
                Some(subs) => exists|r: SolverResult| #[trigger]
                    solution(input, Some(r)) && as_solved(subs, r),
                None => solution(input, None),
            }
        }
}

/// The substats are the best readings of the lines.
pub open spec fn lines_guessed(lines: Seq<Seq<Stat>>, out: Substats) -> bool {
    exists|kept: Seq<Vec<OcrCandidate>>| #[trigger]
        all_stats(kept) == nonempty(lines, lines.len()) && as_guessed(out, kept)
}

/// What was read with a cut of 20, where the lines could not be solved before.
pub open spec fn settled_at_last(
    before: Log,
    after: Log,
    card: CardLines,
    rarity: i32,
    levels: Seq<i32>,
    lines: Seq<Seq<Stat>>,
    out: Substats,
) -> bool {
    exists|more: Seq<Seq<Stat>>|
        {
            &&& more.len() == lines.len()
            &&& #[trigger] cropped_read(before, after, card, 20, lines, more)
            &&& {
                ||| lines_solved(rarity, levels, more, Some(out))
                ||| lines_solved(rarity, levels, more, None) && lines_guessed(lines, out)
            }
        }
}

/// What was read with a cut of 10, and then of 20, where the lines as they were
/// read could not be solved.
pub open spec fn settled_cropped(
    before: Log,
    after: Log,
    card: CardLines,
    rarity: i32,
    levels: Seq<i32>,
    lines: Seq<Seq<Stat>>,
    out: Substats,
) -> bool {
    exists|middle: Log, more: Seq<Seq<Stat>>|
        {
            &&& more.len() == lines.len()
            &&& #[trigger] cropped_read(before, middle, card, 10, lines, more)
            &&& {
                ||| after == middle && lines_solved(rarity, levels, more, Some(out))
                ||| lines_solved(rarity, levels, more, None) && settled_at_last(
                    middle,
                    after,
                    card,
                    rarity,
                    levels,
                    lines,
                    out,
                )
            }
        }
}

/// What came of the lines: what the solver made of them as they were read, else
/// with what was read in cropped rectangles, else the best reading of each.
pub open spec fn settled(
    before: Log,
    after: Log,
    card: CardLines,
    rarity: i32,
    levels: Seq<i32>,
    lines: Seq<Seq<Stat>>,
    out: Substats,
) -> bool {
    ||| after == before && lines_solved(rarity, levels, lines, Some(out))
    ||| lines_solved(rarity, levels, lines, None) && settled_cropped(
        before,
        after,
        card,
        rarity,
        levels,
        lines,
        out,
    )
}

/// The lines of the card were read, and again where there are fewer than the
/// card must have.
pub open spec fn lines_found(
    g0: Log,
    g1: Log,
    l0: Log,
    l1: Log,
    card: CardLines,
    sets: Map<Seq<char>, String>,
    rarity: int,
    at_level: int,
    lines: Seq<Seq<Stat>>,
) -> bool {
    let fewest = fewest_lines(rarity, at_level);
    exists|g: Log, first: Seq<Seq<Stat>>|
        {
            &&& #[trigger] all_lines_read(
                g0,
                g,
                card,
                sets,
                most_lines(rarity, at_level),
                first,
            )
            &&& if nonempty(first, first.len()).len() < fewest {
                lines_recovered(g, g1, l0, l1, card, fewest, first, lines)
            } else {
                g1 == g && l1 == l0 && lines == first
            }
        }
}

/// The substats of a card were read: the lines were found with both engines,
/// and settled with what the general engine read in cropped rectangles.
pub open spec fn substats_read(
    g0: Log,
    g1: Log,
    l0: Log,
    l1: Log,
    card: CardLines,
    sets: Map<Seq<char>, String>,
    rarity: i32,
    at_level: int,
    levels: Seq<i32>,
    out: Substats,
) -> bool {
    exists|g: Log, lines: Seq<Seq<Stat>>|
        {
            &&& #[trigger] lines_found(
                g0,
                g,
                l0,
                l1,
                card,
                sets,
                rarity as int,
                at_level,
                lines,
            )
            &&& settled(g, g1, card, rarity, levels, lines, out)
        }
}

fn solver_input(rarity: i32, levels: &Vec<i32>, lines: &Vec<Vec<OcrCandidate>>) -> (input:
    SolverInput)
    ensures
        input_of(input, rarity, levels@, all_stats(lines@)),
{
    let mut copy: Vec<i32> = Vec::new();
    let mut i: usize = 0;
    while i < levels.len()
        invariant
            i <= levels@.len(),
            copy@ == levels@.take(i as int),
        decreases levels@.len() - i,
    {
        copy.push(levels[i]);
        i = i + 1;
        assert(levels@.take(i as int) =~= levels@.take(i - 1).push(levels@[i - 1]));
    }
    assert(levels@.take(i as int) =~= levels@);
    SolverInput { rarity, level_candidates: copy, substat_candidates: without_empty(lines) }
}

fn solve_lines(rarity: i32, levels: &Vec<i32>, lines: &Vec<Vec<OcrCandidate>>) -> (out: Option<
    Substats,
>)
    ensures
        lines_solved(rarity, levels@, all_stats(lines@), out),
{
    let input = solver_input(rarity, levels, lines);
    match solve(&input) {
        Some(r) => {
            assert(solution(input, Some(r)));
            Some(from_solution(&r))
        },
        None => None,
    }
}

fn guess_lines(lines: &Vec<Vec<OcrCandidate>>) -> (out: Substats)
    ensures
        lines_guessed(all_stats(lines@), out),
{
    let kept = without_empty(lines);
    from_guess(&kept)
}

fn find_lines<O: ImageToText, P: ImageToText>(
    level_ocr: &mut O,
    general: &mut P,
    image: &RgbImage,
    scaler: &CoordScaler,
    regions: &ArtifactOcrRegions,
    sets: &NameMap<String>,
    rarity: i32,
    level: i32,
    y_shift: i32,
) -> (lines: Vec<Vec<OcrCandidate>>)
    requires
        regions.standard(),
        0 <= y_shift <= 40,
        0 <= level <= MAX_LEVEL,
    ensures
        lines@.len() <= 4,
        lines_found(
            old(general).log(),
            final(general).log(),
            old(level_ocr).log(),
            final(level_ocr).log(),
            card_lines(*image, *scaler, *regions, y_shift as int),
            sets@,
            rarity as int,
            level as int,
            all_stats(lines@),
        ),
{
    let ghost g0 = general.log();
    let max: usize = max_scan_lines(rarity, level);
    let first = read_lines(general, image, scaler, regions, sets, y_shift, max);
    assert(all_lines_read(
        g0,
        general.log(),
        card_lines(*image, *scaler, *regions, y_shift as int),
        sets@,
        most_lines(rarity as int, level as int),
        all_stats(first@),
    ));
    assert(all_stats(first@).len() == first@.len());
    let required: usize = min_required(rarity, level);
    if count_nonempty(&first) < required {
        recover_lines(level_ocr, general, image, scaler, regions, y_shift, required, first)
    } else {
        first
    }
}

/// Reads the substats of a card.
pub fn read_substats<O: ImageToText, P: ImageToText>(
    level_ocr: &mut O,
    general: &mut P,
    image: &RgbImage,
    scaler: &CoordScaler,
    regions: &ArtifactOcrRegions,
    sets: &NameMap<String>,
    rarity: i32,
    level: i32,
    levels: &Vec<i32>,
    y_shift: i32,
) -> (out: Substats)
    requires
        regions.standard(),
        0 <= y_shift <= 40,
        0 <= level <= MAX_LEVEL,
    ensures
        substats_read(
            old(general).log(),
            final(general).log(),
            old(level_ocr).log(),
            final(level_ocr).log(),
            card_lines(*image, *scaler, *regions, y_shift as int),
            sets@,
            rarity,
            level as int,
            levels@,
            out,
        ),
{
    let ghost g0 = general.log();
    let ghost l0 = level_ocr.log();
    let ghost card = card_lines(*image, *scaler, *regions, y_shift as int);
    let lines = find_lines(
        level_ocr,
        general,
        image,
        scaler,
        regions,
        sets,
        rarity,
        level,
        y_shift,
    );
    let ghost g1 = general.log();
    let ghost found = all_stats(lines@);
    assert(lines_found(
        g0,
        g1,
        l0,
        level_ocr.log(),
        card,
        sets@,
        rarity as int,
        level as int,
        found,
    ));
    if let Some(out) = solve_lines(rarity, levels, &lines) {
        assert(settled(g1, g1, card, rarity, levels@, found, out));
        return out;
    }
    let cropped = read_cropped(general, image, scaler, regions, y_shift, 10, &lines);
    let ghost g2 = general.log();
    assert(cropped_read(g1, g2, card, 10, found, all_stats(cropped@)));
    assert(all_stats(cropped@).len() == found.len());
    if let Some(out) = solve_lines(rarity, levels, &cropped) {
        assert(settled_cropped(g1, g2, card, rarity, levels@, found, out));
        return out;
    }
    let more = read_cropped(general, image, scaler, regions, y_shift, 20, &lines);
    let ghost g3 = general.log();
    assert(cropped_read(g2, g3, card, 20, found, all_stats(more@)));
    assert(all_stats(more@).len() == found.len());
    let out = match solve_lines(rarity, levels, &more) {
        Some(out) => out,
        None => guess_lines(&lines),
    };
    proof {
        assert(settled_at_last(g2, g3, card, rarity, levels@, found, out));
        assert(settled_cropped(g1, g3, card, rarity, levels@, found, out));
    }
    out
}

} // verus!
