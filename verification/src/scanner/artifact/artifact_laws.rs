//! What holds of scanned artifacts.
use crate::good_common::stat_parser::slot_key;
use crate::image::RgbImage;
use crate::scanner::artifact::regions::{standard_lines, ArtifactOcrRegions};
use crate::scanner::artifact::scanner::{
    artifact_is, card_shift, elixir_banner, lesser_variant, main_key, main_stat_unknown, marks_of,
    nobody_read, ocr_failed, purple_at, scanned, scanned_level, scanned_main_stat, scanned_set,
    scanned_substats, scanned_wearer, scanned_wearer_again, set_unknown, skipped, slot_unknown,
    stat_rows, wearer_read, worn_by, ArtifactError, ArtifactScanResult, Card,
};
use crate::scanner::artifact::set_name::{
    chinese_count, counted_stats, is_chinese, set_line, set_row_below, set_text,
};
use crate::scanner::artifact::set_reader::{
    reported_text, same_row, set_rect, set_searched, RowReading,
};
use crate::scanner::artifact::substat_reader::{
    has_stat, nonempty, number_given, substats_read, variation, varied_rect, with_reading,
};
use crate::scanner::artifact::substats::{
    best_reading, better_line, fewest_lines, guessed_part, has_fraction, level_in, level_number,
    level_readings_of, line_stat, merged_level, most_lines, no_worse, past_substats, same_value,
    solved_part, stat_said, subs_of, Stat, Substats,
};
use crate::scanner::common::coord_scaler::CoordScaler;
use crate::scanner::common::equip_parser::wearer;
use crate::scanner::common::fuzzy_match::byte_len;
use crate::scanner::common::grid_voter::GridIconResult;
use crate::scanner::common::models::GoodArtifact;
use crate::scanner::common::ocr::{asked, text_or_empty, Answer, BaseRect, Log, OcrRequest};
use crate::scanner::common::pixel_utils::{artifact_rarity, base_pixel, dark_at};
use crate::scanner::common::roll_laws::up_to_four;
use crate::scanner::common::roll_solver::{OcrCandidate, SolvedSubstat};
use vstd::prelude::*;

verus! {

/// The level is the number in the text, where it is at most 20; else there is no
/// level, which -1 stands for.
pub proof fn levels_reach_twenty(text: Seq<char>)
    ensures
        level_number(text) matches Some(n) ==> level_in(text) == if n > 20 {
            -1
        } else {
            n
        },
        level_number(text) is None ==> level_in(text) == -1,
{
}

/// The number of a level is what stands behind a plus sign, which may be missing.
pub proof fn level_numbers_follow_a_plus(text: Seq<char>, groups: Seq<Option<Seq<char>>>)
    requires
        crate::patterns::first_match("\\+?\\s*(\\d+)"@, text) == Some(groups),
        groups.len() > 1,
        groups[1] is Some,
    ensures
        level_number(text) == crate::number::i32_of(groups[1]->0),
{
}

/// Of two readings of a level the higher one counts, and 0 where neither engine
/// read one; all levels that were read are tried, each once.
pub proof fn the_higher_level_counts(a: i32, b: i32)
    requires
        a >= -1,
        b >= -1,
    ensures
        merged_level(a as int, b as int) >= a,
        merged_level(a as int, b as int) >= b,
        merged_level(a as int, b as int) >= 0,
        merged_level(a as int, b as int) == a || merged_level(a as int, b as int) == b
            || merged_level(a as int, b as int) == 0,
        a >= 0 ==> level_readings_of(a, b)[0] == a,
        b >= 0 ==> level_readings_of(a, b).contains(b),
        level_readings_of(a, b).contains(merged_level(a as int, b as int) as i32),
        level_readings_of(a, b).len() == if a >= 0 && b >= 0 && a != b {
            2int
        } else {
            1
        },
        a < 0 && b < 0 ==> level_readings_of(a, b) == seq![0i32],
{
    let all = level_readings_of(a, b);
    if b >= 0 {
        assert(all[all.len() - 1] == b);
    }
    assert(all[0] == merged_level(a as int, b as int) || all[all.len() - 1] == merged_level(
        a as int,
        b as int,
    ));
}

/// A card shows as many lines as the larger start and the upgrades give, and at
/// least as many as the smaller start does; the four lines of a five-star
/// artifact may hold one that is not yet activated.
pub proof fn lines_follow_the_roll_rules(level: int)
    requires
        0 <= level <= 20,
    ensures
        most_lines(5, level) == 4,
        fewest_lines(5, level) == 4,
        most_lines(4, level) == up_to_four(3 + level / 4),
        fewest_lines(4, level) == up_to_four(2 + level / 4),
{
}

/// Two values are the same where they differ by less than a hundredth, and a
/// value has a fraction where more than a thousandth is left of it.
pub proof fn values_are_compared_to_hundredths(a: int, b: int)
    ensures
        same_value(a, b) <==> a - b < 10_000 && b - a < 10_000,
        same_value(a, b) == same_value(b, a),
        same_value(a, a),
        has_fraction(a) == has_fraction(-a),
        0 <= a < 1_000_000 ==> has_fraction(a) == (a >= 1_001),
        a >= 0 ==> has_fraction(a + 1_000_000) == has_fraction(a),
{
}

/// A value with a fraction is better than one without, and of two alike the
/// greater one is.
pub proof fn values_with_fractions_are_better(a: int, b: int)
    ensures
        has_fraction(b) && !has_fraction(a) ==> no_worse(a, b) && !no_worse(b, a),
        has_fraction(b) == has_fraction(a) ==> no_worse(a, b) == (b >= a),
{
}

/// A line that gives a stat as it is counts as it is; else the one with its icon
/// painted over counts if it gives a stat, or if it has more Chinese characters.
pub proof fn lines_that_give_stats_count(plain: Seq<char>, masked: Seq<char>)
    ensures
        stat_said(plain) is Some ==> better_line(plain, masked) == plain,
        stat_said(plain) is None && stat_said(masked) is Some ==> better_line(plain, masked)
            == masked,
        stat_said(plain) is Some || stat_said(masked) is Some ==> stat_said(
            better_line(plain, masked),
        ) is Some,
        stat_said(plain) is None && stat_said(masked) is None ==> chinese_count(
            better_line(plain, masked),
        ) >= chinese_count(plain) && chinese_count(better_line(plain, masked)) >= chinese_count(
            masked,
        ),
{
}

/// A text of which the effects of the set are read is past the substats and gives
/// no stat, and neither does a text of a single byte.
pub proof fn effects_are_past_the_substats(text: Seq<char>)
    ensures
        crate::text::occurs_in(text, "2件套"@) ==> past_substats(text) && line_stat(text) is None,
        past_substats(text) ==> crate::text::occurs_in(text, "2件套"@),
        byte_len(crate::text::trimmed(text)) < 2 ==> line_stat(text) is None,
        !past_substats(text) && byte_len(crate::text::trimmed(text)) >= 2 ==> line_stat(text)
            == stat_said(crate::text::trimmed(text)),
{
}

/// Of a set of solved substats each is either active or not, in their order.
pub proof fn solved_substats_are_parted(list: Seq<SolvedSubstat>, n: nat)
    requires
        n <= list.len(),
    ensures
        solved_part(list, false, n).len() + solved_part(list, true, n).len() == n,
        forall|i: int|
            0 <= i < n ==> solved_part(list, (#[trigger] list[i]).inactive, n).contains(
                (list[i].key@, list[i].value, list[i].initial_value),
            ),
        (forall|i: int| 0 <= i < n ==> !(#[trigger] list[i]).inactive) ==> solved_part(
            list,
            false,
            n,
        ) == Seq::new(n, |i: int| (list[i].key@, list[i].value, list[i].initial_value)),
    decreases n,
{
    if n > 0 {
        solved_substats_are_parted(list, (n - 1) as nat);
        let last = list[n - 1];
        let here = solved_part(list, last.inactive, n);
        assert(here.last() == (last.key@, last.value, last.initial_value));
        assert forall|i: int| 0 <= i < n implies solved_part(
            list,
            (#[trigger] list[i]).inactive,
            n,
        ).contains((list[i].key@, list[i].value, list[i].initial_value)) by {
            let part = solved_part(list, list[i].inactive, n);
            if i < n - 1 {
                let earlier = solved_part(list, list[i].inactive, (n - 1) as nat);
                let item = (list[i].key@, list[i].value, list[i].initial_value);
                assert(earlier.contains(item));
                let k = choose|k: int| 0 <= k < earlier.len() && earlier[k] == item;
                assert(part[k] == item);
            } else {
                assert(part[part.len() - 1] == here.last());
            }
        }
        if forall|i: int| 0 <= i < n ==> !(#[trigger] list[i]).inactive {
            assert(!list[n - 1].inactive);
            assert(solved_part(list, false, n) =~= Seq::new(
                n,
                |i: int| (list[i].key@, list[i].value, list[i].initial_value),
            ));
        }
    }
}

/// Where the rolls cannot be solved, each line that was read gives the best of its
/// readings, without an initial value.
pub proof fn guessed_substats_are_parted(lines: Seq<Vec<OcrCandidate>>, n: nat)
    requires
        n <= lines.len(),
        forall|i: int| 0 <= i < lines.len() ==> (#[trigger] lines[i])@.len() > 0,
    ensures
        guessed_part(lines, false, n).len() + guessed_part(lines, true, n).len() == n,
        forall|k: int, inactive: bool|
            0 <= k < guessed_part(lines, inactive, n).len() ==> {
                let s = #[trigger] guessed_part(lines, inactive, n)[k];
                s.2 is None && exists|i: int|
                    0 <= i < n && #[trigger] lines[i]@[best_reading(lines[i]@)].key@ == s.0
                        && lines[i]@[best_reading(lines[i]@)].value == s.1
                        && lines[i]@[best_reading(lines[i]@)].inactive == inactive
            },
    decreases n,
{
    if n > 0 {
        guessed_substats_are_parted(lines, (n - 1) as nat);
        assert(lines[n - 1]@.len() > 0);
        let best = lines[n - 1]@[best_reading(lines[n - 1]@)];
        assert forall|k: int, inactive: bool|
            0 <= k < guessed_part(lines, inactive, n).len() implies {
            let s = #[trigger] guessed_part(lines, inactive, n)[k];
            s.2 is None && exists|i: int|
                0 <= i < n && #[trigger] lines[i]@[best_reading(lines[i]@)].key@ == s.0
                    && lines[i]@[best_reading(lines[i]@)].value == s.1
                    && lines[i]@[best_reading(lines[i]@)].inactive == inactive
        } by {
            let here = guessed_part(lines, inactive, n);
            let earlier = guessed_part(lines, inactive, (n - 1) as nat);
            if k < earlier.len() {
                assert(here[k] == earlier[k]);
                let i = choose|i: int|
                    0 <= i < n - 1 && #[trigger] lines[i]@[best_reading(lines[i]@)].key@
                        == earlier[k].0 && lines[i]@[best_reading(lines[i]@)].value == earlier[k].1
                        && lines[i]@[best_reading(lines[i]@)].inactive == inactive;
                assert(lines[i]@[best_reading(lines[i]@)].key@ == here[k].0);
            } else {
                assert(lines[n - 1]@[best_reading(lines[n - 1]@)].key@ == here[k].0);
            }
        }
    }
}

/// A number that is read apart from its name counts above one half.
pub proof fn small_numbers_are_noise(answer: Answer)
    ensures
        number_given(answer) matches Some(v) ==> v > 500_000,
        answer is Err ==> number_given(answer) is None,
{
}

/// A line is tried as it is and then moved by two up or down and made ten wider or
/// narrower, in all eight ways, each once.
pub proof fn lines_are_varied_in_all_ways(dy: int, dw: int)
    requires
        dy == -2 || dy == 0 || dy == 2,
        dw == -10 || dw == 0 || dw == 10,
    ensures
        variation(0) == (0int, 0int),
        exists|k: int| 0 <= k < 9 && #[trigger] variation(k) == (dy, dw),
        forall|j: int, k: int|
            0 <= j < k < 9 ==> #[trigger] variation(j) != #[trigger] variation(k),
{
    assert(variation(0) == (0int, 0int) && variation(1) == (-2int, 0int) && variation(2) == (
        -2int,
        10int,
    ) && variation(3) == (-2int, -10int) && variation(4) == (2int, 0int) && variation(5) == (
        2int,
        10int,
    ) && variation(6) == (2int, -10int) && variation(7) == (0int, 10int) && variation(8) == (
        0int,
        -10int,
    ));
}

/// A varied line keeps its left edge and its height.
pub proof fn varied_lines_keep_their_place(rect: BaseRect, k: int)
    requires
        0 <= k < 9,
        -10_000 <= rect.1 <= 10_000,
        -10_000 <= rect.2 <= 10_000,
    ensures
        varied_rect(rect, k).0 == rect.0,
        varied_rect(rect, k).1 == rect.1 + variation(k).0,
        varied_rect(rect, k).2 == rect.2 + variation(k).1,
        varied_rect(rect, k).3 == rect.3,
{
}

/// A further reading of a line is added at its end unless the line has it already:
/// the same stat with the same value up to a hundredth.
pub proof fn further_readings_are_new(line: Seq<Stat>, stat: Stat)
    ensures
        with_reading(line, None) == line,
        line.len() <= with_reading(line, Some(stat)).len() <= line.len() + 1,
        with_reading(line, Some(stat)).take(line.len() as int) == line,
        has_stat(with_reading(line, Some(stat)), stat),
        with_reading(with_reading(line, Some(stat)), Some(stat)) == with_reading(line, Some(stat)),
{
    let more = with_reading(line, Some(stat));
    assert(more.take(line.len() as int) =~= line);
    if !has_stat(line, stat) {
        assert(more[line.len() as int] == stat);
    }
}

/// Chinese characters are those of the main block of Chinese characters, and each
/// one counts.
pub proof fn chinese_characters_count(text: Seq<char>, c: char)
    ensures
        is_chinese(c) <==> 0x4E00 <= c as int <= 0x9FFF,
        chinese_count(text.push(c)) == chinese_count(text) + if is_chinese(c) {
            1int
        } else {
            0int
        },
        0 <= chinese_count(text) <= text.len(),
    decreases text.len(),
{
    assert(text.push(c).drop_last() =~= text);
    if text.len() > 0 {
        chinese_characters_count(text.drop_last(), c);
    }
}

/// Where no set is named, the text with the most Chinese characters is reported,
/// the plain one where it has as many as the others.
pub proof fn the_most_chinese_text_is_reported(
    plain: Seq<char>,
    gray: Seq<char>,
    green: Seq<char>,
)
    ensures
        ({
            let text = reported_text(plain, gray, green);
            &&& chinese_count(text) >= chinese_count(plain)
            &&& chinese_count(text) >= chinese_count(gray)
            &&& chinese_count(text) >= chinese_count(green)
            &&& text == plain || text == gray || text == green
            &&& chinese_count(plain) >= chinese_count(text) ==> text == plain
        }),
{
}

/// The name of the set stands where the next substat would: below one to three
/// substats on the line of the next one, below four on the row of its own.
pub proof fn sets_stand_below_the_substats(stats: int, regions: ArtifactOcrRegions)
    requires
        regions.standard(),
    ensures
        1 <= stats <= 3 ==> set_row_below(stats) == standard_lines()[stats].1,
        stats == 4 ==> set_row_below(stats) == regions.set_name_base_y,
        1 <= counted_stats(stats) <= 4,
        1 <= stats <= 4 ==> counted_stats(stats) == stats,
        stats < 1 ==> counted_stats(stats) == 1,
        stats > 4 ==> counted_stats(stats) == 4,
{
}

/// A row of a set has the place of the regions, moved down by as much as the card
/// is, and two rows less than three pixels apart are the same.
pub proof fn set_rows_have_their_place(row: int, y_shift: int, regions: ArtifactOcrRegions)
    requires
        regions.standard(),
        0 <= row <= 10_000,
        0 <= y_shift <= 10_000,
    ensures
        set_rect(row, y_shift) == (
            regions.set_name_x,
            (row + y_shift) as i32,
            regions.set_name_w,
            regions.set_name_h,
        ),
        forall|a: int, b: int|
            #[trigger] same_row(a, b) <==> a == b || a == b + 1 || a == b + 2 || b == a + 1 || b
                == a + 2,
{
}

/// Two of the three places of the banner decide whether an artifact was crafted
/// with an elixir, and the texts of such a card stand 40 pixels lower.
pub proof fn two_of_three_places_show_the_banner(image: RgbImage, scaler: CoordScaler)
    ensures
        ({
            let a = purple_at(image, scaler, 1510, 423);
            let b = purple_at(image, scaler, 1520, 423);
            let c = purple_at(image, scaler, 1530, 423);
            &&& a == b ==> elixir_banner(image, scaler) == a
            &&& a == c ==> elixir_banner(image, scaler) == a
            &&& b == c ==> elixir_banner(image, scaler) == b
        }),
        card_shift(true) == 40,
        card_shift(false) == 0,
        forall|x: int, y: int| #[trigger]
            purple_at(image, scaler, x, y) <==> (base_pixel(image, scaler, x, y) matches Some(p)
                && p.2 >= 231 && p.2 - p.1 >= 41),
{
}

/// The marks on the grid count where they are known; else the dark icons on the
/// card do. An artifact with an astral mark is locked.
pub proof fn marks_come_from_the_grid_or_the_card(
    icons: GridIconResult,
    image: RgbImage,
    scaler: CoordScaler,
    shift: int,
)
    ensures
        marks_of(Some(icons), image, scaler, shift) == (icons.lock || icons.astral, icons.astral),
        marks_of(None, image, scaler, shift).1 == dark_at(image, scaler, 1768, 428 + shift),
        marks_of(None, image, scaler, shift).0 == (dark_at(image, scaler, 1683, 428 + shift)
            || dark_at(image, scaler, 1768, 428 + shift)),
{
}

/// Flowers have life and plumes attack, whatever was read; the main stat of the
/// other slots is the stat that was read, as a percentage where it is HP, ATK or
/// DEF.
pub proof fn main_stats_go_with_the_slot(slot: Seq<char>, text: Seq<char>)
    ensures
        slot == "flower"@ ==> main_key(slot, text) == Some("hp"@),
        slot == "plume"@ ==> main_key(slot, text) == Some("atk"@),
        slot != "flower"@ && slot != "plume"@ ==> match stat_said(text) {
            None => main_key(slot, text) is None,
            Some(stat) => main_key(slot, text) == Some(
                if stat.0 == "hp"@ {
                    "hp_"@
                } else if stat.0 == "atk"@ {
                    "atk_"@
                } else if stat.0 == "def"@ {
                    "def_"@
                } else {
                    stat.0
                },
            ),
        },
{
    reveal_strlit("flower");
    reveal_strlit("plume");
    assert("flower"@.len() != "plume"@.len());
}

/// Three-star artifacts are left out, and so are those with fewer stars than
/// their set can have.
pub proof fn lesser_variants_are_left_out(rarity: int, set: Seq<char>, best: Map<Seq<char>, i32>)
    ensures
        rarity == 3 ==> lesser_variant(rarity, set, best),
        rarity != 3 && !best.contains_key(set) ==> !lesser_variant(rarity, set, best),
        rarity != 3 && best.contains_key(set) ==> lesser_variant(rarity, set, best) == (best[set]
            > rarity),
{
}

/// What a text of the set row says once colons and semicolons at its end are off.
pub proof fn set_texts_end_in_no_colon(text: Seq<char>)
    requires
        text.len() > 0,
        !crate::text::is_white(text[0]),
        !crate::text::is_white(text.last()),
        text.last() != '：',
        text.last() != ':',
        text.last() != '；',
        text.last() != ';',
    ensures
        set_text(text) == text,
        set_line(text) == text,
        set_line(text.push('：')) == text,
        set_line(text.push(':')) == text,
        set_text(text.push('：')) == text,
        set_text(text.push(':')) == text,
        set_text(text.push('；')) == text,
        set_text(text.push(';')) == text,
{
    reveal_with_fuel(crate::text::stripped_end, 3);
    reveal_with_fuel(crate::text::trimmed_end, 2);
    reveal_with_fuel(crate::text::trimmed_start, 2);
    assert(text.push('：').drop_last() =~= text);
    assert(text.push(':').drop_last() =~= text);
    assert(text.push('；').drop_last() =~= text);
    assert(text.push(';').drop_last() =~= text);
    assert(text.push('：')[0] == text[0] && text.push(':')[0] == text[0] && text.push('；')[0]
        == text[0] && text.push(';')[0] == text[0]);
}

/// The lines that hold no reading are left out, the others stay in their order.
pub proof fn only_empty_lines_are_left_out(lines: Seq<Seq<Stat>>, n: nat)
    requires
        n <= lines.len(),
    ensures
        nonempty(lines, n).len() <= n,
        forall|i: int| 0 <= i < nonempty(lines, n).len() ==> (#[trigger] nonempty(lines, n)[i]).len()
            > 0,
        forall|i: int|
            0 <= i < n && (#[trigger] lines[i]).len() > 0 ==> nonempty(lines, n).contains(lines[i]),
        (forall|i: int| 0 <= i < n ==> (#[trigger] lines[i]).len() > 0) ==> nonempty(lines, n)
            == lines.take(n as int),
    decreases n,
{
    if n > 0 {
        only_empty_lines_are_left_out(lines, (n - 1) as nat);
        let earlier = nonempty(lines, (n - 1) as nat);
        let here = nonempty(lines, n);
        assert forall|i: int| 0 <= i < n && (#[trigger] lines[i]).len() > 0 implies here.contains(
            lines[i],
        ) by {
            if i < n - 1 {
                assert(earlier.contains(lines[i]));
                let k = choose|k: int| 0 <= k < earlier.len() && earlier[k] == lines[i];
                assert(here[k] == lines[i]);
            } else {
                assert(here[here.len() - 1] == lines[i]);
            }
        }
        if forall|i: int| 0 <= i < n ==> (#[trigger] lines[i]).len() > 0 {
            assert(lines[n - 1].len() > 0);
            assert(lines.take(n as int) =~= lines.take(n - 1).push(lines[n - 1]));
        }
    }
}

/// An engine was asked this, and gave this answer.
pub open spec fn was_answered(request: OcrRequest, answer: Answer) -> bool {
    exists|x: Log, y: Log| #[trigger] asked(x, y, request, answer)
}

/// The substats of an artifact were read from its lines, and its set was searched
/// for below as many of them as there are.
pub open spec fn substats_and_set(card: Card, a: GoodArtifact, levels: Seq<i32>) -> bool {
    exists|g: Log, h: Log, k: Log, l: Log, subs: Substats|
        {
            &&& #[trigger] substats_read(
                g,
                h,
                k,
                l,
                card.lines(),
                card.mappings.artifact_set_map@,
                a.rarity as i32,
                a.level as int,
                levels,
                subs,
            )
            &&& subs_of(a.substats@) == subs_of(subs.active@)
            &&& subs_of(a.unactivated_substats@) == subs_of(subs.inactive@)
            &&& a.total_rolls == subs.total_rolls
            &&& set_was_found(card, a)
        }
}

/// The set was searched for below as many substats as the artifact has, from one
/// to four, and found.
pub open spec fn set_was_found(card: Card, a: GoodArtifact) -> bool {
    let stats = (a.substats@.len() + a.unactivated_substats@.len()) as int;
    set_was_found_below(
        card,
        if stats < 1 {
            1
        } else {
            up_to_four(stats)
        },
        if a.elixir_crafted {
            40
        } else {
            0
        },
        a.set_key@,
    )
}

/// The set was searched for below so many substats, and found.
pub open spec fn set_was_found_below(
    card: Card,
    stats: int,
    y_shift: int,
    set: Seq<char>,
) -> bool {
    exists|x: Log, y: Log, text: Seq<char>| #[trigger]
        set_searched(
            x,
            y,
            *card.image,
            *card.scaler,
            stats,
            y_shift,
            card.mappings.artifact_set_map@,
            Ok::<(Option<Seq<char>>, Seq<char>), Seq<char>>((Some(set), text)),
        )
}

/// The level was read by both engines at the place of the level, and the higher
/// one counts.
pub open spec fn level_was_read(card: Card, a: GoodArtifact) -> bool {
    level_was_read_at(
        card,
        a,
        card.request(
            (
                card.regions.level.0,
                (card.regions.level.1 + if a.elixir_crafted {
                    40int
                } else {
                    0
                }) as i32,
                card.regions.level.2,
                card.regions.level.3,
            ),
        ),
    )
}

/// The level was read by both engines at a place, and the higher one counts.
pub open spec fn level_was_read_at(card: Card, a: GoodArtifact, place: OcrRequest) -> bool {
    exists|p: Answer, q: Answer|
        {
            &&& #[trigger] was_answered(place, p)
            &&& #[trigger] was_answered(place, q)
            &&& a.level == merged_level(level_in(text_or_empty(p)), level_in(text_or_empty(q)))
            &&& substats_and_set(
                card,
                a,
                level_readings_of(
                    level_in(text_or_empty(p)) as i32,
                    level_in(text_or_empty(q)) as i32,
                ),
            )
        }
}

/// The wearer was read at the place of the wearer.
pub open spec fn wearer_was_read(card: Card, a: GoodArtifact) -> bool {
    exists|text: Seq<char>| #[trigger]
        was_answered(
            card.request(card.regions.equip),
            Ok::<Seq<char>, Seq<char>>(text),
        ) && wearer(text, card.mappings.character_name_map@, a.location@)
}

/// The slot was read at the place of the slot.
pub open spec fn slot_was_read(card: Card, a: GoodArtifact) -> bool {
    exists|text: Seq<char>| #[trigger]
        was_answered(
            card.request(card.regions.part_name),
            Ok::<Seq<char>, Seq<char>>(text),
        ) && slot_key(text) == Some(a.slot_key@)
}

/// The main stat was read at the place of the main stat.
pub open spec fn main_stat_was_read(card: Card, a: GoodArtifact) -> bool {
    exists|text: Seq<char>| #[trigger]
        was_answered(
            card.request(card.regions.main_stat),
            Ok::<Seq<char>, Seq<char>>(text),
        ) && main_key(a.slot_key@, text) == Some(a.main_stat_key@)
}

/// Each part of a scanned artifact comes from its own place on the card: slot,
/// main stat, level, substats, set and wearer from the texts there, the banner,
/// the marks and the stars from the picture.
pub proof fn scanned_artifacts_are_what_the_card_shows(
    card: Card,
    g0: Log,
    g1: Log,
    l0: Log,
    l1: Log,
    a: GoodArtifact,
)
    requires
        scanned(
            card,
            g0,
            g1,
            l0,
            l1,
            Ok::<ArtifactScanResult, ArtifactError>(ArtifactScanResult::Artifact(a)),
        ),
    ensures
        slot_was_read(card, a),
        main_stat_was_read(card, a),
        level_was_read(card, a),
        wearer_was_read(card, a),
        a.rarity == artifact_rarity(*card.image, *card.scaler),
        a.elixir_crafted == elixir_banner(*card.image, *card.scaler),
        match card.grid_icons {
            Some(icons) => a.astral_mark == icons.astral && a.lock == (icons.lock || icons.astral),
            None => {
                let y = 428 + if a.elixir_crafted {
                    40int
                } else {
                    0
                };
                &&& a.astral_mark == dark_at(*card.image, *card.scaler, 1768, y)
                &&& a.lock == (dark_at(*card.image, *card.scaler, 1683, y) || a.astral_mark)
            },
        },
{
    let result = Ok::<ArtifactScanResult, ArtifactError>(ArtifactScanResult::Artifact(a));
    let (g, answer) = choose|g: Log, answer: Answer|
        {
            &&& #[trigger] asked(g0, g, card.request(card.regions.part_name), answer)
            &&& match answer {
                Err(e) => g1 == g && l1 == l0 && ocr_failed(result, e),
                Ok(t) => match slot_key(t) {
                    None => g1 == g && l1 == l0 && slot_unknown(
                        result,
                        card.go_on || card.rarity() == 4,
                        t,
                    ),
                    Some(slot) => scanned_main_stat(card, g, g1, l0, l1, slot, result),
                },
            }
        };
    let slot = slot_key(answer->Ok_0)->0;
    assert(was_answered(card.request(card.regions.part_name), answer));
    assert(answer == Ok::<Seq<char>, Seq<char>>(answer->Ok_0));
    let (h, said) = choose|h: Log, said: Answer|
        {
            &&& #[trigger] asked(g, h, card.request(card.regions.main_stat), said)
            &&& match said {
                Err(e) => g1 == h && l1 == l0 && ocr_failed(result, e),
                Ok(t) => match main_key(slot, t) {
                    None => g1 == h && l1 == l0 && main_stat_unknown(result, card.go_on, t),
                    Some(main) => scanned_level(card, h, g1, l0, l1, slot, main, result),
                },
            }
        };
    let main = main_key(slot, said->Ok_0)->0;
    assert(was_answered(card.request(card.regions.main_stat), said));
    assert(said == Ok::<Seq<char>, Seq<char>>(said->Ok_0));
    assert(scanned_level(card, h, g1, l0, l1, slot, main, result));
    lemma_level_told(card, h, g1, l0, l1, slot, main, a);
}

/// What is seen of an artifact besides its texts, and the slot and the main stat
/// that were read.
spec fn seen(card: Card, a: GoodArtifact, slot: Seq<char>, main: Seq<char>) -> bool {
    &&& a.slot_key@ == slot
    &&& a.main_stat_key@ == main
    &&& a.rarity == card.rarity()
    &&& a.elixir_crafted == card.elixir()
    &&& (a.lock, a.astral_mark) == marks_of(
        card.grid_icons,
        *card.image,
        *card.scaler,
        card_shift(card.elixir()),
    )
}

proof fn lemma_level_told(
    card: Card,
    h: Log,
    g1: Log,
    l0: Log,
    l1: Log,
    slot: Seq<char>,
    main: Seq<char>,
    a: GoodArtifact,
)
    requires
        scanned_level(
            card,
            h,
            g1,
            l0,
            l1,
            slot,
            main,
            Ok::<ArtifactScanResult, ArtifactError>(ArtifactScanResult::Artifact(a)),
        ),
    ensures
        level_was_read(card, a),
        wearer_was_read(card, a),
        seen(card, a, slot, main),
{
    let result = Ok::<ArtifactScanResult, ArtifactError>(ArtifactScanResult::Artifact(a));
    let (l, first, k, second) = choose|l: Log, first: Answer, k: Log, second: Answer|
        {
            &&& #[trigger] asked(l0, l, card.request(card.level_rect()), first)
            &&& #[trigger] asked(h, k, card.request(card.level_rect()), second)
            &&& scanned_substats(
                card,
                k,
                g1,
                l,
                l1,
                slot,
                main,
                level_in(text_or_empty(first)) as i32,
                level_in(text_or_empty(second)) as i32,
                result,
            )
        };
    assert(was_answered(card.request(card.level_rect()), first));
    assert(was_answered(card.request(card.level_rect()), second));
    crate::scanner::artifact::substats::level_range(text_or_empty(first));
    crate::scanner::artifact::substats::level_range(text_or_empty(second));
    lemma_substats_told(
        card,
        k,
        g1,
        l,
        l1,
        slot,
        main,
        level_in(text_or_empty(first)) as i32,
        level_in(text_or_empty(second)) as i32,
        a,
    );
    assert(level_was_read_at(card, a, card.request(card.level_rect())));
}

proof fn lemma_substats_told(
    card: Card,
    k: Log,
    g1: Log,
    l: Log,
    l1: Log,
    slot: Seq<char>,
    main: Seq<char>,
    a1: i32,
    a2: i32,
    a: GoodArtifact,
)
    requires
        scanned_substats(
            card,
            k,
            g1,
            l,
            l1,
            slot,
            main,
            a1,
            a2,
            Ok::<ArtifactScanResult, ArtifactError>(ArtifactScanResult::Artifact(a)),
        ),
    ensures
        wearer_was_read(card, a),
        seen(card, a, slot, main),
        a.level == merged_level(a1 as int, a2 as int),
        substats_and_set(card, a, level_readings_of(a1, a2)),
{
    let result = Ok::<ArtifactScanResult, ArtifactError>(ArtifactScanResult::Artifact(a));
    let level = merged_level(a1 as int, a2 as int);
    let (g2, l2, subs) = choose|g2: Log, l2: Log, subs: Substats|
        {
            &&& #[trigger] substats_read(
                k,
                g2,
                l,
                l2,
                card.lines(),
                card.mappings.artifact_set_map@,
                card.rarity() as i32,
                level,
                level_readings_of(a1, a2),
                subs,
            )
            &&& scanned_set(card, g2, g1, l2, l1, slot, main, level, subs, result)
        };
    lemma_set_told(card, g2, g1, l2, l1, slot, main, level, subs, a);
    assert(substats_read(
        k,
        g2,
        l,
        l2,
        card.lines(),
        card.mappings.artifact_set_map@,
        a.rarity as i32,
        a.level as int,
        level_readings_of(a1, a2),
        subs,
    ));
}

proof fn lemma_set_told(
    card: Card,
    g2: Log,
    g1: Log,
    l2: Log,
    l1: Log,
    slot: Seq<char>,
    main: Seq<char>,
    level: int,
    subs: Substats,
    a: GoodArtifact,
)
    requires
        scanned_set(
            card,
            g2,
            g1,
            l2,
            l1,
            slot,
            main,
            level,
            subs,
            Ok::<ArtifactScanResult, ArtifactError>(ArtifactScanResult::Artifact(a)),
        ),
    ensures
        wearer_was_read(card, a),
        seen(card, a, slot, main),
        a.level == level,
        subs_of(a.substats@) == subs_of(subs.active@),
        subs_of(a.unactivated_substats@) == subs_of(subs.inactive@),
        a.total_rolls == subs.total_rolls,
        set_was_found(card, a),
{
    let result = Ok::<ArtifactScanResult, ArtifactError>(ArtifactScanResult::Artifact(a));
    let (after, found) = choose|after: Log, found: RowReading|
        {
            &&& #[trigger] set_searched(
                g2,
                after,
                *card.image,
                *card.scaler,
                stat_rows(subs),
                card_shift(card.elixir()),
                card.mappings.artifact_set_map@,
                found,
            )
            &&& match found {
                Err(e) => g1 == after && l1 == l2 && ocr_failed(result, e),
                Ok((None, t)) => g1 == after && l1 == l2 && set_unknown(
                    result,
                    card.go_on,
                    stat_rows(subs),
                    t,
                ),
                Ok((Some(set), _)) => if lesser_variant(
                    card.rarity(),
                    set,
                    card.mappings.artifact_set_max_rarity@,
                ) {
                    g1 == after && l1 == l2 && skipped(result)
                } else {
                    scanned_wearer(card, after, g1, l2, l1, slot, main, level, subs, set, result)
                },
            }
        };
    let set = (found->Ok_0).0->0;
    let text = (found->Ok_0).1;
    assert(scanned_wearer(card, after, g1, l2, l1, slot, main, level, subs, set, result));
    lemma_wearer_read(card, after, g1, l2, l1, slot, main, level, subs, set, a);
    lemma_lengths(a, subs);
    assert(found == Ok::<(Option<Seq<char>>, Seq<char>), Seq<char>>((Some(set), text)));
    assert(set_was_found_below(card, stat_rows(subs), card_shift(card.elixir()), set));
}

proof fn lemma_lengths(a: GoodArtifact, subs: Substats)
    requires
        subs_of(a.substats@) == subs_of(subs.active@),
        subs_of(a.unactivated_substats@) == subs_of(subs.inactive@),
    ensures
        a.substats@.len() == subs.active@.len(),
        a.unactivated_substats@.len() == subs.inactive@.len(),
{
    assert(subs_of(a.substats@).len() == a.substats@.len());
    assert(subs_of(subs.active@).len() == subs.active@.len());
    assert(subs_of(a.unactivated_substats@).len() == a.unactivated_substats@.len());
    assert(subs_of(subs.inactive@).len() == subs.inactive@.len());
}

proof fn lemma_wearer_read(
    card: Card,
    g0: Log,
    g1: Log,
    l0: Log,
    l1: Log,
    slot: Seq<char>,
    main: Seq<char>,
    level: int,
    subs: Substats,
    set: Seq<char>,
    a: GoodArtifact,
)
    requires
        scanned_wearer(
            card,
            g0,
            g1,
            l0,
            l1,
            slot,
            main,
            level,
            subs,
            set,
            Ok::<ArtifactScanResult, ArtifactError>(ArtifactScanResult::Artifact(a)),
        ),
    ensures
        wearer_was_read(card, a),
        artifact_is(
            card,
            Ok::<ArtifactScanResult, ArtifactError>(ArtifactScanResult::Artifact(a)),
            slot,
            main,
            level,
            subs,
            set,
            a.location@,
        ),
{
    let result = Ok::<ArtifactScanResult, ArtifactError>(ArtifactScanResult::Artifact(a));
    let first = choose|first: Answer|
        {
            &&& #[trigger] asked(g0, g1, card.request(card.regions.equip), first)
            &&& match first {
                Err(e) => l1 == l0 && ocr_failed(result, e),
                Ok(t) => wearer_read(card, t, l0, l1, slot, main, level, subs, set, result),
            }
        };
    let text = first->Ok_0;
    assert(was_answered(card.request(card.regions.equip), first));
    assert(first == Ok::<Seq<char>, Seq<char>>(text));
    let who = choose|who: Seq<char>|
        {
            &&& #[trigger] wearer(text, card.mappings.character_name_map@, who)
            &&& if nobody_read(text, who) {
                scanned_wearer_again(card, l0, l1, slot, main, level, subs, set, result)
            } else {
                l1 == l0 && artifact_is(card, result, slot, main, level, subs, set, who)
            }
        };
    if nobody_read(text, who) {
        let second = choose|second: Answer|
            {
                &&& #[trigger] asked(l0, l1, card.request(card.regions.equip), second)
                &&& match second {
                    Err(e) => ocr_failed(result, e),
                    Ok(t) => worn_by(card, t, slot, main, level, subs, set, result),
                }
            };
        let again = second->Ok_0;
        assert(was_answered(card.request(card.regions.equip), second));
        assert(second == Ok::<Seq<char>, Seq<char>>(again));
        let w = choose|w: Seq<char>| #[trigger]
            wearer(again, card.mappings.character_name_map@, w) && artifact_is(
                card,
                result,
                slot,
                main,
                level,
                subs,
                set,
                w,
            );
        assert(w == a.location@);
    } else {
        assert(who == a.location@);
    }
}

} // verus!
