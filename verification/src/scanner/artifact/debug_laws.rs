//! What holds of a detailed scan of an artifact.
use crate::image::RgbImage;
use crate::scanner::artifact::artifact_laws::was_answered;
use crate::scanner::artifact::debug::{
    fields_for, plain_artifact, plain_lines, plain_part, plain_set, plain_set_gray,
    plain_set_green, plain_set_rect, sub_texts, value_text, CardTexts,
};
use crate::scanner::artifact::regions::ArtifactOcrRegions;
use crate::scanner::artifact::scanner::elixir_banner;
use crate::scanner::artifact::set_laws::row_names_set;
use crate::scanner::artifact::substats::{level_number, past_substats, stat_said, subs_of};
use crate::scanner::common::coord_scaler::CoordScaler;
use crate::scanner::common::fuzzy_match::byte_len;
use crate::scanner::common::models::GoodArtifact;
use crate::scanner::common::ocr::{
    asked, request_for, text_or_empty, Answer, BaseRect, Log, Treatment,
};
use crate::scanner::common::pixel_utils::{artifact_rarity, dark_at};
use crate::text::stripped_end;
use vstd::prelude::*;

verus! {

/// A whole value is written without a point, a negative one with its sign, and a
/// fraction never ends in a zero.
pub proof fn values_are_written_as_decimals(v: int)
    requires
        v > 0,
    ensures
        value_text(0) == crate::number::decimal(0),
        v % 1_000_000 == 0 ==> value_text(v) == crate::number::decimal((v / 1_000_000) as nat),
        value_text(-v) == seq!['-'] + value_text(v),
        v % 1_000_000 != 0 ==> {
            let whole = crate::number::decimal((v / 1_000_000) as nat);
            let rest = value_text(v).skip(whole.len() as int);
            &&& value_text(v).len() > whole.len()
            &&& value_text(v).take(whole.len() as int) == whole
            &&& rest[0] == '.'
            &&& rest.last() != '0'
        },
{
    let whole = crate::number::decimal((v / 1_000_000) as nat);
    let none = Seq::<char>::empty();
    assert(none + whole =~= whole);
    assert(none + crate::number::decimal(0) =~= crate::number::decimal(0));
    if v % 1_000_000 == 0 {
        assert((-v) % 1_000_000 == 0);
    } else {
        let end = stripped_end(crate::number::padded((v % 1_000_000) as nat, 6), '0');
        crate::text_laws::stripping_takes_one_character_off(
            crate::number::padded((v % 1_000_000) as nat, 6),
            '0',
        );
        assert(value_text(v) =~= whole + seq!['.'] + end);
        assert(value_text(-v) =~= seq!['-'] + whole + seq!['.'] + end);
        assert(value_text(-v) =~= seq!['-'] + value_text(v));
        let rest = value_text(v).skip(whole.len() as int);
        assert(rest =~= seq!['.'] + end);
        assert(value_text(v).take(whole.len() as int) =~= whole);
        lemma_stripped(crate::number::padded((v % 1_000_000) as nat, 6));
    }
}

proof fn lemma_stripped(text: Seq<char>)
    ensures
        stripped_end(text, '0').len() > 0 ==> stripped_end(text, '0').last() != '0',
    decreases text.len(),
{
    if text.len() > 0 && text.last() == '0' {
        lemma_stripped(text.drop_last());
    }
}

/// A line that says a stat adds it to the active substats or to the others, without
/// an initial value; a line of one byte or without a stat adds nothing.
pub proof fn plain_lines_add_their_stats(lines: Seq<Seq<char>>, n: nat, inactive: bool)
    requires
        n < lines.len(),
    ensures
        plain_part(lines, inactive, 0).len() == 0,
        byte_len(lines[n as int]) <= 1 || stat_said(lines[n as int]) is None ==> plain_part(
            lines,
            inactive,
            n + 1,
        ) == plain_part(lines, inactive, n),
        byte_len(lines[n as int]) >= 2 ==> (stat_said(lines[n as int]) matches Some(stat) ==> {
            &&& plain_part(lines, stat.2, n + 1) == plain_part(lines, stat.2, n) + seq![
                (stat.0, stat.1 as i64, None),
            ]
            &&& plain_part(lines, !stat.2, n + 1) == plain_part(lines, !stat.2, n)
        }),
{
    reveal_with_fuel(plain_part, 2);
    match stat_said(lines[n as int]) {
        Some(stat) => {
            assert(plain_part(lines, stat.2, n).push((stat.0, stat.1 as i64, None)) =~= plain_part(
                lines,
                stat.2,
                n,
            ) + seq![(stat.0, stat.1 as i64, None)]);
        },
        None => {},
    }
}

/// The lines are read at their places, from the first one on, up to four of them
/// and none from the effects of the set on.
pub proof fn plain_lines_are_read_in_their_order(
    before: Log,
    after: Log,
    image: RgbImage,
    scaler: CoordScaler,
    regions: ArtifactOcrRegions,
    y_shift: int,
    lines: Seq<Seq<char>>,
    i: nat,
    k: int,
)
    requires
        plain_lines(before, after, image, scaler, regions, y_shift, lines, i),
        i <= 4,
        i <= k < lines.len(),
    ensures
        lines.len() <= 4,
        !(byte_len(lines[k]) >= 2 && past_substats(lines[k])),
        ({
            let r = regions.substat_lines@[k];
            let rect = (r.0, (r.1 + y_shift) as i32, r.2, r.3);
            exists|answer: Answer| #[trigger]
                was_answered(request_for(image, scaler, rect, Treatment::Plain), answer) && lines[k]
                    == crate::text::trimmed(text_or_empty(answer))
        }),
    decreases 4 - i,
{
    if i < 4 {
        let r = regions.substat_lines@[i as int];
        let rect = (r.0, (r.1 + y_shift) as i32, r.2, r.3);
        let (log, answer) = choose|log: Log, answer: Answer|
            {
                let line = crate::text::trimmed(text_or_empty(answer));
                &&& #[trigger] asked(
                    before,
                    log,
                    request_for(image, scaler, rect, Treatment::Plain),
                    answer,
                )
                &&& if byte_len(line) >= 2 && past_substats(line) {
                    log == after && lines.len() == i
                } else {
                    &&& i < lines.len()
                    &&& lines[i as int] == line
                    &&& plain_lines(
                        log,
                        after,
                        image,
                        scaler,
                        regions,
                        y_shift,
                        lines,
                        i + 1,
                    )
                }
            };
        assert(was_answered(request_for(image, scaler, rect, Treatment::Plain), answer));
        if k > i {
            plain_lines_are_read_in_their_order(
                log,
                after,
                image,
                scaler,
                regions,
                y_shift,
                lines,
                i + 1,
                k,
            );
        } else if i + 1 < lines.len() {
            plain_lines_are_read_in_their_order(
                log,
                after,
                image,
                scaler,
                regions,
                y_shift,
                lines,
                i + 1,
                (i + 1) as int,
            );
        }
    }
}

/// The set is looked for on the row of its own below four substats, and forty
/// higher for each one that is not there, but not for the last one.
pub proof fn plain_sets_stand_below_the_substats(stats: int, y_shift: int)
    requires
        0 <= y_shift <= 40,
    ensures
        plain_set_rect(stats, y_shift).0 == 1330,
        plain_set_rect(stats, y_shift).2 == 280,
        plain_set_rect(stats, y_shift).3 == 45,
        stats >= 4 ==> plain_set_rect(stats, y_shift).1 == 625 + y_shift,
        stats == 3 ==> plain_set_rect(stats, y_shift).1 == 585 + y_shift,
        stats == 2 ==> plain_set_rect(stats, y_shift).1 == 545 + y_shift,
        stats <= 1 ==> plain_set_rect(stats, y_shift).1 == 505 + y_shift,
{
}

/// A set that was found is named by the text that was read in one of three ways.
pub proof fn plain_sets_are_named(
    before: Log,
    after: Log,
    image: RgbImage,
    scaler: CoordScaler,
    rect: BaseRect,
    sets: Map<Seq<char>, String>,
    text: Seq<char>,
    key: Seq<char>,
)
    requires
        plain_set(before, after, image, scaler, rect, sets, text, Some(key)),
        text.len() > 0,
    ensures
        row_names_set(image, scaler, rect, sets, key, text),
{
    let (log, plain) = choose|log: Log, plain: Answer|
        {
            &&& #[trigger] asked(
                before,
                log,
                request_for(image, scaler, rect, Treatment::Plain),
                plain,
            )
            &&& {
                let p = text_or_empty(plain);
                ||| log == after && text == p
                    && crate::scanner::artifact::set_name::set_named(p, sets, Some(key))
                ||| crate::scanner::artifact::set_name::set_named(p, sets, None) && plain_set_gray(
                    log,
                    after,
                    image,
                    scaler,
                    rect,
                    sets,
                    p,
                    text,
                    Some(key),
                )
            }
        };
    assert(was_answered(request_for(image, scaler, rect, Treatment::Plain), plain));
    let p = text_or_empty(plain);
    if log == after && text == p && crate::scanner::artifact::set_name::set_named(
        p,
        sets,
        Some(key),
    ) {
        assert(plain is Ok);
    } else {
        let (next, gray) = choose|next: Log, gray: Answer|
            {
                &&& #[trigger] asked(
                    log,
                    next,
                    request_for(image, scaler, rect, Treatment::Gray),
                    gray,
                )
                &&& {
                    let g = text_or_empty(gray);
                    ||| next == after && gray is Ok && text == g
                        && crate::scanner::artifact::set_name::set_named(g, sets, Some(key))
                    ||| gray is Ok && crate::scanner::artifact::set_name::set_named(g, sets, None)
                        && plain_set_green(
                        next,
                        after,
                        image,
                        scaler,
                        rect,
                        sets,
                        p,
                        text,
                        Some(key),
                    )
                }
            };
        assert(was_answered(request_for(image, scaler, rect, Treatment::Gray), gray));
        if !(next == after && gray is Ok && text == text_or_empty(gray)
            && crate::scanner::artifact::set_name::set_named(text, sets, Some(key))) {
            let green = choose|green: Answer|
                {
                    &&& #[trigger] asked(
                        next,
                        after,
                        request_for(image, scaler, rect, Treatment::Green),
                        green,
                    )
                    &&& text == text_or_empty(green)
                        && crate::scanner::artifact::set_name::set_named(text, sets, Some(key))
                };
            assert(was_answered(request_for(image, scaler, rect, Treatment::Green), green));
            assert(green is Ok);
        }
    }
}

/// The artifact of a detailed scan has what its texts and its picture show.
pub proof fn plain_artifacts_are_what_the_card_shows(
    image: RgbImage,
    scaler: CoordScaler,
    t: CardTexts,
    a: GoodArtifact,
)
    requires
        plain_artifact(image, scaler, t, a),
    ensures
        t.set_key matches Some(k) ==> a.set_key@ == k,
        t.set_key is None ==> a.set_key@.len() == 0,
        crate::good_common::stat_parser::slot_key(t.part) matches Some(k) ==> a.slot_key@ == k,
        crate::good_common::stat_parser::slot_key(t.part) is None ==> a.slot_key@.len() == 0,
        level_number(t.level) matches Some(n) ==> a.level == n,
        level_number(t.level) is None ==> a.level == 0,
        a.rarity == artifact_rarity(image, scaler),
        a.slot_key@ == "flower"@ ==> a.main_stat_key@ == "hp"@,
        a.slot_key@ == "plume"@ ==> a.main_stat_key@ == "atk"@,
        subs_of(a.substats@) == plain_part(t.lines, false, t.lines.len()),
        subs_of(a.unactivated_substats@) == plain_part(t.lines, true, t.lines.len()),
        a.location@ == t.wearer,
        a.elixir_crafted == elixir_banner(image, scaler),
        !a.elixir_crafted ==> a.lock == dark_at(image, scaler, 1683, 428) && a.astral_mark
            == dark_at(image, scaler, 1768, 428),
        a.elixir_crafted ==> a.lock == dark_at(image, scaler, 1683, 468) && a.astral_mark
            == dark_at(image, scaler, 1768, 468),
{
    crate::scanner::artifact::artifact_laws::main_stats_go_with_the_slot(a.slot_key@, t.main);
}

/// The fields of a detailed scan come in a fixed order, each with the text that was
/// read for it, what it means, and where it was read.
pub proof fn fields_tell_what_was_read(
    image: RgbImage,
    scaler: CoordScaler,
    regions: ArtifactOcrRegions,
    t: CardTexts,
)
    requires
        regions.standard(),
    ensures
        ({
            let f = fields_for(image, scaler, regions, t);
            &&& f.len() == 9
            &&& f[0].0 == "rarity"@
            &&& f[0].2 == crate::number::decimal_int(artifact_rarity(image, scaler)) + "*"@
            &&& f[1].0 == "slot"@ && f[1].1 == t.part && f[1].2 == t.slot() && f[1].3 == (
                1327i32,
                184i32,
                155i32,
                40i32,
            )
            &&& f[2].0 == "mainStat"@ && f[2].1 == t.main && f[2].2 == t.main_stat() && f[2].3 == (
                1327i32,
                266i32,
                155i32,
                35i32,
            )
            &&& f[3].0 == "elixir"@ && f[3].2 == crate::text::truth_text(
                elixir_banner(image, scaler),
            )
            &&& f[4].0 == "level"@ && f[4].1 == t.level && f[4].3 == (1332i32, 425i32, 70i32, 35i32)
            &&& level_number(t.level) matches Some(n) ==> f[4].2 == "+"@
                + crate::number::decimal_int(n)
            &&& level_number(t.level) is None ==> f[4].2 == "+"@ + crate::number::decimal_int(0)
            &&& f[5].0 == "substats"@ && f[5].1 == crate::text::list_text(
                t.lines,
                " | "@,
                t.lines.len(),
            )
            &&& f[5].2 == crate::text::list_text(
                sub_texts(t.subs(false), t.subs(true)),
                ", "@,
                t.subs(false).len() + t.subs(true).len(),
            )
            &&& f[6].0 == "setName"@ && f[6].1 == t.set
            &&& t.set_key matches Some(k) ==> f[6].2 == k
            &&& f[7].0 == "equip"@ && f[7].1 == t.equip && f[7].3 == (1386i32, 905i32, 315i32, 50i32)
            &&& t.wearer.len() > 0 ==> f[7].2 == t.wearer
            &&& t.wearer.len() == 0 ==> f[7].2 == "(none)"@
            &&& f[8].0 == "pixel_detect"@
        }),
{
}

} // verus!
