//! A detailed scan of one artifact, field by field.
use crate::good_common::stat_parser::{match_slot_key, parse_stat_from_text};
use crate::image::RgbImage;
use crate::number::{decimal_chars, decimal_int_chars, padded_chars};
use crate::scanner::artifact::regions::{shifted, ArtifactOcrRegions};
use crate::scanner::artifact::scanner::{
    card_shift, detect_elixir_crafted, elixir_banner, main_key, main_stat_of, GoodArtifactScanner,
};
use crate::scanner::artifact::set_name::{
    counted_stats, find_set_key_in_text, set_named,
};
use crate::scanner::artifact::substats::{
    level_number, parse_level_number, past_substats, stat_said, sub_of, subs_of, SubStat,
};
use crate::scanner::common::constants::{
    ARTIFACT_ASTRAL_X1, ARTIFACT_ASTRAL_Y1, ARTIFACT_LOCK_X1, ARTIFACT_LOCK_Y1, ELIXIR_SHIFT,
};
use crate::scanner::common::coord_scaler::CoordScaler;
use crate::scanner::common::debug_fields::{
    field, field_of, fields_of, or_none, or_none_text, plain_request, Field,
};
use crate::scanner::common::equip_parser::{parse_equip_location, wearer};
use crate::scanner::common::fuzzy_match::byte_len;
use crate::scanner::common::mappings::MappingManager;
use crate::scanner::common::models::{DebugOcrField, GoodArtifact, GoodSubStat};
use crate::scanner::common::ocr::{
    answer_of, asked, or_empty, read_region, request_for, text_or_empty, Answer, BaseRect,
    ImageToText, Log, Treatment,
};
use crate::scanner::common::pixel_utils::{
    artifact_rarity, dark_at, detect_artifact_astral_mark, detect_artifact_lock,
    detect_artifact_rarity,
};
use crate::text::{
    append, copy_of, has_text, join_list, joined, string_of, strip_end, stripped_end, texts,
    trim_text, truth,
};
use vstd::prelude::*;

verus! {

/// A value in millionths as a decimal number without trailing zeros.
pub open spec fn value_text(v: int) -> Seq<char> {
    let size = if v < 0 {
        -v
    } else {
        v
    };
    let whole = crate::number::decimal((size / 1_000_000) as nat);
    let sign = if v < 0 {
        seq!['-']
    } else {
        Seq::empty()
    };
    if size % 1_000_000 == 0 {
        sign + whole
    } else {
        sign + whole + seq!['.'] + stripped_end(
            crate::number::padded((size % 1_000_000) as nat, 6),
            '0',
        )
    }
}

/// A value in millionths as a decimal number without trailing zeros.
pub fn show_value(v: i64) -> (text: String)
    ensures
        text@ == value_text(v as int),
{
    let wide: i128 = v as i128;
    let size: u64 = if wide < 0 {
        (-wide) as u64
    } else {
        wide as u64
    };
    let mut out = String::new();
    if v < 0 {
        out.push('-');
    }
    let ghost sign = out@;
    append(&mut out, string_of(&decimal_chars(size / 1_000_000)).as_str());
    let rest: u64 = size % 1_000_000;
    if rest != 0 {
        out.push('.');
        let digits = strip_end(&padded_chars(rest, 6), '0');
        append(&mut out, string_of(&digits).as_str());
    }
    proof {
        let whole = crate::number::decimal((size / 1_000_000) as nat);
        assert(sign =~= if v < 0 {
            seq!['-']
        } else {
            Seq::empty()
        });
        if rest != 0 {
            assert(out@ =~= sign + whole + seq!['.'] + stripped_end(
                crate::number::padded(rest as nat, 6),
                '0',
            ));
        } else {
            assert(out@ =~= sign + whole);
        }
    }
    out
}

/// The substats that texts of lines give, active or not, up to the `n`-th.
pub open spec fn plain_part(lines: Seq<Seq<char>>, inactive: bool, n: nat) -> Seq<SubStat>
    decreases n,
{
    if n == 0 {
        Seq::empty()
    } else {
        let earlier = plain_part(lines, inactive, (n - 1) as nat);
        let line = lines[n - 1];
        if byte_len(line) < 2 {
            earlier
        } else {
            match stat_said(line) {
                Some(stat) => if stat.2 == inactive {
                    earlier.push((stat.0, stat.1 as i64, None))
                } else {
                    earlier
                },
                None => earlier,
            }
        }
    }
}

/// The lines of a card, as the engine read them from top to bottom, each once,
/// up to the first that is past the substats.
pub open spec fn plain_lines(
    before: Log,
    after: Log,
    image: RgbImage,
    scaler: CoordScaler,
    regions: ArtifactOcrRegions,
    y_shift: int,
    lines: Seq<Seq<char>>,
    i: nat,
) -> bool
    decreases 4 - i,
{
    if i >= 4 {
        before == after && lines.len() == 4
    } else {
        let r = regions.substat_lines@[i as int];
        let rect = (r.0, (r.1 + y_shift) as i32, r.2, r.3);
        exists|log: Log, answer: Answer|
            {
                let line = crate::text::trimmed(text_or_empty(answer));
                &&& #[trigger] asked(
                    before,
                    log,
                    request_for(image, scaler, rect, Treatment::Plain),
                    answer,
                )
                &&& if byte_len(line) >= 2 && past_substats(line) {
                    log == after && lines.len() == i
                } else {
                    &&& i < lines.len()
                    &&& lines[i as int] == line
                    &&& plain_lines(
                        log,
                        after,
                        image,
                        scaler,
                        regions,
                        y_shift,
                        lines,
                        i + 1,
                    )
                }
            }
    }
}

/// Reads the lines of a card once each.
pub fn read_plain_lines<P: ImageToText>(
    general: &mut P,
    image: &RgbImage,
    scaler: &CoordScaler,
    regions: &ArtifactOcrRegions,
    y_shift: i32,
    lines: Vec<String>,
) -> (out: Vec<String>)
    requires
        regions.standard(),
        0 <= y_shift <= 40,
        lines@.len() <= 4,
    ensures
        plain_lines(
            old(general).log(),
            final(general).log(),
            *image,
            *scaler,
            *regions,
            y_shift as int,
            texts(out@),
            lines@.len(),
        ),
        lines@.len() <= out@.len() <= 4,
        forall|k: int| 0 <= k < lines@.len() ==> out@[k]@ == #[trigger] lines@[k]@,
    decreases 4 - lines@.len(),
{
    let i: usize = lines.len();
    if i >= 4 {
        return lines;
    }
    let ghost before = general.log();
    let rect = shifted(regions.substat_lines[i], y_shift);
    let answer = read_region(general, image, scaler, rect, Treatment::Plain);
    let ghost a = answer_of(answer);
    assert(asked(
        before,
        general.log(),
        request_for(*image, *scaler, rect, Treatment::Plain),
        a,
    ));
    let line = trim_text(or_empty(answer).as_str());
    let len: usize = line.as_str().len();
    if len >= 2 && has_text(line.as_str(), "2件套") {
        return lines;
    }
    let ghost text = line@;
    let ghost kept = lines@;
    let mut lines = lines;
    lines.push(line);
    let out = read_plain_lines(general, image, scaler, regions, y_shift, lines);
    proof {
        assert(out@[i as int]@ == lines@[i as int]@);
        assert(texts(out@)[i as int] == text);
        assert forall|k: int| 0 <= k < kept.len() implies out@[k]@ == #[trigger] kept[k]@ by {
            assert(lines@[k] == kept[k]);
        }
    }
    out
}

/// The substats that texts of lines give, active or not.
pub fn plain_substats(lines: &Vec<String>, inactive: bool) -> (out: Vec<GoodSubStat>)
    ensures
        subs_of(out@) == plain_part(texts(lines@), inactive, lines@.len()),
{
    let mut out: Vec<GoodSubStat> = Vec::new();
    let mut i: usize = 0;
    assert(subs_of(out@) =~= plain_part(texts(lines@), inactive, 0));
    while i < lines.len()
        invariant
            i <= lines@.len(),
            subs_of(out@) == plain_part(texts(lines@), inactive, i as nat),
        decreases lines@.len() - i,
    {
        assert(texts(lines@)[i as int] == lines@[i as int]@);
        let len: usize = lines[i].as_str().len();
        if len >= 2 {
            match parse_stat_from_text(lines[i].as_str()) {
                Some(stat) => {
                    if stat.inactive == inactive {
                        let ghost before = subs_of(out@);
                        let sub = GoodSubStat {
                            key: stat.key,
                            value: stat.value,
                            initial_value: None,
                        };
                        out.push(sub);
                        assert(subs_of(out@) =~= before.push(sub_of(sub)));
                    }
                },
                None => {},
            }
        }
        i = i + 1;
    }
    out
}

/// A substat as it is shown.
pub open spec fn sub_text(sub: SubStat, inactive: bool) -> Seq<char> {
    sub.0 + "="@ + value_text(sub.1 as int) + (if inactive {
        "(inactive)"@
    } else {
        ""@
    })
}

/// The substats as they are shown, the active ones first.
pub open spec fn sub_texts(active: Seq<SubStat>, inactive: Seq<SubStat>) -> Seq<Seq<char>> {
    Seq::new(active.len(), |i: int| sub_text(active[i], false)) + Seq::new(
        inactive.len(),
        |i: int| sub_text(inactive[i], true),
    )
}

fn show_subs(out: &mut Vec<String>, subs: &Vec<GoodSubStat>, inactive: bool)
    ensures
        texts(final(out)@) == texts(old(out)@) + Seq::new(
            subs@.len(),
            |i: int| sub_text(subs_of(subs@)[i], inactive),
        ),
{
    let ghost start = texts(out@);
    let mut i: usize = 0;
    assert(texts(out@) =~= start + Seq::new(0nat, |k: int| sub_text(subs_of(subs@)[k], inactive)));
    while i < subs.len()
        invariant
            i <= subs@.len(),
            start == texts(old(out)@),
            texts(out@) == start + Seq::new(
                i as nat,
                |k: int| sub_text(subs_of(subs@)[k], inactive),
            ),
        decreases subs@.len() - i,
    {
        let mut text = copy_of(subs[i].key.as_str());
        append(&mut text, "=");
        append(&mut text, show_value(subs[i].value).as_str());
        append(
            &mut text,
            if inactive {
                "(inactive)"
            } else {
                ""
            },
        );
        let ghost before = texts(out@);
        assert(text@ =~= sub_text(subs_of(subs@)[i as int], inactive));
        out.push(text);
        assert(texts(out@) =~= before.push(text@));
        i = i + 1;
        assert(texts(out@) =~= start + Seq::new(
            i as nat,
            |k: int| sub_text(subs_of(subs@)[k], inactive),
        ));
    }
}

/// The substats as they are shown.
pub fn show_all_subs(active: &Vec<GoodSubStat>, inactive: &Vec<GoodSubStat>) -> (text: String)
    ensures
        text@ == crate::text::list_text(
            sub_texts(subs_of(active@), subs_of(inactive@)),
            ", "@,
            active@.len() + inactive@.len(),
        ),
{
    let mut list: Vec<String> = Vec::new();
    assert(texts(list@) =~= Seq::<Seq<char>>::empty());
    show_subs(&mut list, active, false);
    show_subs(&mut list, inactive, true);
    assert(texts(list@) =~= sub_texts(subs_of(active@), subs_of(inactive@)));
    assert(texts(list@).len() == list@.len());
    join_list(&list, ", ")
}

/// The row where a detailed scan looks for the set.
pub open spec fn plain_set_rect(stats: int, y_shift: int) -> BaseRect {
    (1330i32, (625 + y_shift - (4 - counted_stats(stats)) * 40) as i32, 280i32, 45i32)
}

/// What a detailed scan reads of the set: the text as it is, or where that names
/// no set the text in grey or in green that does.
pub open spec fn plain_set(
    before: Log,
    after: Log,
    image: RgbImage,
    scaler: CoordScaler,
    rect: BaseRect,
    sets: Map<Seq<char>, String>,
    text: Seq<char>,
    key: Option<Seq<char>>,
) -> bool {
    exists|log: Log, plain: Answer|
        {
            &&& #[trigger] asked(
                before,
                log,
                request_for(image, scaler, rect, Treatment::Plain),
                plain,
            )
            &&& {
                let p = text_or_empty(plain);
                ||| log == after && text == p && key is Some && set_named(p, sets, key)
                ||| set_named(p, sets, None) && plain_set_gray(
                    log,
                    after,
                    image,
                    scaler,
                    rect,
                    sets,
                    p,
                    text,
                    key,
                )
            }
        }
}

/// What is read of the set in grey, and then in green.
pub open spec fn plain_set_gray(
    before: Log,
    after: Log,
    image: RgbImage,
    scaler: CoordScaler,
    rect: BaseRect,
    sets: Map<Seq<char>, String>,
    plain: Seq<char>,
    text: Seq<char>,
    key: Option<Seq<char>>,
) -> bool {
    exists|log: Log, gray: Answer|
        {
            &&& #[trigger] asked(
                before,
                log,
                request_for(image, scaler, rect, Treatment::Gray),
                gray,
            )
            &&& {
                let g = text_or_empty(gray);
                ||| log == after && gray is Err && text == plain && key is None
                ||| log == after && gray is Ok && text == g && key is Some && set_named(g, sets, key)
                ||| gray is Ok && set_named(g, sets, None) && plain_set_green(
                    log,
                    after,
                    image,
                    scaler,
                    rect,
                    sets,
                    plain,
                    text,
                    key,
                )
            }
        }
}

/// What is read of the set in green.
pub open spec fn plain_set_green(
    before: Log,
    after: Log,
    image: RgbImage,
    scaler: CoordScaler,
    rect: BaseRect,
    sets: Map<Seq<char>, String>,
    plain: Seq<char>,
    text: Seq<char>,
    key: Option<Seq<char>>,
) -> bool {
    exists|green: Answer|
        {
            &&& #[trigger] asked(
                before,
                after,
                request_for(image, scaler, rect, Treatment::Green),
                green,
            )
            &&& {
                let g = text_or_empty(green);
                ||| text == g && key is Some && set_named(g, sets, key)
                ||| set_named(g, sets, None) && text == plain && key is None
            }
        }
}

/// Reads the set once.
pub fn read_plain_set<P: ImageToText>(
    general: &mut P,
    image: &RgbImage,
    scaler: &CoordScaler,
    rect: BaseRect,
    mappings: &MappingManager,
) -> (found: (String, Option<String>))
    ensures
        plain_set(
            old(general).log(),
            final(general).log(),
            *image,
            *scaler,
            rect,
            mappings.artifact_set_map@,
            found.0@,
            crate::text::text_of(found.1),
        ),
{
    let sets = &mappings.artifact_set_map;
    let ghost g0 = general.log();
    let answer = read_region(general, image, scaler, rect, Treatment::Plain);
    let ghost a1 = answer_of(answer);
    let ghost g1 = general.log();
    assert(asked(g0, g1, request_for(*image, *scaler, rect, Treatment::Plain), a1));
    let plain = or_empty(answer);
    let key = find_set_key_in_text(plain.as_str(), sets);
    if key.is_some() {
        return (plain, key);
    }
    let answer = read_region(general, image, scaler, rect, Treatment::Gray);
    let ghost a2 = answer_of(answer);
    let ghost g2 = general.log();
    assert(asked(g1, g2, request_for(*image, *scaler, rect, Treatment::Gray), a2));
    let gray = match answer {
        Ok(t) => t,
        Err(_) => {
            assert(plain_set_gray(g1, g2, *image, *scaler, rect, sets@, plain@, plain@, None));
            return (plain, None);
        },
    };
    let key = find_set_key_in_text(gray.as_str(), sets);
    if key.is_some() {
        assert(plain_set_gray(
            g1,
            g2,
            *image,
            *scaler,
            rect,
            sets@,
            plain@,
            gray@,
            crate::text::text_of(key),
        ));
        return (gray, key);
    }
    let answer = read_region(general, image, scaler, rect, Treatment::Green);
    let ghost a3 = answer_of(answer);
    let ghost g3 = general.log();
    assert(asked(g2, g3, request_for(*image, *scaler, rect, Treatment::Green), a3));
    let green = or_empty(answer);
    let key = find_set_key_in_text(green.as_str(), sets);
    let ghost p = plain@;
    let found = if key.is_some() {
        (green, key)
    } else {
        (plain, None)
    };
    proof {
        let k = crate::text::text_of(found.1);
        assert(plain_set_green(g2, g3, *image, *scaler, rect, sets@, p, found.0@, k));
        assert(plain_set_gray(g1, g3, *image, *scaler, rect, sets@, p, found.0@, k));
    }
    found
}

/// What a detailed scan of an artifact read.
pub struct CardTexts {
    pub part: Seq<char>,
    pub main: Seq<char>,
    pub level: Seq<char>,
    pub lines: Seq<Seq<char>>,
    pub set: Seq<char>,
    pub set_key: Option<Seq<char>>,
    pub equip: Seq<char>,
    pub wearer: Seq<char>,
}

impl CardTexts {
    /// The slot, empty where the text names none.
    pub open spec fn slot(&self) -> Seq<char> {
        or_none(crate::good_common::stat_parser::slot_key(self.part))
    }

    /// The main stat, empty where the text names none.
    pub open spec fn main_stat(&self) -> Seq<char> {
        or_none(main_key(self.slot(), self.main))
    }

    /// The number of the level, 0 where there is none.
    pub open spec fn level_value(&self) -> int {
        match level_number(self.level) {
            Some(n) => n,
            None => 0,
        }
    }

    /// The substats that are active, or those that are not.
    pub open spec fn subs(&self, inactive: bool) -> Seq<SubStat> {
        plain_part(self.lines, inactive, self.lines.len())
    }

    /// How many substats there are.
    pub open spec fn stats(&self) -> int {
        (self.subs(false).len() + self.subs(true).len()) as int
    }
}

/// What the engines were asked in a detailed scan, in order.
pub open spec fn texts_asked(
    g0: Log,
    g1: Log,
    l0: Log,
    l1: Log,
    image: RgbImage,
    scaler: CoordScaler,
    regions: ArtifactOcrRegions,
    mappings: MappingManager,
    t: CardTexts,
) -> bool {
    let shift = card_shift(elixir_banner(image, scaler));
    let level_rect = (
        regions.level.0,
        (regions.level.1 + shift) as i32,
        regions.level.2,
        regions.level.3,
    );
    exists|a: Log, b: Log, c: Log, d: Log, part: Answer, main: Answer, level: Answer, equip: Answer|
        {
            &&& #[trigger] asked(g0, a, plain_request(image, scaler, regions.part_name), part)
            &&& #[trigger] asked(a, b, plain_request(image, scaler, regions.main_stat), main)
            &&& #[trigger] asked(l0, l1, plain_request(image, scaler, level_rect), level)
            &&& #[trigger] asked(d, g1, plain_request(image, scaler, regions.equip), equip)
            &&& #[trigger] plain_lines(b, c, image, scaler, regions, shift, t.lines, 0)
            &&& plain_set(
                c,
                d,
                image,
                scaler,
                plain_set_rect(t.stats(), shift),
                mappings.artifact_set_map@,
                t.set,
                t.set_key,
            )
            &&& t.part == text_or_empty(part)
            &&& t.main == text_or_empty(main)
            &&& t.level == text_or_empty(level)
            &&& t.equip == text_or_empty(equip)
            &&& wearer(t.equip, mappings.character_name_map@, t.wearer)
        }
}

/// The fields of a detailed scan.
pub open spec fn fields_for(
    image: RgbImage,
    scaler: CoordScaler,
    regions: ArtifactOcrRegions,
    t: CardTexts,
) -> Seq<Field> {
    let elixir = elixir_banner(image, scaler);
    let shift = card_shift(elixir);
    let none = Seq::<char>::empty();
    let lock = dark_at(image, scaler, ARTIFACT_LOCK_X1 as int, ARTIFACT_LOCK_Y1 + shift);
    let astral = dark_at(image, scaler, ARTIFACT_ASTRAL_X1 as int, ARTIFACT_ASTRAL_Y1 + shift);
    seq![
        (
            "rarity"@,
            none,
            crate::number::decimal_int(artifact_rarity(image, scaler)) + "*"@,
            (0i32, 0i32, 0i32, 0i32),
        ),
        ("slot"@, t.part, t.slot(), regions.part_name),
        ("mainStat"@, t.main, t.main_stat(), regions.main_stat),
        ("elixir"@, none, crate::text::truth_text(elixir), (1520i32, 423i32, 1i32, 1i32)),
        ("level"@, t.level, "+"@ + crate::number::decimal_int(t.level_value()), regions.level),
        (
            "substats"@,
            crate::text::list_text(t.lines, " | "@, t.lines.len()),
            crate::text::list_text(
                sub_texts(t.subs(false), t.subs(true)),
                ", "@,
                t.subs(false).len() + t.subs(true).len(),
            ),
            regions.substat_lines@[0],
        ),
        ("setName"@, t.set, or_none(t.set_key), plain_set_rect(t.stats(), shift)),
        (
            "equip"@,
            t.equip,
            if t.wearer.len() == 0 {
                "(none)"@
            } else {
                t.wearer
            },
            regions.equip,
        ),
        (
            "pixel_detect"@,
            none,
            "lock="@ + crate::text::truth_text(lock) + " astral="@ + crate::text::truth_text(
                astral,
            ),
            (0i32, 0i32, 0i32, 0i32),
        ),
    ]
}

/// The artifact of a detailed scan.
pub open spec fn plain_artifact(
    image: RgbImage,
    scaler: CoordScaler,
    t: CardTexts,
    a: GoodArtifact,
) -> bool {
    let shift = card_shift(elixir_banner(image, scaler));
    &&& a.set_key@ == or_none(t.set_key)
    &&& a.slot_key@ == t.slot()
    &&& a.level == t.level_value()
    &&& a.rarity == artifact_rarity(image, scaler)
    &&& a.main_stat_key@ == t.main_stat()
    &&& subs_of(a.substats@) == t.subs(false)
    &&& subs_of(a.unactivated_substats@) == t.subs(true)
    &&& a.total_rolls is None
    &&& a.location@ == t.wearer
    &&& a.elixir_crafted == elixir_banner(image, scaler)
    &&& a.lock == dark_at(image, scaler, ARTIFACT_LOCK_X1 as int, ARTIFACT_LOCK_Y1 + shift)
    &&& a.astral_mark == dark_at(
        image,
        scaler,
        ARTIFACT_ASTRAL_X1 as int,
        ARTIFACT_ASTRAL_Y1 + shift,
    )
}

/// What came of a detailed scan.
pub struct DebugScan {
    pub fields: Vec<DebugOcrField>,
    pub artifact: GoodArtifact,
}

/// The texts of a card, as they were read, and what two of them name.
pub struct CardReading {
    pub part: String,
    pub main: String,
    pub level: String,
    pub lines: Vec<String>,
    pub set: String,
    pub set_key: Option<String>,
    pub equip: String,
    pub wearer: String,
}

impl CardReading {
    /// The texts.
    pub open spec fn texts(&self) -> CardTexts {
        CardTexts {
            part: self.part@,
            main: self.main@,
            level: self.level@,
            lines: texts(self.lines@),
            set: self.set@,
            set_key: crate::text::text_of(self.set_key),
            equip: self.equip@,
            wearer: self.wearer@,
        }
    }

    /// The slot, empty where the text names none.
    pub fn slot(&self) -> (key: String)
        ensures
            key@ == self.texts().slot(),
    {
        match match_slot_key(self.part.as_str()) {
            Some(k) => copy_of(k),
            None => or_none_text(&None),
        }
    }

    /// The main stat, empty where the text names none.
    pub fn main_stat(&self) -> (key: String)
        ensures
            key@ == self.texts().main_stat(),
    {
        or_none_text(&main_stat_of(self.slot().as_str(), self.main.as_str()))
    }

    /// The number of the level, 0 where there is none.
    pub fn level_value(&self) -> (n: i32)
        ensures
            n == self.texts().level_value(),
    {
        match parse_level_number(self.level.as_str()) {
            Some(n) => n,
            None => 0,
        }
    }

    /// The substats that are active, or those that are not.
    pub fn subs(&self, inactive: bool) -> (out: Vec<GoodSubStat>)
        ensures
            subs_of(out@) == self.texts().subs(inactive),
            subs_of(out@).len() == out@.len(),
    {
        let out = plain_substats(&self.lines, inactive);
        assert(texts(self.lines@).len() == self.lines@.len());
        out
    }
}

/// The row where a detailed scan looks for the set.
pub fn set_rect_for(lines: &Vec<String>, y_shift: i32) -> (rect: BaseRect)
    requires
        lines@.len() <= 4,
        0 <= y_shift <= 40,
    ensures
        rect == plain_set_rect(
            (plain_part(texts(lines@), false, lines@.len()).len() + plain_part(
                texts(lines@),
                true,
                lines@.len(),
            ).len()) as int,
            y_shift as int,
        ),
{
    let active = plain_substats(lines, false);
    let inactive = plain_substats(lines, true);
    proof {
        assert(subs_of(active@).len() == active@.len());
        assert(subs_of(inactive@).len() == inactive@.len());
        lemma_plain_part_len(texts(lines@), lines@.len());
    }
    let stats: usize = active.len() + inactive.len();
    let counted: i32 = if stats < 1 {
        1
    } else {
        stats as i32
    };
    (1330, 625 + y_shift - (4 - counted) * 40, 280, 45)
}

fn card_y_shift(image: &RgbImage, scaler: &CoordScaler) -> (y_shift: i32)
    ensures
        y_shift == card_shift(elixir_banner(*image, *scaler)),
        0 <= y_shift <= 40,
{
    if detect_elixir_crafted(image, scaler) {
        ELIXIR_SHIFT
    } else {
        0
    }
}

/// Reads the texts of a card once each.
pub fn read_card<O: ImageToText, P: ImageToText>(
    level_ocr: &mut O,
    general: &mut P,
    image: &RgbImage,
    scaler: &CoordScaler,
    regions: &ArtifactOcrRegions,
    mappings: &MappingManager,
) -> (r: CardReading)
    requires
        regions.standard(),
    ensures
        texts_asked(
            old(general).log(),
            final(general).log(),
            old(level_ocr).log(),
            final(level_ocr).log(),
            *image,
            *scaler,
            *regions,
            *mappings,
            r.texts(),
        ),
        r.lines@.len() <= 4,
{
    let ghost g0 = general.log();
    let ghost l0 = level_ocr.log();
    let answer = read_region(general, image, scaler, regions.part_name, Treatment::Plain);
    let ghost a_part = answer_of(answer);
    let ghost ga = general.log();
    assert(asked(g0, ga, plain_request(*image, *scaler, regions.part_name), a_part));
    let part = or_empty(answer);
    let answer = read_region(general, image, scaler, regions.main_stat, Treatment::Plain);
    let ghost a_main = answer_of(answer);
    let ghost gb = general.log();
    assert(asked(ga, gb, plain_request(*image, *scaler, regions.main_stat), a_main));
    let main = or_empty(answer);
    let y_shift: i32 = card_y_shift(image, scaler);
    let level_rect = shifted(regions.level, y_shift);
    let answer = read_region(level_ocr, image, scaler, level_rect, Treatment::Plain);
    let ghost a_level = answer_of(answer);
    let ghost l1 = level_ocr.log();
    assert(asked(l0, l1, plain_request(*image, *scaler, level_rect), a_level));
    let level = or_empty(answer);
    let lines = read_plain_lines(general, image, scaler, regions, y_shift, Vec::new());
    let ghost gc = general.log();
    let rect = set_rect_for(&lines, y_shift);
    let (set, set_key) = read_plain_set(general, image, scaler, rect, mappings);
    let ghost gd = general.log();
    let answer = read_region(general, image, scaler, regions.equip, Treatment::Plain);
    let ghost a_equip = answer_of(answer);
    let ghost ge = general.log();
    assert(asked(gd, ge, plain_request(*image, *scaler, regions.equip), a_equip));
    let equip = or_empty(answer);
    let wearer = parse_equip_location(equip.as_str(), &mappings.character_name_map);
    let r = CardReading { part, main, level, lines, set, set_key, equip, wearer };
    proof {
        let t = r.texts();
        let shift = y_shift as int;
        assert(t.lines.len() == lines@.len());
        assert(plain_lines(gb, gc, *image, *scaler, *regions, shift, t.lines, 0));
        assert(rect == plain_set_rect(t.stats(), shift));
        assert(texts_asked(g0, ge, l0, l1, *image, *scaler, *regions, *mappings, t));
    }
    r
}

/// The fields of a detailed scan.
pub fn show_fields(
    image: &RgbImage,
    scaler: &CoordScaler,
    regions: &ArtifactOcrRegions,
    r: &CardReading,
) -> (fields: Vec<DebugOcrField>)
    requires
        r.lines@.len() <= 4,
    ensures
        fields_of(fields@) == fields_for(*image, *scaler, *regions, r.texts()),
{
    let mut fields: Vec<DebugOcrField> = Vec::new();
    let y_shift: i32 = card_y_shift(image, scaler);
    let elixir = detect_elixir_crafted(image, scaler);
    let rarity: i32 = detect_artifact_rarity(image, scaler);
    let rarity_text = joined(string_of(&decimal_int_chars(rarity as i64)).as_str(), "*");
    fields.push(field("rarity", "", rarity_text.as_str(), (0, 0, 0, 0)));
    fields.push(field("slot", r.part.as_str(), r.slot().as_str(), regions.part_name));
    fields.push(field("mainStat", r.main.as_str(), r.main_stat().as_str(), regions.main_stat));
    fields.push(field("elixir", "", truth(elixir), (1520, 423, 1, 1)));
    let level: i32 = r.level_value();
    let level_text = joined("+", string_of(&decimal_int_chars(level as i64)).as_str());
    fields.push(field("level", r.level.as_str(), level_text.as_str(), regions.level));
    let raw = join_list(&r.lines, " | ");
    let active = r.subs(false);
    let inactive = r.subs(true);
    let subs = show_all_subs(&active, &inactive);
    fields.push(field("substats", raw.as_str(), subs.as_str(), regions.substat_lines[0]));
    let set = or_none_text(&r.set_key);
    let set_rect = set_rect_for(&r.lines, y_shift);
    fields.push(field("setName", r.set.as_str(), set.as_str(), set_rect));
    let who = if r.wearer.as_str().is_empty() {
        "(none)"
    } else {
        r.wearer.as_str()
    };
    fields.push(field("equip", r.equip.as_str(), who, regions.equip));
    let mut pixels = joined("lock=", truth(detect_artifact_lock(image, scaler, y_shift)));
    append(&mut pixels, " astral=");
    append(&mut pixels, truth(detect_artifact_astral_mark(image, scaler, y_shift)));
    fields.push(field("pixel_detect", "", pixels.as_str(), (0, 0, 0, 0)));
    proof {
        reveal_strlit("");
        assert(""@ =~= Seq::<char>::empty());
        let t = r.texts();
        assert(t.lines.len() == r.lines@.len());
        let expected = fields_for(*image, *scaler, *regions, t);
        assert(expected.len() == 9 && fields@.len() == 9);
        assert(field_of(fields@[0]) == expected[0]);
        assert(field_of(fields@[1]) == expected[1]);
        assert(field_of(fields@[2]) == expected[2]);
        assert(field_of(fields@[3]) == expected[3]);
        assert(field_of(fields@[4]) == expected[4]);
        assert(field_of(fields@[5]) == expected[5]);
        assert(field_of(fields@[6]) == expected[6]);
        assert(field_of(fields@[7]) == expected[7]);
        assert(field_of(fields@[8]) == expected[8]);
        assert(fields_of(fields@) =~= expected);
    }
    fields
}

impl GoodArtifactScanner {
    /// Scans one artifact field by field, each text read once.
    pub fn debug_scan_single<O: ImageToText, P: ImageToText>(
        &self,
        level_ocr: &mut O,
        general: &mut P,
        image: &RgbImage,
        scaler: &CoordScaler,
        mappings: &MappingManager,
    ) -> (out: DebugScan)
        requires
            self.ocr_regions.standard(),
        ensures
            exists|t: CardTexts|
                {
                    &&& #[trigger] texts_asked(
                        old(general).log(),
                        final(general).log(),
                        old(level_ocr).log(),
                        final(level_ocr).log(),
                        *image,
                        *scaler,
                        self.ocr_regions,
                        *mappings,
                        t,
                    )
                    &&& fields_of(out.fields@) == fields_for(
                        *image,
                        *scaler,
                        self.ocr_regions,
                        t,
                    )
                    &&& plain_artifact(*image, *scaler, t, out.artifact)
                },
    {
        let r = read_card(level_ocr, general, image, scaler, &self.ocr_regions, mappings);
        let fields = show_fields(image, scaler, &self.ocr_regions, &r);
        let ghost t = r.texts();
        let y_shift: i32 = card_y_shift(image, scaler);
        let inactive = r.subs(true);
        let artifact = GoodArtifact {
            set_key: or_none_text(&r.set_key),
            slot_key: r.slot(),
            level: r.level_value(),
            rarity: detect_artifact_rarity(image, scaler),
            main_stat_key: r.main_stat(),
            substats: r.subs(false),
            location: r.wearer,
            lock: detect_artifact_lock(image, scaler, y_shift),
            astral_mark: detect_artifact_astral_mark(image, scaler, y_shift),
            elixir_crafted: detect_elixir_crafted(image, scaler),
            unactivated_substats: inactive,
            total_rolls: None,
        };
        assert(plain_artifact(*image, *scaler, t, artifact));
        DebugScan { fields, artifact }
    }
}

proof fn lemma_plain_part_len(lines: Seq<Seq<char>>, n: nat)
    ensures
        plain_part(lines, false, n).len() + plain_part(lines, true, n).len() <= n,
    decreases n,
{
    if n > 0 {
        lemma_plain_part_len(lines, (n - 1) as nat);
    }
}

} // verus!
