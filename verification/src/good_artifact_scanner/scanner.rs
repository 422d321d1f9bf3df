//! Scanning the artifacts of the backpack one after the other.
use crate::good_artifact_scanner::config::GoodArtifactScannerConfig;
use crate::good_artifact_scanner::rows::{RowScan, Rows, MAX_FAILURES};
use crate::good_common::equip_parser::{parse_equip_location, wearer};
use crate::good_common::fuzzy_match::fuzzy_match_map;
use crate::good_common::models::{GoodArtifact, GoodSubStat};
use crate::good_common::pixel_utils::{artifact_stars, detect_artifact_rarity};
use crate::good_common::stat_parser::{match_slot_key, parse_stat_from_text};
use crate::image::RgbImage;
use crate::name_map::NameMap;
use crate::scanner::artifact::scanner::{card_shift, ArtifactError};
use crate::scanner::artifact::set_name::counted_stats;
use crate::scanner::artifact::substats::{level_number, parse_level_number, stat_said};
use crate::scanner::common::backpack_scanner::ScanAction;
use crate::scanner::common::constants::{
    ARTIFACT_ASTRAL_X1, ARTIFACT_ASTRAL_Y1, ARTIFACT_LOCK_X1, ARTIFACT_LOCK_Y1, ELIXIR_SHIFT,
};
use crate::scanner::common::coord_scaler::CoordScaler;
use crate::scanner::common::fuzzy_match::{byte_len, matched, name_chars};
use crate::scanner::common::mappings::MappingManager;
use crate::scanner::common::ocr::{
    answer_of, asked, conducted, conducted_on, read_region, request_for, Answer, BaseRect,
    ImageToText, Log, OcrRequest, Treatment,
};
use crate::scanner::common::pixel_utils::{
    dark_at, detect_artifact_astral_mark, detect_artifact_lock,
};
use crate::text::{
    chars_of, copy_of, find_chars, has_text, pieces, same_text, split_chars, string_of, trim_chars,
};
use vstd::prelude::*;

verus! {

/// Where the texts of an artifact card are, at the base resolution.
#[derive(Debug, Clone, Copy)]
pub struct ArtifactOcrRegions {
    pub part_name: BaseRect,
    pub main_stat: BaseRect,
    pub level: BaseRect,
    pub substats: BaseRect,
    pub set_name_x: i32,
    pub set_name_w: i32,
    pub set_name_base_y: i32,
    pub set_name_h: i32,
    pub equip: BaseRect,
    pub elixir: BaseRect,
}

impl ArtifactOcrRegions {
    /// The rectangles of the card.
    pub open spec fn standard(&self) -> bool {
        &&& self.part_name == (1327i32, 184i32, 235i32, 40i32)
        &&& self.main_stat == (1327i32, 264i32, 225i32, 35i32)
        &&& self.level == (1332i32, 425i32, 70i32, 35i32)
        &&& self.substats == (1353i32, 475i32, 247i32, 150i32)
        &&& self.set_name_x == 1330
        &&& self.set_name_w == 200
        &&& self.set_name_base_y == 630
        &&& self.set_name_h == 30
        &&& self.equip == (1356i32, 905i32, 420i32, 50i32)
        &&& self.elixir == (1360i32, 410i32, 140i32, 26i32)
    }

    /// The rectangles of the card.
    pub fn new() -> (r: Self)
        ensures
            r.standard(),
    {
        ArtifactOcrRegions {
            part_name: (1327, 184, 235, 40),
            main_stat: (1327, 264, 225, 35),
            level: (1332, 425, 70, 35),
            substats: (1353, 475, 247, 150),
            set_name_x: 1330,
            set_name_w: 200,
            set_name_base_y: 630,
            set_name_h: 30,
            equip: (1356, 905, 420, 50),
            elixir: (1360, 410, 140, 26),
        }
    }
}

/// What came of scanning one artifact.
#[derive(Debug)]
pub enum ArtifactScanResult {
    Artifact(GoodArtifact),
    /// The scan can stop here.
    Stop,
    /// The artifact is left out.
    Skip,
}

/// The first of the lines from `i` on that is long enough and names a set.
pub open spec fn line_names_set(
    lines: Seq<Seq<char>>,
    sets: Map<Seq<char>, String>,
    i: int,
    key: Option<Seq<char>>,
) -> bool
    decreases lines.len() - i,
{
    if i < 0 || i >= lines.len() {
        key is None
    } else {
        let line = crate::text::trimmed(lines[i]);
        if byte_len(line) < 2 {
            line_names_set(lines, sets, i + 1, key)
        } else {
            ||| key is Some && matched(name_chars(line), sets, key)
            ||| matched(name_chars(line), sets, None) && line_names_set(lines, sets, i + 1, key)
        }
    }
}

/// The set that a text names: the whole text, or else its first line that does.
pub open spec fn set_in(
    text: Seq<char>,
    sets: Map<Seq<char>, String>,
    key: Option<Seq<char>>,
) -> bool {
    if text.len() == 0 {
        key is None
    } else {
        ||| key is Some && matched(name_chars(text), sets, key)
        ||| matched(name_chars(text), sets, None) && line_names_set(
            pieces(text, '\n'),
            sets,
            0,
            key,
        )
    }
}

fn find_in_lines(lines: &Vec<Vec<char>>, i: usize, sets: &NameMap<String>) -> (key: Option<String>)
    requires
        i <= lines@.len(),
    ensures
        line_names_set(
            Seq::new(lines@.len(), |k: int| lines@[k]@),
            sets@,
            i as int,
            crate::text::text_of(key),
        ),
    decreases lines@.len() - i,
{
    if i >= lines.len() {
        return None;
    }
    let line = string_of(&trim_chars(&lines[i]));
    let len: usize = line.as_str().len();
    if len < 2 {
        return find_in_lines(lines, i + 1, sets);
    }
    let found = fuzzy_match_map(line.as_str(), sets);
    if found.is_some() {
        return found;
    }
    find_in_lines(lines, i + 1, sets)
}

/// The key of the set that a text names.
pub fn find_set_key_in_text(text: &str, sets: &NameMap<String>) -> (key: Option<String>)
    ensures
        set_in(text@, sets@, crate::text::text_of(key)),
{
    let chars = chars_of(text);
    if chars.len() == 0 {
        return None;
    }
    let found = fuzzy_match_map(text, sets);
    if found.is_some() {
        return found;
    }
    assert(chars@.skip(0) =~= text@);
    let lines = split_chars(&chars, 0, '\n');
    assert(Seq::new(lines@.len(), |k: int| lines@[k]@) =~= pieces(text@, '\n'));
    find_in_lines(&lines, 0, sets)
}

/// The text before the set effects.
pub open spec fn before_effects(text: Seq<char>) -> Seq<char> {
    if crate::text::occurs_in(text, "2件套"@) {
        text.take(choose|i: int| crate::text::first_at(text, "2件套"@, i))
    } else {
        text
    }
}

/// A substat: its key and its value.
pub type SubStat = (Seq<char>, i64);

/// The substats of a list.
pub open spec fn subs_of(list: Seq<GoodSubStat>) -> Seq<SubStat> {
    Seq::new(list.len(), |i: int| (list[i].key@, list[i].value))
}

/// The substats in the first `n` lines, active or not.
pub open spec fn subs_in(lines: Seq<Seq<char>>, inactive: bool, n: nat) -> Seq<SubStat>
    decreases n,
{
    if n == 0 {
        Seq::empty()
    } else {
        let earlier = subs_in(lines, inactive, (n - 1) as nat);
        let line = crate::text::trimmed(lines[n - 1]);
        if byte_len(line) < 2 {
            earlier
        } else {
            match stat_said(line) {
                Some(stat) => if stat.2 == inactive {
                    earlier.push((stat.0, stat.1 as i64))
                } else {
                    earlier
                },
                None => earlier,
            }
        }
    }
}

/// The substats of a text, active or not.
pub open spec fn text_subs(text: Seq<char>, inactive: bool) -> Seq<SubStat> {
    let lines = pieces(before_effects(text), '\n');
    subs_in(lines, inactive, lines.len())
}

fn cut_effects(text: &str) -> (out: Vec<char>)
    ensures
        out@ == before_effects(text@),
{
    let chars = chars_of(text);
    let mark = chars_of("2件套");
    match find_chars(&chars, &mark) {
        Some(at) => {
            let mut out: Vec<char> = Vec::new();
            let mut i: usize = 0;
            while i < at
                invariant
                    i <= at <= chars@.len(),
                    out@ == chars@.take(i as int),
                decreases at - i,
            {
                out.push(chars[i]);
                i = i + 1;
                assert(chars@.take(i as int) =~= chars@.take(i - 1).push(chars@[i - 1]));
            }
            proof {
                let c = choose|i: int| crate::text::first_at(text@, "2件套"@, i);
                assert(crate::text::first_at(text@, "2件套"@, at as int));
                assert(crate::text::occurs_at(text@, "2件套"@, at as int));
                assert(crate::text::first_at(text@, "2件套"@, c));
                assert(c == at);
            }
            out
        },
        None => chars,
    }
}

/// The substats of a text, active or not.
pub fn parse_substats(text: &str, inactive: bool) -> (out: Vec<GoodSubStat>)
    ensures
        subs_of(out@) == text_subs(text@, inactive),
        subs_of(out@).len() == out@.len(),
{
    let kept = cut_effects(text);
    assert(kept@.skip(0) =~= kept@);
    let lines = split_chars(&kept, 0, '\n');
    let ghost all = pieces(kept@, '\n');
    let mut out: Vec<GoodSubStat> = Vec::new();
    let mut i: usize = 0;
    assert(subs_of(out@) =~= subs_in(all, inactive, 0));
    while i < lines.len()
        invariant
            i <= lines@.len(),
            lines@.len() == all.len(),
            forall|k: int| 0 <= k < lines@.len() ==> (#[trigger] lines@[k])@ == all[k],
            subs_of(out@) == subs_in(all, inactive, i as nat),
        decreases lines@.len() - i,
    {
        assert(lines@[i as int]@ == all[i as int]);
        let line = string_of(&trim_chars(&lines[i]));
        let len: usize = line.as_str().len();
        if len >= 2 {
            match parse_stat_from_text(line.as_str()) {
                Some(stat) => {
                    if stat.inactive == inactive {
                        let ghost before = subs_of(out@);
                        let sub = GoodSubStat { key: stat.key, value: stat.value };
                        out.push(sub);
                        assert(subs_of(out@) =~= before.push((sub.key@, sub.value)));
                    }
                },
                None => {},
            }
        }
        i = i + 1;
    }
    out
}

/// The main stat: fixed for flowers and plumes, else that of the text.
pub open spec fn main_key(slot: Seq<char>, text: Seq<char>) -> Option<Seq<char>> {
    if slot == "flower"@ {
        Some("hp"@)
    } else if slot == "plume"@ {
        Some("atk"@)
    } else {
        match stat_said(text) {
            Some(stat) => Some(stat.0),
            None => None,
        }
    }
}

fn main_stat_of(slot: &str, text: &str) -> (key: Option<String>)
    ensures
        crate::text::text_of(key) == main_key(slot@, text@),
{
    if same_text(slot, "flower") {
        Some(copy_of("hp"))
    } else if same_text(slot, "plume") {
        Some(copy_of("atk"))
    } else {
        match parse_stat_from_text(text) {
            Some(stat) => Some(stat.key),
            None => None,
        }
    }
}

/// A card: what is known of an artifact without its texts.
pub struct ArtifactCard<'a> {
    pub image: &'a RgbImage,
    pub scaler: &'a CoordScaler,
    pub regions: &'a ArtifactOcrRegions,
    pub mappings: &'a MappingManager,
    pub go_on: bool,
}

/// The text names an elixir.
pub open spec fn names_elixir(text: Seq<char>) -> bool {
    crate::text::occurs_in(text, "祝圣"@)
}

/// A rectangle, moved down.
pub open spec fn moved(rect: BaseRect, by: int) -> BaseRect {
    (rect.0, (rect.1 + by) as i32, rect.2, rect.3)
}

/// The row of the set below so many substats.
pub open spec fn set_rect(regions: ArtifactOcrRegions, stats: int, y_shift: int) -> BaseRect {
    (
        regions.set_name_x,
        (regions.set_name_base_y + y_shift - (4 - counted_stats(stats)) * 40) as i32,
        regions.set_name_w,
        regions.set_name_h,
    )
}

/// How many substats a text has.
pub open spec fn stats_in(text: Seq<char>) -> int {
    (text_subs(text, false).len() + text_subs(text, true).len()) as int
}

/// What followed from the texts, up to where the scan ended: what two of them
/// name, as far as they were read.
pub struct Named {
    pub set: Option<Seq<char>>,
    pub wearer: Seq<char>,
}

impl<'a> ArtifactCard<'a> {
    /// The rectangle that is asked for after so many answers: part, main stat,
    /// elixir, level, substats, set, wearer.
    pub open spec fn rect_after(&self, answers: Seq<Answer>) -> BaseRect {
        let r = *self.regions;
        if answers.len() == 0 {
            r.part_name
        } else if answers.len() == 1 {
            r.main_stat
        } else if answers.len() == 2 {
            r.elixir
        } else {
            let shift = card_shift(names_elixir(answers[2]->Ok_0));
            if answers.len() == 3 {
                moved(r.level, shift)
            } else if answers.len() == 4 {
                moved(r.substats, shift)
            } else if answers.len() == 5 {
                set_rect(r, stats_in(answers[4]->Ok_0), shift)
            } else {
                r.equip
            }
        }
    }

    /// What the engine is asked after so many answers.
    pub open spec fn plan(&self) -> spec_fn(Seq<Answer>) -> OcrRequest {
        |answers: Seq<Answer>|
            request_for(*self.image, *self.scaler, self.rect_after(answers), Treatment::Plain)
    }

    /// The artifact of seven texts.
    pub open spec fn read(&self, answers: Seq<Answer>, named: Named, a: GoodArtifact) -> bool {
        let elixir = names_elixir(answers[2]->Ok_0);
        let shift = card_shift(elixir);
        let slot = crate::good_common::stat_parser::slot_key(answers[0]->Ok_0);
        &&& slot == Some(a.slot_key@)
        &&& main_key(a.slot_key@, answers[1]->Ok_0) == Some(a.main_stat_key@)
        &&& a.elixir_crafted == elixir
        &&& a.level == match level_number(answers[3]->Ok_0) {
            Some(n) => n,
            None => 0,
        }
        &&& a.rarity == artifact_stars(*self.image, *self.scaler)
        &&& subs_of(a.substats@) == text_subs(answers[4]->Ok_0, false)
        &&& subs_of(a.unactivated_substats@) == text_subs(answers[4]->Ok_0, true)
        &&& set_in(answers[5]->Ok_0, self.mappings.artifact_set_map@, named.set)
        &&& named.set == Some(a.set_key@)
        &&& wearer(answers[6]->Ok_0, self.mappings.character_name_map@, named.wearer)
        &&& a.location@ == named.wearer
        &&& a.lock == dark_at(
            *self.image,
            *self.scaler,
            ARTIFACT_LOCK_X1 as int,
            ARTIFACT_LOCK_Y1 + shift,
        )
        &&& a.astral_mark == dark_at(
            *self.image,
            *self.scaler,
            ARTIFACT_ASTRAL_X1 as int,
            ARTIFACT_ASTRAL_Y1 + shift,
        )
    }

    /// What follows from the answers: the first error ends the scan, and so does
    /// a text for the part, the main stat or the set that names none.
    pub open spec fn decided(
        &self,
        answers: Seq<Answer>,
        named: Named,
        result: Result<ArtifactScanResult, ArtifactError>,
    ) -> bool {
        let n = answers.len() as int;
        let rarity = artifact_stars(*self.image, *self.scaler);
        &&& 1 <= n <= 7
        &&& forall|i: int| 0 <= i < n - 1 ==> #[trigger] answers[i] is Ok
        &&& n > 1 ==> crate::good_common::stat_parser::slot_key(answers[0]->Ok_0) is Some
        &&& n > 2 ==> main_key(
            crate::good_common::stat_parser::slot_key(answers[0]->Ok_0)->0,
            answers[1]->Ok_0,
        ) is Some
        &&& match answers[n - 1] {
            Err(e) => result matches Err(ArtifactError::Ocr(t)) && t@ == e,
            Ok(last) => if n == 1 {
                &&& crate::good_common::stat_parser::slot_key(last) is None
                &&& if rarity == 4 || self.go_on {
                    result is Ok && result->Ok_0 is Skip
                } else {
                    result matches Err(ArtifactError::Slot(t)) && t@ == last
                }
            } else if n == 2 {
                &&& main_key(
                    crate::good_common::stat_parser::slot_key(answers[0]->Ok_0)->0,
                    last,
                ) is None
                &&& if self.go_on {
                    result is Ok && result->Ok_0 is Skip
                } else {
                    result matches Err(ArtifactError::MainStat(t)) && t@ == last
                }
            } else if n == 6 {
                &&& set_in(last, self.mappings.artifact_set_map@, None)
                &&& if self.go_on {
                    result is Ok && result->Ok_0 is Skip
                } else {
                    result matches Err(ArtifactError::SetName(k, t)) && t@ == last && k
                        == counted_stats(stats_in(answers[4]->Ok_0))
                }
            } else {
                &&& n == 7
                &&& result matches Ok(ArtifactScanResult::Artifact(a)) && self.read(
                    answers,
                    named,
                    a,
                )
            },
        }
    }

    /// The whole scan: at three stars or less it stops, and no engine is asked.
    pub open spec fn scanned(
        &self,
        before: Log,
        after: Log,
        result: Result<ArtifactScanResult, ArtifactError>,
    ) -> bool {
        if artifact_stars(*self.image, *self.scaler) <= 3 {
            before == after && result is Ok && result->Ok_0 is Stop
        } else {
            exists|answers: Seq<Answer>, named: Named|
                #![trigger conducted(before, after, self.plan(), answers), self.decided(answers, named, result)]
                conducted(before, after, self.plan(), answers) && self.decided(
                    answers,
                    named,
                    result,
                )
        }
    }

    fn ask<O: ImageToText>(&self, ocr: &mut O, rect: BaseRect) -> (answer: Result<String, String>)
        ensures
            asked(
                old(ocr).log(),
                final(ocr).log(),
                request_for(*self.image, *self.scaler, rect, Treatment::Plain),
                answer_of(answer),
            ),
    {
        read_region(ocr, self.image, self.scaler, rect, Treatment::Plain)
    }

    fn set_row(&self, active: usize, inactive: usize, y_shift: i32) -> (rect: BaseRect)
        requires
            self.regions.standard(),
            0 <= y_shift <= 40,
        ensures
            rect == set_rect(*self.regions, active + inactive, y_shift as int),
    {
        let counted: i32 = Self::counted(active, inactive);
        (
            self.regions.set_name_x,
            self.regions.set_name_base_y + y_shift - (4 - counted) * 40,
            self.regions.set_name_w,
            self.regions.set_name_h,
        )
    }

    fn counted(active: usize, inactive: usize) -> (n: i32)
        ensures
            n == counted_stats(active + inactive),
            1 <= n <= 4,
    {
        if active >= 4 || inactive >= 4 || active + inactive >= 4 {
            4
        } else if active + inactive < 1 {
            1
        } else {
            (active + inactive) as i32
        }
    }

    /// Scans one artifact.
    #[verifier::rlimit(60)]
    pub fn scan_single_artifact<O: ImageToText>(&self, ocr: &mut O) -> (result: Result<
        ArtifactScanResult,
        ArtifactError,
    >)
        requires
            self.regions.standard(),
        ensures
            self.scanned(old(ocr).log(), final(ocr).log(), result),
    {
        let rarity: i32 = detect_artifact_rarity(self.image, self.scaler);
        if rarity <= 3 {
            return Ok(ArtifactScanResult::Stop);
        }
        let ghost start = ocr.log();
        let ghost plan = self.plan();
        let ghost none = Seq::<Answer>::empty();
        let ghost nobody = Named { set: None, wearer: Seq::empty() };
        assert(conducted(start, start, plan, none));
        let answer = self.ask(ocr, self.regions.part_name);
        let ghost a0 = answer_of(answer);
        let ghost s1 = none.push(a0);
        let ghost g1 = ocr.log();
        proof {
            conducted_on(start, start, g1, plan, none, a0);
        }
        let part = match answer {
            Ok(t) => t,
            Err(e) => {
                let result = Err(ArtifactError::Ocr(e));
                assert(self.decided(s1, nobody, result));
                return result;
            },
        };
        let slot = match match_slot_key(part.as_str()) {
            Some(k) => copy_of(k),
            None => {
                let result = if rarity == 4 || self.go_on {
                    Ok(ArtifactScanResult::Skip)
                } else {
                    Err(ArtifactError::Slot(part))
                };
                assert(self.decided(s1, nobody, result));
                return result;
            },
        };
        let answer = self.ask(ocr, self.regions.main_stat);
        let ghost a1 = answer_of(answer);
        let ghost s2 = s1.push(a1);
        let ghost g2 = ocr.log();
        proof {
            conducted_on(start, g1, g2, plan, s1, a1);
        }
        let main_text = match answer {
            Ok(t) => t,
            Err(e) => {
                let result = Err(ArtifactError::Ocr(e));
                assert(self.decided(s2, nobody, result));
                return result;
            },
        };
        let main = match main_stat_of(slot.as_str(), main_text.as_str()) {
            Some(k) => k,
            None => {
                let result = if self.go_on {
                    Ok(ArtifactScanResult::Skip)
                } else {
                    Err(ArtifactError::MainStat(main_text))
                };
                assert(self.decided(s2, nobody, result));
                return result;
            },
        };
        let answer = self.ask(ocr, self.regions.elixir);
        let ghost a2 = answer_of(answer);
        let ghost s3 = s2.push(a2);
        let ghost g3 = ocr.log();
        proof {
            conducted_on(start, g2, g3, plan, s2, a2);
        }
        let elixir_text = match answer {
            Ok(t) => t,
            Err(e) => {
                let result = Err(ArtifactError::Ocr(e));
                assert(self.decided(s3, nobody, result));
                return result;
            },
        };
        let elixir = has_text(elixir_text.as_str(), "祝圣");
        let y_shift: i32 = if elixir {
            ELIXIR_SHIFT
        } else {
            0
        };
        let r = self.regions.level;
        let level_rect = (r.0, r.1 + y_shift, r.2, r.3);
        let answer = self.ask(ocr, level_rect);
        let ghost a3 = answer_of(answer);
        let ghost s4 = s3.push(a3);
        let ghost g4 = ocr.log();
        proof {
            assert(self.rect_after(s3) == level_rect);
            conducted_on(start, g3, g4, plan, s3, a3);
        }
        let level_text = match answer {
            Ok(t) => t,
            Err(e) => {
                let result = Err(ArtifactError::Ocr(e));
                assert(self.decided(s4, nobody, result));
                return result;
            },
        };
        let r = self.regions.substats;
        let subs_rect = (r.0, r.1 + y_shift, r.2, r.3);
        let answer = self.ask(ocr, subs_rect);
        let ghost a4 = answer_of(answer);
        let ghost s5 = s4.push(a4);
        let ghost g5 = ocr.log();
        proof {
            assert(self.rect_after(s4) == subs_rect);
            conducted_on(start, g4, g5, plan, s4, a4);
        }
        let subs_text = match answer {
            Ok(t) => t,
            Err(e) => {
                let result = Err(ArtifactError::Ocr(e));
                assert(self.decided(s5, nobody, result));
                return result;
            },
        };
        let active = parse_substats(subs_text.as_str(), false);
        let inactive = parse_substats(subs_text.as_str(), true);
        let rect = self.set_row(active.len(), inactive.len(), y_shift);
        let answer = self.ask(ocr, rect);
        let ghost a5 = answer_of(answer);
        let ghost s6 = s5.push(a5);
        let ghost g6 = ocr.log();
        proof {
            assert(self.rect_after(s5) == rect);
            conducted_on(start, g5, g6, plan, s5, a5);
        }
        let set_text = match answer {
            Ok(t) => t,
            Err(e) => {
                let result = Err(ArtifactError::Ocr(e));
                assert(self.decided(s6, nobody, result));
                return result;
            },
        };
        let set = match find_set_key_in_text(set_text.as_str(), &self.mappings.artifact_set_map) {
            Some(k) => k,
            None => {
                let result = if self.go_on {
                    Ok(ArtifactScanResult::Skip)
                } else {
                    let n: i32 = Self::counted(active.len(), inactive.len());
                    Err(ArtifactError::SetName(n as usize, set_text))
                };
                assert(self.decided(s6, nobody, result));
                return result;
            },
        };
        let answer = self.ask(ocr, self.regions.equip);
        let ghost a6 = answer_of(answer);
        let ghost s7 = s6.push(a6);
        proof {
            conducted_on(start, g6, ocr.log(), plan, s6, a6);
        }
        let equip = match answer {
            Ok(t) => t,
            Err(e) => {
                let result = Err(ArtifactError::Ocr(e));
                assert(self.decided(s7, nobody, result));
                return result;
            },
        };
        let location = parse_equip_location(
            equip.as_str(),
            &self.mappings.character_name_map,
        );
        let level: i32 = match parse_level_number(level_text.as_str()) {
            Some(n) => n,
            None => 0,
        };
        let ghost named = Named { set: Some(set@), wearer: location@ };
        let artifact = GoodArtifact {
            set_key: set,
            slot_key: slot,
            level,
            rarity,
            main_stat_key: main,
            substats: active,
            location,
            lock: detect_artifact_lock(self.image, self.scaler, y_shift),
            astral_mark: detect_artifact_astral_mark(self.image, self.scaler, y_shift),
            elixir_crafted: elixir,
            unactivated_substats: inactive,
        };
        assert(self.read(s7, named, artifact));
        let result = Ok(ArtifactScanResult::Artifact(artifact));
        assert(self.decided(s7, named, result));
        result
    }
}

/// What a card is read as fits together: four or five stars, as the picture
/// shows them, and on flowers and plumes the only main stat that they have.
pub proof fn read_cards_are_consistent<'a>(
    card: ArtifactCard<'a>,
    before: Log,
    after: Log,
    a: GoodArtifact,
)
    requires
        card.scanned(
            before,
            after,
            Ok::<ArtifactScanResult, ArtifactError>(ArtifactScanResult::Artifact(a)),
        ),
    ensures
        a.rarity == 4 || a.rarity == 5,
        a.rarity == artifact_stars(*card.image, *card.scaler),
        a.slot_key@ == "flower"@ ==> a.main_stat_key@ == "hp"@,
        a.slot_key@ == "plume"@ ==> a.main_stat_key@ == "atk"@,
{
    let result = Ok::<ArtifactScanResult, ArtifactError>(ArtifactScanResult::Artifact(a));
    let (answers, named) = choose|answers: Seq<Answer>, named: Named|
        #![trigger conducted(before, after, card.plan(), answers), card.decided(answers, named, result)]
        conducted(before, after, card.plan(), answers) && card.decided(answers, named, result);
    assert(card.read(answers, named, a));
    assert("plume"@ != "flower"@) by {
        reveal_strlit("plume");
        reveal_strlit("flower");
        assert("plume"@.len() != "flower"@.len());
    }
}

/// The artifact scanner.
#[derive(Debug)]
pub struct GoodArtifactScanner {
    pub config: GoodArtifactScannerConfig,
    pub ocr_regions: ArtifactOcrRegions,
    /// What was scanned so far.
    pub rows: RowScan,
}

impl GoodArtifactScanner {
    /// A scanner with its settings.
    pub fn new(config: GoodArtifactScannerConfig) -> (s: Self)
        ensures
            s.config == config,
            s.ocr_regions.standard(),
            s.rows@ == (Rows {
                kept: Seq::empty(),
                seen: Seq::empty(),
                row: Seq::empty(),
                pending: Seq::empty(),
                fails: 0,
            }),
    {
        GoodArtifactScanner { config, ocr_regions: ArtifactOcrRegions::new(), rows: RowScan::new() }
    }

    /// An artifact was scanned.
    pub fn scan(&mut self, result: Result<ArtifactScanResult, ArtifactError>) -> (action:
        ScanAction)
        requires
            old(self).rows.fail_count < MAX_FAILURES,
        ensures
            final(self).config == old(self).config,
            final(self).ocr_regions == old(self).ocr_regions,
            final(self).rows@ == old(self).rows@.after(
                result,
                old(self).config.min_rarity as int,
                old(self).config.continue_on_failure,
            ),
            action == if old(self).rows@.ended_by(result, old(self).config.continue_on_failure)
                || final(self).rows.fail_count >= MAX_FAILURES {
                ScanAction::Stop
            } else {
                ScanAction::Continue
            },
    {
        let min_rarity: i32 = self.config.min_rarity;
        let go_on = self.config.continue_on_failure;
        self.rows.item(result, min_rarity, go_on)
    }
}

/// The key of the stat that a text says, where it says one.
pub open spec fn said_key(text: Seq<char>) -> Seq<char> {
    let stat = stat_said(text)->0;
    stat.0
}

/// Flowers have life and plumes have attack; the other slots have the stat that
/// their text says.
pub proof fn flowers_and_plumes_have_one_stat(slot: Seq<char>, text: Seq<char>)
    ensures
        main_key("flower"@, text) == Some("hp"@),
        main_key("plume"@, text) == Some("atk"@),
        slot != "flower"@ && slot != "plume"@ ==> (main_key(slot, text) is Some <==> stat_said(text)
            is Some),
        slot != "flower"@ && slot != "plume"@ && stat_said(text) is Some ==> main_key(slot, text)
            == Some(said_key(text)),
{
    reveal_strlit("flower");
    reveal_strlit("plume");
    assert("plume"@.len() == 5 && "flower"@.len() == 6);
}

/// The effects of a set come after its first mark of two pieces and are no
/// substats; a text without the mark is taken whole.
pub proof fn effects_are_left_out(text: Seq<char>, i: int)
    ensures
        !crate::text::occurs_in(text, "2件套"@) ==> before_effects(text) == text,
        crate::text::first_at(text, "2件套"@, i) ==> before_effects(text) == text.take(i),
{
    if crate::text::first_at(text, "2件套"@, i) {
        assert(crate::text::occurs_at(text, "2件套"@, i));
        let k = choose|k: int| crate::text::first_at(text, "2件套"@, k);
        assert(crate::text::first_at(text, "2件套"@, k));
        assert(0 <= i && 0 <= k);
        if k < i {
            assert(!crate::text::occurs_at(text, "2件套"@, k));
        }
        if i < k {
            assert(!crate::text::occurs_at(text, "2件套"@, i));
        }
    }
}

/// A line that says a stat adds it to the active substats or to the others, as it
/// says; a line of one character or without a stat adds nothing.
pub proof fn lines_add_their_stats(lines: Seq<Seq<char>>, n: nat, inactive: bool)
    requires
        n < lines.len(),
    ensures
        subs_in(lines, inactive, 0).len() == 0,
        byte_len(crate::text::trimmed(lines[n as int])) <= 1 ==> subs_in(lines, inactive, n + 1)
            == subs_in(lines, inactive, n),
        stat_said(crate::text::trimmed(lines[n as int])) is None ==> subs_in(
            lines,
            inactive,
            n + 1,
        ) == subs_in(lines, inactive, n),
        byte_len(crate::text::trimmed(lines[n as int])) >= 2 ==> (stat_said(
            crate::text::trimmed(lines[n as int]),
        ) matches Some(stat) ==> {
            &&& subs_in(lines, stat.2, n + 1) == subs_in(lines, stat.2, n) + seq![
                (stat.0, stat.1 as i64),
            ]
            &&& subs_in(lines, !stat.2, n + 1) == subs_in(lines, !stat.2, n)
        }),
{
    reveal_with_fuel(subs_in, 2);
    match stat_said(crate::text::trimmed(lines[n as int])) {
        Some(stat) => {
            assert(subs_in(lines, stat.2, n).push((stat.0, stat.1 as i64)) =~= subs_in(
                lines,
                stat.2,
                n,
            ) + seq![(stat.0, stat.1 as i64)]);
        },
        None => {},
    }
}

/// A set that was found stands in the whole text or in one of its lines; the lines
/// are tried only where the whole text names none.
pub proof fn sets_stand_in_the_text(
    text: Seq<char>,
    sets: Map<Seq<char>, String>,
    key: Seq<char>,
)
    requires
        set_in(text, sets, Some(key)),
    ensures
        text.len() > 0,
        matched(name_chars(text), sets, Some(key)) || (matched(name_chars(text), sets, None)
            && exists|i: int|
            0 <= i < pieces(text, '\n').len() && matched(
                name_chars(crate::text::trimmed(#[trigger] pieces(text, '\n')[i])),
                sets,
                Some(key),
            )),
{
    if !matched(name_chars(text), sets, Some(key)) {
        lemma_a_line_names_the_set(pieces(text, '\n'), sets, 0, key);
    }
}

proof fn lemma_a_line_names_the_set(
    lines: Seq<Seq<char>>,
    sets: Map<Seq<char>, String>,
    i: int,
    key: Seq<char>,
)
    requires
        0 <= i,
        line_names_set(lines, sets, i, Some(key)),
    ensures
        exists|k: int|
            i <= k < lines.len() && matched(
                name_chars(crate::text::trimmed(#[trigger] lines[k])),
                sets,
                Some(key),
            ),
    decreases lines.len() - i,
{
    let line = crate::text::trimmed(lines[i]);
    if byte_len(line) < 2 || !matched(name_chars(line), sets, Some(key)) {
        lemma_a_line_names_the_set(lines, sets, i + 1, key);
        let k = choose|k: int|
            i + 1 <= k < lines.len() && matched(
                name_chars(crate::text::trimmed(#[trigger] lines[k])),
                sets,
                Some(key),
            );
        assert(i <= k < lines.len());
    }
}

/// The texts of a card stand at fixed places; below the elixir's own all of them
/// are forty lower, and the set stands forty higher for each of the four stats
/// that is not there.
pub proof fn cards_are_read_at_seven_places<'a>(card: ArtifactCard<'a>, answers: Seq<Answer>)
    requires
        card.regions.standard(),
    ensures
        ({
            let rect = card.rect_after(answers);
            let lower = if crate::text::occurs_in(answers[2]->Ok_0, "祝圣"@) {
                40int
            } else {
                0
            };
            let stats = text_subs(answers[4]->Ok_0, false).len() + text_subs(
                answers[4]->Ok_0,
                true,
            ).len();
            &&& answers.len() == 0 ==> rect == (1327i32, 184i32, 235i32, 40i32)
            &&& answers.len() == 1 ==> rect == (1327i32, 264i32, 225i32, 35i32)
            &&& answers.len() == 2 ==> rect == (1360i32, 410i32, 140i32, 26i32)
            &&& answers.len() == 3 ==> rect == (1332i32, (425 + lower) as i32, 70i32, 35i32)
            &&& answers.len() == 4 ==> rect == (1353i32, (475 + lower) as i32, 247i32, 150i32)
            &&& answers.len() == 5 && stats >= 4 ==> rect == (
                1330i32,
                (630 + lower) as i32,
                200i32,
                30i32,
            )
            &&& answers.len() == 5 && 1 <= stats <= 4 ==> rect.1 == 470 + lower + 40 * stats
            &&& answers.len() == 5 && stats == 0 ==> rect.1 == 510 + lower
            &&& answers.len() == 6 ==> rect == (1356i32, 905i32, 420i32, 50i32)
        }),
        card.plan()(answers) == request_for(
            *card.image,
            *card.scaler,
            card.rect_after(answers),
            Treatment::Plain,
        ),
{
}

/// An artifact that was read is what its seven texts and its picture show.
pub proof fn read_artifacts_are_what_the_card_shows<'a>(
    card: ArtifactCard<'a>,
    answers: Seq<Answer>,
    named: Named,
    a: GoodArtifact,
)
    requires
        card.decided(answers, named, Ok(ArtifactScanResult::Artifact(a))),
    ensures
        answers.len() == 7,
        crate::good_common::stat_parser::slot_key(answers[0]->Ok_0) == Some(a.slot_key@),
        a.slot_key@ == "flower"@ ==> a.main_stat_key@ == "hp"@,
        a.slot_key@ == "plume"@ ==> a.main_stat_key@ == "atk"@,
        a.slot_key@ != "flower"@ && a.slot_key@ != "plume"@ ==> stat_said(answers[1]->Ok_0) is Some
            && a.main_stat_key@ == said_key(answers[1]->Ok_0),
        a.elixir_crafted <==> crate::text::occurs_in(answers[2]->Ok_0, "祝圣"@),
        level_number(answers[3]->Ok_0) matches Some(n) ==> a.level == n,
        level_number(answers[3]->Ok_0) is None ==> a.level == 0,
        subs_of(a.substats@) == text_subs(answers[4]->Ok_0, false),
        subs_of(a.unactivated_substats@) == text_subs(answers[4]->Ok_0, true),
        set_in(answers[5]->Ok_0, card.mappings.artifact_set_map@, Some(a.set_key@)),
        wearer(answers[6]->Ok_0, card.mappings.character_name_map@, a.location@),
        a.rarity == artifact_stars(*card.image, *card.scaler),
        !a.elixir_crafted ==> a.lock == dark_at(*card.image, *card.scaler, 1683, 428),
        a.elixir_crafted ==> a.lock == dark_at(*card.image, *card.scaler, 1683, 468),
        !a.elixir_crafted ==> a.astral_mark == dark_at(*card.image, *card.scaler, 1768, 428),
        a.elixir_crafted ==> a.astral_mark == dark_at(*card.image, *card.scaler, 1768, 468),
{
    flowers_and_plumes_have_one_stat(a.slot_key@, answers[1]->Ok_0);
}

/// A card that cannot be read is passed over where the scan is to go on, and so is
/// one of four stars without a slot; else it is a failure that tells its text.
pub proof fn unread_cards_are_passed_over<'a>(
    card: ArtifactCard<'a>,
    answers: Seq<Answer>,
    named: Named,
    result: Result<ArtifactScanResult, ArtifactError>,
)
    requires
        card.decided(answers, named, result),
        answers.len() < 7,
        answers[answers.len() - 1] is Ok,
    ensures
        answers.len() == 1 || answers.len() == 2 || answers.len() == 6,
        card.go_on ==> result is Ok && result->Ok_0 is Skip,
        answers.len() == 1 && artifact_stars(*card.image, *card.scaler) == 4 ==> result is Ok
            && result->Ok_0 is Skip,
        answers.len() == 1 && artifact_stars(*card.image, *card.scaler) != 4 && !card.go_on ==> (
        result matches Err(ArtifactError::Slot(t)) && t@ == answers[0]->Ok_0),
        answers.len() == 2 && !card.go_on ==> (result matches Err(ArtifactError::MainStat(t)) && t@
            == answers[1]->Ok_0),
        answers.len() == 6 && !card.go_on ==> (result matches Err(ArtifactError::SetName(_, t))
            && t@ == answers[5]->Ok_0),
{
}

/// A failure of the engine is the failure of the scan, with its text.
pub proof fn engine_failures_are_told<'a>(
    card: ArtifactCard<'a>,
    answers: Seq<Answer>,
    named: Named,
    result: Result<ArtifactScanResult, ArtifactError>,
)
    requires
        card.decided(answers, named, result),
        answers[answers.len() - 1] is Err,
    ensures
        result matches Err(ArtifactError::Ocr(t)) && t@ == answers[answers.len() - 1]->Err_0,
{
}

/// A card of three stars or fewer ends the scan without being read; no other one
/// does.
pub proof fn common_artifacts_end_the_scan<'a>(
    card: ArtifactCard<'a>,
    before: Log,
    after: Log,
    result: Result<ArtifactScanResult, ArtifactError>,
)
    requires
        card.scanned(before, after, result),
    ensures
        artifact_stars(*card.image, *card.scaler) <= 3 ==> result is Ok && result->Ok_0 is Stop
            && before == after,
        artifact_stars(*card.image, *card.scaler) >= 4 ==> !(result is Ok && result->Ok_0 is Stop),
{
    if artifact_stars(*card.image, *card.scaler) >= 4 {
        let (answers, named) = choose|answers: Seq<Answer>, named: Named|
            #![trigger conducted(before, after, card.plan(), answers), card.decided(answers, named, result)]
            conducted(before, after, card.plan(), answers) && card.decided(answers, named, result);
        assert(card.decided(answers, named, result));
    }
}

} // verus!
