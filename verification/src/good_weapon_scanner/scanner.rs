//! Scanning the weapons of the backpack one after the other.
use crate::good_common::equip_parser::{parse_equip_location, wearer};
use crate::good_common::fuzzy_match::fuzzy_match_map;
use crate::good_common::models::GoodWeapon;
use crate::good_common::navigation::{
    group_i32, group_number, number_of, parse_number_from_text, SLASH_PATTERN,
};
use crate::good_common::pixel_utils::{detect_weapon_rarity, weapon_stars};
use crate::good_common::stat_parser::{ascension, level_to_ascension};
use crate::good_weapon_scanner::config::GoodWeaponScannerConfig;
use crate::image::RgbImage;
use crate::patterns::captures;
use crate::scanner::common::backpack_scanner::ScanAction;
use crate::scanner::common::constants::{WEAPON_LOCK_X1, WEAPON_LOCK_Y1};
use crate::scanner::common::coord_scaler::CoordScaler;
use crate::scanner::common::fuzzy_match::{matched, name_chars};
use crate::scanner::common::mappings::MappingManager;
use crate::scanner::common::ocr::{
    answer_of, conducted, conducted_on, read_region, request_for, Answer, BaseRect, ImageToText,
    Log, OcrRequest, Treatment,
};
use crate::scanner::common::pixel_utils::{dark_at, detect_weapon_lock};
use crate::scanner::weapon::scanner::{
    is_stop_name, parse_refinement, refinement_in, stops_at, WeaponError, WeaponScanResult,
    LV_PATTERN,
};
use vstd::prelude::*;

verus! {

/// A number rounded to a multiple of ten.
pub open spec fn to_tens(n: int) -> int {
    if n >= 0 {
        (n + 5) / 10 * 10
    } else {
        -((5 - n) / 10 * 10)
    }
}

fn round_to_tens(n: i32) -> (out: i64)
    ensures
        out == to_tens(n as int),
{
    let wide: i64 = n as i64;
    if wide >= 0 {
        (wide + 5) / 10 * 10
    } else {
        -((5 - wide) / 10 * 10)
    }
}

/// The level in a text, and whether the weapon was ascended beyond it.
pub open spec fn weapon_level(text: Seq<char>) -> (int, bool) {
    if text.len() == 0 {
        (1, false)
    } else {
        match crate::patterns::first_match(SLASH_PATTERN@, text) {
            Some(groups) => {
                let level = group_number(groups, 1, 1);
                (level, level >= 20 && level < to_tens(group_number(groups, 2, 20)))
            },
            None => match crate::patterns::first_match(LV_PATTERN@, text) {
                Some(groups) => (group_number(groups, 1, 1), false),
                None => (
                    if number_of(text) > 0 {
                        number_of(text)
                    } else {
                        1
                    },
                    false,
                ),
            },
        }
    }
}

/// The level in a text, and whether the weapon was ascended beyond it.
pub fn parse_weapon_level(text: &str) -> (r: (i32, bool))
    ensures
        (r.0 as int, r.1) == weapon_level(text@),
{
    if text.is_empty() {
        return (1, false);
    }
    match captures(SLASH_PATTERN, text) {
        Some(groups) => {
            let level: i32 = group_i32(&groups, 1, 1);
            let max: i64 = round_to_tens(group_i32(&groups, 2, 20));
            return (level, level >= 20 && (level as i64) < max);
        },
        None => {},
    }
    match captures(LV_PATTERN, text) {
        Some(groups) => {
            return (group_i32(&groups, 1, 1), false);
        },
        None => {},
    }
    let level: i32 = parse_number_from_text(text);
    (
        if level > 0 {
            level
        } else {
            1
        },
        false,
    )
}

/// Where the texts of a weapon card are, at the base resolution.
#[derive(Debug, Clone, Copy)]
pub struct WeaponOcrRegions {
    pub name: BaseRect,
    pub level: BaseRect,
    pub refinement: BaseRect,
    pub equip: BaseRect,
}

impl WeaponOcrRegions {
    /// The rectangles of the card.
    pub open spec fn standard(&self) -> bool {
        &&& self.name == (1307i32, 119i32, 494i32, 59i32)
        &&& self.level == (1337i32, 428i32, 129i32, 29i32)
        &&& self.refinement == (1336i32, 470i32, 124i32, 32i32)
        &&& self.equip == (1356i32, 905i32, 420i32, 50i32)
    }

    /// The rectangles of the card.
    pub fn new() -> (r: Self)
        ensures
            r.standard(),
    {
        WeaponOcrRegions {
            name: (1307, 119, 494, 59),
            level: (1337, 428, 129, 29),
            refinement: (1336, 470, 124, 32),
            equip: (1356, 905, 420, 50),
        }
    }
}

/// A card: what is known of a weapon without its texts.
pub struct WeaponCard<'a> {
    pub image: &'a RgbImage,
    pub scaler: &'a CoordScaler,
    pub regions: &'a WeaponOcrRegions,
    pub mappings: &'a MappingManager,
    pub stop_names: &'a Vec<String>,
    pub go_on: bool,
}

impl<'a> WeaponCard<'a> {
    /// What the engine is asked after so many answers.
    pub open spec fn plan(&self) -> spec_fn(Seq<Answer>) -> OcrRequest {
        |answers: Seq<Answer>|
            request_for(
                *self.image,
                *self.scaler,
                if answers.len() == 0 {
                    self.regions.name
                } else if answers.len() == 1 {
                    self.regions.level
                } else if answers.len() == 2 {
                    self.regions.refinement
                } else {
                    self.regions.equip
                },
                Treatment::Plain,
            )
    }

    /// What follows from the answers: the first error ends the scan, and so does
    /// a name that is no weapon's.
    pub open spec fn decided(
        &self,
        answers: Seq<Answer>,
        key: Option<Seq<char>>,
        result: Result<WeaponScanResult, WeaponError>,
    ) -> bool {
        let n = answers.len() as int;
        &&& 1 <= n <= 4
        &&& forall|i: int| 0 <= i < n - 1 ==> #[trigger] answers[i] is Ok
        &&& match answers[n - 1] {
            Err(e) => result matches Err(WeaponError::Ocr(t)) && t@ == e,
            Ok(last) => if n == 1 {
                &&& key is None
                &&& matched(name_chars(last), self.mappings.weapon_name_map@, key)
                &&& if stops_at(last, self.stop_names@) || weapon_stars(*self.image, *self.scaler)
                    <= 2 {
                    result is Ok && result->Ok_0 is Stop
                } else if self.go_on {
                    result is Ok && result->Ok_0 is Skip
                } else {
                    result matches Err(WeaponError::Name(t)) && t@ == last
                }
            } else {
                &&& n == 4
                &&& key is Some
                &&& result matches Ok(WeaponScanResult::Weapon(w)) && self.read(
                    answers,
                    key->0,
                    w,
                )
            },
        }
        &&& n > 1 ==> key is Some && matched(
            name_chars(answers[0]->Ok_0),
            self.mappings.weapon_name_map@,
            key,
        )
    }

    /// The weapon of four texts.
    pub open spec fn read(&self, answers: Seq<Answer>, key: Seq<char>, w: GoodWeapon) -> bool {
        let (level, ascended) = weapon_level(answers[1]->Ok_0);
        &&& w.key@ == key
        &&& w.level == level
        &&& w.ascension == ascension(level, ascended)
        &&& w.refinement == refinement_in(answers[2]->Ok_0)
        &&& w.rarity == weapon_stars(*self.image, *self.scaler)
        &&& wearer(answers[3]->Ok_0, self.mappings.character_name_map@, w.location@)
        &&& w.lock == dark_at(
            *self.image,
            *self.scaler,
            WEAPON_LOCK_X1 as int,
            WEAPON_LOCK_Y1 as int,
        )
    }

    /// The whole scan: what the engine was asked and what came of its answers.
    pub open spec fn scanned(
        &self,
        before: Log,
        after: Log,
        result: Result<WeaponScanResult, WeaponError>,
    ) -> bool {
        exists|answers: Seq<Answer>, key: Option<Seq<char>>|
            #![trigger conducted(before, after, self.plan(), answers), self.decided(answers, key, result)]
            conducted(before, after, self.plan(), answers) && self.decided(answers, key, result)
    }

    fn ask<O: ImageToText>(&self, ocr: &mut O, rect: BaseRect) -> (answer: Result<String, String>)
        ensures
            crate::scanner::common::ocr::asked(
                old(ocr).log(),
                final(ocr).log(),
                request_for(*self.image, *self.scaler, rect, Treatment::Plain),
                answer_of(answer),
            ),
    {
        read_region(ocr, self.image, self.scaler, rect, Treatment::Plain)
    }

    /// Scans one weapon.
    pub fn scan_single_weapon<O: ImageToText>(&self, ocr: &mut O) -> (result: Result<
        WeaponScanResult,
        WeaponError,
    >)
        ensures
            self.scanned(old(ocr).log(), final(ocr).log(), result),
    {
        let ghost start = ocr.log();
        let ghost plan = self.plan();
        let ghost none = Seq::<Answer>::empty();
        assert(conducted(start, start, plan, none));
        let answer = self.ask(ocr, self.regions.name);
        let ghost a0 = answer_of(answer);
        let ghost one = none.push(a0);
        let ghost g1 = ocr.log();
        proof {
            conducted_on(start, start, g1, plan, none, a0);
        }
        let name = match answer {
            Ok(t) => t,
            Err(e) => {
                let result = Err(WeaponError::Ocr(e));
                assert(self.decided(one, None, result));
                return result;
            },
        };
        let found = fuzzy_match_map(name.as_str(), &self.mappings.weapon_name_map);
        let ghost k = crate::text::text_of(found);
        let key = match found {
            Some(key) => key,
            None => {
                let result = if is_stop_name(name.as_str(), self.stop_names)
                    || detect_weapon_rarity(self.image, self.scaler) <= 2 {
                    Ok(WeaponScanResult::Stop)
                } else if self.go_on {
                    Ok(WeaponScanResult::Skip)
                } else {
                    Err(WeaponError::Name(name))
                };
                assert(self.decided(one, k, result));
                return result;
            },
        };
        let answer = self.ask(ocr, self.regions.level);
        let ghost a1 = answer_of(answer);
        let ghost two = one.push(a1);
        let ghost g2 = ocr.log();
        proof {
            conducted_on(start, g1, g2, plan, one, a1);
        }
        let level_text = match answer {
            Ok(t) => t,
            Err(e) => {
                let result = Err(WeaponError::Ocr(e));
                assert(self.decided(two, k, result));
                return result;
            },
        };
        let answer = self.ask(ocr, self.regions.refinement);
        let ghost a2 = answer_of(answer);
        let ghost three = two.push(a2);
        let ghost g3 = ocr.log();
        proof {
            conducted_on(start, g2, g3, plan, two, a2);
        }
        let rank_text = match answer {
            Ok(t) => t,
            Err(e) => {
                let result = Err(WeaponError::Ocr(e));
                assert(self.decided(three, k, result));
                return result;
            },
        };
        let answer = self.ask(ocr, self.regions.equip);
        let ghost a3 = answer_of(answer);
        let ghost four = three.push(a3);
        proof {
            conducted_on(start, g3, ocr.log(), plan, three, a3);
        }
        let equip = match answer {
            Ok(t) => t,
            Err(e) => {
                let result = Err(WeaponError::Ocr(e));
                assert(self.decided(four, k, result));
                return result;
            },
        };
        let (level, ascended) = parse_weapon_level(level_text.as_str());
        let location = parse_equip_location(
            equip.as_str(),
            &self.mappings.character_name_map,
        );
        let result = Ok(
            WeaponScanResult::Weapon(
                GoodWeapon {
                    key,
                    level,
                    ascension: level_to_ascension(level, ascended),
                    refinement: parse_refinement(rank_text.as_str()),
                    rarity: detect_weapon_rarity(self.image, self.scaler),
                    location,
                    lock: detect_weapon_lock(self.image, self.scaler),
                },
            ),
        );
        assert(self.decided(four, k, result));
        result
    }
}

/// The weapons that are kept after a scan: one that was read is added from the
/// lowest rarity on.
pub open spec fn kept_weapons(
    kept: Seq<GoodWeapon>,
    result: Result<WeaponScanResult, WeaponError>,
    min_rarity: int,
) -> Seq<GoodWeapon> {
    match result {
        Ok(WeaponScanResult::Weapon(w)) => if w.rarity >= min_rarity {
            kept.push(w)
        } else {
            kept
        },
        _ => kept,
    }
}

/// What follows from a scan.
pub open spec fn weapon_action(
    result: Result<WeaponScanResult, WeaponError>,
    go_on: bool,
) -> ScanAction {
    match result {
        Ok(WeaponScanResult::Stop) => ScanAction::Stop,
        Err(_) => if go_on {
            ScanAction::Continue
        } else {
            ScanAction::Stop
        },
        _ => ScanAction::Continue,
    }
}

/// The weapon scanner.
#[derive(Debug)]
pub struct GoodWeaponScanner {
    pub config: GoodWeaponScannerConfig,
    pub ocr_regions: WeaponOcrRegions,
    /// Names of weapons at which a scan stops.
    pub stop_names: Vec<String>,
    /// The weapons that were kept.
    pub weapons: Vec<GoodWeapon>,
}

impl GoodWeaponScanner {
    /// A scanner with its settings.
    pub fn new(config: GoodWeaponScannerConfig, stop_names: Vec<String>) -> (s: Self)
        ensures
            s.config == config,
            s.ocr_regions.standard(),
            s.stop_names == stop_names,
            s.weapons@.len() == 0,
    {
        GoodWeaponScanner {
            config,
            ocr_regions: WeaponOcrRegions::new(),
            stop_names,
            weapons: Vec::new(),
        }
    }

    /// A weapon was scanned: it is kept from the lowest rarity on, and the scan
    /// stops where it can, or at a failure that it does not go on after.
    pub fn scan(&mut self, result: Result<WeaponScanResult, WeaponError>) -> (action: ScanAction)
        ensures
            final(self).config == old(self).config,
            final(self).ocr_regions == old(self).ocr_regions,
            final(self).stop_names == old(self).stop_names,
            final(self).weapons@ == kept_weapons(
                old(self).weapons@,
                result,
                old(self).config.min_rarity as int,
            ),
            action == weapon_action(result, old(self).config.continue_on_failure),
    {
        match result {
            Ok(WeaponScanResult::Weapon(w)) => {
                if w.rarity >= self.config.min_rarity {
                    self.weapons.push(w);
                }
                ScanAction::Continue
            },
            Ok(WeaponScanResult::Stop) => ScanAction::Stop,
            Ok(WeaponScanResult::Skip) => ScanAction::Continue,
            Err(_) => if self.config.continue_on_failure {
                ScanAction::Continue
            } else {
                ScanAction::Stop
            },
        }
    }
}

/// A number is brought to the nearest multiple of ten, and from the middle between
/// two of them away from zero.
pub proof fn tens_are_the_nearest(n: int)
    ensures
        to_tens(n) % 10 == 0,
        -5 <= to_tens(n) - n <= 5,
        n % 10 == 5 && n >= 0 ==> to_tens(n) == n + 5,
        n % 10 == 5 && n < 0 ==> to_tens(n) == n - 5,
{
}

/// Where a text holds two numbers with a slash between them, the first is the
/// level, and the weapon has ascended where it has reached level 20 and stands
/// below the second, brought to tens.
pub proof fn plain_levels_stand_before_the_slash(
    text: Seq<char>,
    groups: Seq<Option<Seq<char>>>,
    level: int,
    cap: int,
)
    requires
        text.len() > 0,
        crate::patterns::first_match("(\\d+)\\s*/\\s*(\\d+)"@, text) == Some(groups),
        groups.len() > 2,
        groups[1] is Some,
        groups[2] is Some,
        crate::number::i32_of(groups[1]->0) == Some(level),
        crate::number::i32_of(groups[2]->0) == Some(cap),
    ensures
        weapon_level(text).0 == level,
        level < 20 ==> !weapon_level(text).1,
        level >= 20 && level + 5 < cap ==> weapon_level(text).1,
        level > cap + 5 ==> !weapon_level(text).1,
        level >= 20 && cap >= 0 && cap % 10 == 0 ==> (weapon_level(text).1 <==> level < cap),
{
    tens_are_the_nearest(cap);
}

/// Without a slash the level stands behind its mark or is the first number, and a
/// text without a number says level one; none of them says that the weapon has
/// ascended.
pub proof fn plain_levels_without_a_slash(
    text: Seq<char>,
    groups: Seq<Option<Seq<char>>>,
    level: int,
)
    requires
        crate::patterns::first_match("(\\d+)\\s*/\\s*(\\d+)"@, text) is None,
        groups.len() > 1,
        groups[1] is Some,
        crate::number::i32_of(groups[1]->0) == Some(level),
    ensures
        !weapon_level(text).1,
        text.len() == 0 ==> weapon_level(text).0 == 1,
        text.len() > 0 && crate::patterns::first_match("(?i)[Ll][Vv]\\.?\\s*(\\d+)"@, text) == Some(
            groups,
        ) ==> weapon_level(text).0 == level,
        text.len() > 0 && crate::patterns::first_match("(?i)[Ll][Vv]\\.?\\s*(\\d+)"@, text) is None
            && crate::patterns::first_match("(\\d+)"@, text) == Some(groups) && level > 0
            ==> weapon_level(text).0 == level,
        crate::patterns::first_match("(?i)[Ll][Vv]\\.?\\s*(\\d+)"@, text) is None
            && crate::patterns::first_match("(\\d+)"@, text) is None ==> weapon_level(text).0 == 1,
{
}

/// A weapon that was read has the key of its name and the level, refinement and
/// wearer that its four texts say, the stars of the picture, the phase of its
/// level, and the lock of its place.
pub proof fn read_weapons_are_what_the_card_shows<'a>(
    card: WeaponCard<'a>,
    answers: Seq<Answer>,
    key: Option<Seq<char>>,
    w: GoodWeapon,
)
    requires
        card.decided(answers, key, Ok(WeaponScanResult::Weapon(w))),
    ensures
        answers.len() == 4,
        matched(name_chars(answers[0]->Ok_0), card.mappings.weapon_name_map@, Some(w.key@)),
        w.level == weapon_level(answers[1]->Ok_0).0,
        w.ascension == crate::good_common::stat_laws::limits_passed(w.level as int) + if weapon_level(
            answers[1]->Ok_0,
        ).1 && (w.level == 20 || w.level == 40 || w.level == 50 || w.level == 60 || w.level == 70
            || w.level == 80) {
            1int
        } else {
            0int
        },
        w.refinement == refinement_in(answers[2]->Ok_0),
        w.rarity == weapon_stars(*card.image, *card.scaler),
        wearer(answers[3]->Ok_0, card.mappings.character_name_map@, w.location@),
        w.lock == dark_at(*card.image, *card.scaler, 1768, 428),
{
    crate::good_common::stat_laws::phases_count_limits(w.level as int);
}

/// A text that names no weapon ends the scan where it has one of the names for
/// that, and where the weapon has two stars or fewer; else it is passed over, or
/// is a failure.
pub proof fn unnamed_weapons_stop_or_are_passed_over<'a>(
    card: WeaponCard<'a>,
    answers: Seq<Answer>,
    key: Option<Seq<char>>,
    result: Result<WeaponScanResult, WeaponError>,
)
    requires
        card.decided(answers, key, result),
        answers[0] is Ok,
        key is None,
    ensures
        answers.len() == 1,
        stops_at(answers[0]->Ok_0, card.stop_names@) ==> result is Ok && result->Ok_0 is Stop,
        weapon_stars(*card.image, *card.scaler) <= 2 ==> result is Ok && result->Ok_0 is Stop,
        !stops_at(answers[0]->Ok_0, card.stop_names@) && weapon_stars(*card.image, *card.scaler)
            >= 3 && card.go_on ==> result is Ok && result->Ok_0 is Skip,
        !stops_at(answers[0]->Ok_0, card.stop_names@) && weapon_stars(*card.image, *card.scaler)
            >= 3 && !card.go_on ==> (result matches Err(WeaponError::Name(t)) && t@
            == answers[0]->Ok_0),
{
}

/// The four texts of a weapon are read at fixed places, as they are.
pub proof fn weapons_are_read_at_four_places<'a>(card: WeaponCard<'a>, answers: Seq<Answer>)
    requires
        card.regions.standard(),
        answers.len() < 4,
    ensures
        card.plan()(answers) == request_for(
            *card.image,
            *card.scaler,
            if answers.len() == 0 {
                (1307i32, 119i32, 494i32, 59i32)
            } else if answers.len() == 1 {
                (1337i32, 428i32, 129i32, 29i32)
            } else if answers.len() == 2 {
                (1336i32, 470i32, 124i32, 32i32)
            } else {
                (1356i32, 905i32, 420i32, 50i32)
            },
            Treatment::Plain,
        ),
{
}

/// Weapons are kept in their order, those below the lowest rarity are not; a stop
/// ends the scan, and so does a failure unless it is to go on.
pub proof fn rare_weapons_are_kept(
    kept: Seq<GoodWeapon>,
    w: GoodWeapon,
    e: WeaponError,
    min_rarity: int,
    go_on: bool,
)
    ensures
        w.rarity >= min_rarity ==> kept_weapons(
            kept,
            Ok(WeaponScanResult::Weapon(w)),
            min_rarity,
        ) == kept + seq![w],
        w.rarity < min_rarity ==> kept_weapons(kept, Ok(WeaponScanResult::Weapon(w)), min_rarity)
            == kept,
        kept_weapons(kept, Ok(WeaponScanResult::Skip), min_rarity) == kept,
        kept_weapons(kept, Ok(WeaponScanResult::Stop), min_rarity) == kept,
        kept_weapons(kept, Err(e), min_rarity) == kept,
        weapon_action(Ok(WeaponScanResult::Weapon(w)), go_on) is Continue,
        weapon_action(Ok(WeaponScanResult::Skip), go_on) is Continue,
        weapon_action(Ok(WeaponScanResult::Stop), go_on) is Stop,
        weapon_action(Err(e), true) is Continue,
        weapon_action(Err(e), false) is Stop,
{
    assert(kept.push(w) =~= kept + seq![w]);
}

} // verus!
