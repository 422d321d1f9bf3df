//! Scanning one weapon.
use crate::good_common::models::GoodWeapon;
use crate::good_common::navigation::{group_i32, group_number, SLASH_PATTERN};
use crate::good_common::stat_parser::{ascension, level_to_ascension};
use crate::image::RgbImage;
use crate::number::parse_i32;
use crate::patterns::captures;
use crate::scanner::common::backpack_scanner::ScanAction;
use crate::scanner::common::constants::{WEAPON_LOCK_X1, WEAPON_LOCK_Y1};
use crate::scanner::common::coord_scaler::CoordScaler;
use crate::scanner::common::equip_parser::{parse_equip_location, wearer};
use crate::scanner::common::fuzzy_match::{cleaned, fuzzy_match_map, matched};
use crate::scanner::common::level_text::{
    digits_of, keep_digits, nearest_cap, snap_to_cap, split_digits, split_noisy, try_split_digits,
    try_split_noisy,
};
use crate::scanner::common::mappings::MappingManager;
use crate::scanner::common::ocr::{
    answer_of, asked, read_region, request_for, Answer, BaseRect, ImageToText, Log, Treatment,
};
use crate::scanner::common::pixel_utils::{
    dark_at, detect_weapon_lock, detect_weapon_rarity, weapon_rarity,
};
use crate::scanner::common::scan_session::{capped_total, items_to_scan, WorkItem};
use crate::scanner::common::scan_worker::Outcome;
use crate::scanner::weapon::config::GoodWeaponScannerConfig;
use crate::text::has_text;
use vstd::prelude::*;

verus! {

/// The level of a weapon behind the letters for it.
pub const LV_PATTERN: &'static str = "(?i)[Ll][Vv]\\.?\\s*(\\d+)";

/// The refinement behind the Chinese word for it.
pub const REFINEMENT_PATTERN: &'static str = "精炼\\s*(\\d)";

/// The refinement behind the letter for it.
pub const RANK_PATTERN: &'static str = "(?i)[Rr](\\d)";

/// A digit.
pub const DIGIT_PATTERN: &'static str = "(\\d)";

/// The highest level of a weapon.
pub const TOP_LEVEL: i32 = 90;

/// The level caps of weapons.
pub open spec fn weapon_caps() -> Seq<i32> {
    seq![20i32, 40, 50, 60, 70, 80, 90]
}

/// The level cap that is nearest to a number.
pub fn snap_max_level(raw: i32) -> (cap: i32)
    ensures
        cap == nearest_cap(weapon_caps(), raw as int),
{
    let caps: [i32; 7] = [20, 40, 50, 60, 70, 80, 90];
    assert(caps@ =~= weapon_caps());
    snap_to_cap(&caps, raw)
}

/// A level, and whether the weapon was ascended beyond it: from level 20 on it
/// was where the cap is higher.
pub open spec fn level_under(level: int, max: int) -> (int, bool) {
    (level, level >= 20 && level < nearest_cap(weapon_caps(), max))
}

fn under_cap(level: i32, max: i32) -> (r: (i32, bool))
    ensures
        (r.0 as int, r.1) == level_under(level as int, max as int),
{
    (level, level >= 20 && level < snap_max_level(max))
}

/// The level in a text without a slash between level and cap.
pub open spec fn level_in_digits(text: Seq<char>) -> (int, bool) {
    let digits = digits_of(text);
    if digits.len() == 0 {
        (1, false)
    } else {
        match split_digits(digits, TOP_LEVEL as int) {
            Some((level, max)) => level_under(level, max),
            None => match split_noisy(digits, TOP_LEVEL as int) {
                Some((level, max)) => level_under(level, max),
                None => match crate::patterns::first_match(LV_PATTERN@, text) {
                    Some(groups) => (group_number(groups, 1, 1), false),
                    None => match crate::number::i32_of(digits) {
                        Some(n) => if 1 <= n <= TOP_LEVEL {
                            (n, false)
                        } else {
                            (1, false)
                        },
                        None => (1, false),
                    },
                },
            },
        }
    }
}

/// The level in a text, and whether the weapon was ascended beyond it.
pub open spec fn weapon_level(text: Seq<char>) -> (int, bool) {
    if text.len() == 0 {
        (1, false)
    } else {
        match crate::patterns::first_match(SLASH_PATTERN@, text) {
            Some(groups) => level_under(group_number(groups, 1, 1), group_number(groups, 2, 20)),
            None => level_in_digits(text),
        }
    }
}

fn parse_level_digits(text: &str) -> (r: (i32, bool))
    ensures
        (r.0 as int, r.1) == level_in_digits(text@),
{
    let digits = keep_digits(text);
    if digits.len() == 0 {
        return (1, false);
    }
    match try_split_digits(&digits, TOP_LEVEL) {
        Some((level, max)) => {
            return under_cap(level, max);
        },
        None => {},
    }
    match try_split_noisy(&digits, TOP_LEVEL) {
        Some((level, max)) => {
            return under_cap(level, max);
        },
        None => {},
    }
    match captures(LV_PATTERN, text) {
        Some(groups) => {
            return (group_i32(&groups, 1, 1), false);
        },
        None => {},
    }
    match parse_i32(&digits) {
        Some(n) => if 1 <= n && n <= TOP_LEVEL {
            (n, false)
        } else {
            (1, false)
        },
        None => (1, false),
    }
}

/// The level in a text, and whether the weapon was ascended beyond it.
pub fn parse_weapon_level(text: &str) -> (r: (i32, bool))
    ensures
        (r.0 as int, r.1) == weapon_level(text@),
{
    if text.is_empty() {
        return (1, false);
    }
    match captures(SLASH_PATTERN, text) {
        Some(groups) => under_cap(group_i32(&groups, 1, 1), group_i32(&groups, 2, 20)),
        None => parse_level_digits(text),
    }
}

/// The refinement in a text: behind its word, behind its letter, or a digit up
/// to five; one where there is none.
pub open spec fn refinement_in(text: Seq<char>) -> int {
    if text.len() == 0 {
        1
    } else {
        match crate::patterns::first_match(REFINEMENT_PATTERN@, text) {
            Some(groups) => group_number(groups, 1, 1),
            None => match crate::patterns::first_match(RANK_PATTERN@, text) {
                Some(groups) => group_number(groups, 1, 1),
                None => match crate::patterns::first_match(DIGIT_PATTERN@, text) {
                    Some(groups) => {
                        let d = group_number(groups, 1, 0);
                        if 1 <= d <= 5 {
                            d
                        } else {
                            1
                        }
                    },
                    None => 1,
                },
            },
        }
    }
}

/// The refinement in a text.
pub fn parse_refinement(text: &str) -> (rank: i32)
    ensures
        rank == refinement_in(text@),
{
    if text.is_empty() {
        return 1;
    }
    match captures(REFINEMENT_PATTERN, text) {
        Some(groups) => {
            return group_i32(&groups, 1, 1);
        },
        None => {},
    }
    match captures(RANK_PATTERN, text) {
        Some(groups) => {
            return group_i32(&groups, 1, 1);
        },
        None => {},
    }
    match captures(DIGIT_PATTERN, text) {
        Some(groups) => {
            let d: i32 = group_i32(&groups, 1, 0);
            if 1 <= d && d <= 5 {
                d
            } else {
                1
            }
        },
        None => 1,
    }
}

/// The ores behind the weapons.
pub open spec fn forging_names() -> Seq<Seq<char>> {
    seq!["精锻用魔矿"@, "精锻用良矿"@, "精锻用杂矿"@]
}

/// The text has one of the names at which a scan stops.
pub open spec fn stops_at(text: Seq<char>, stop_names: Seq<String>) -> bool {
    ||| exists|i: int|
        0 <= i < stop_names.len() && crate::text::occurs_in(text, (#[trigger] stop_names[i])@)
    ||| exists|i: int| 0 <= i < 3 && crate::text::occurs_in(text, #[trigger] forging_names()[i])
}

/// Whether the text has one of the names at which a scan stops.
pub fn is_stop_name(text: &str, stop_names: &Vec<String>) -> (yes: bool)
    ensures
        yes == stops_at(text@, stop_names@),
{
    let mut i: usize = 0;
    while i < stop_names.len()
        invariant
            i <= stop_names@.len(),
            forall|k: int|
                0 <= k < i ==> !crate::text::occurs_in(text@, (#[trigger] stop_names@[k])@),
        decreases stop_names@.len() - i,
    {
        if has_text(text, stop_names[i].as_str()) {
            return true;
        }
        i = i + 1;
    }
    let a = has_text(text, "精锻用魔矿");
    let b = has_text(text, "精锻用良矿");
    let c = has_text(text, "精锻用杂矿");
    proof {
        let names = forging_names();
        assert(names[0] == "精锻用魔矿"@ && names[1] == "精锻用良矿"@ && names[2]
            == "精锻用杂矿"@);
        if a {
            assert(crate::text::occurs_in(text@, names[0]));
        }
        if b {
            assert(crate::text::occurs_in(text@, names[1]));
        }
        if c {
            assert(crate::text::occurs_in(text@, names[2]));
        }
    }
    a || b || c
}

/// Where the texts of a weapon card are, at the base resolution.
#[derive(Debug, Clone, Copy)]
pub struct WeaponOcrRegions {
    pub name: BaseRect,
    pub level: BaseRect,
    pub refinement: BaseRect,
    pub equip: BaseRect,
}

impl WeaponOcrRegions {
    /// The rectangles of the card.
    pub open spec fn standard(&self) -> bool {
        &&& self.name == (1337i32, 121i32, 434i32, 55i32)
        &&& self.level == (1337i32, 428i32, 134i32, 29i32)
        &&& self.refinement == (1336i32, 470i32, 148i32, 32i32)
        &&& self.equip == (1386i32, 905i32, 315i32, 50i32)
    }

    /// The rectangles of the card.
    pub fn new() -> (r: Self)
        ensures
            r.standard(),
    {
        WeaponOcrRegions {
            name: (1337, 121, 434, 55),
            level: (1337, 428, 134, 29),
            refinement: (1336, 470, 148, 32),
            equip: (1386, 905, 315, 50),
        }
    }
}

/// What came of scanning one weapon.
#[derive(Debug)]
pub enum WeaponScanResult {
    Weapon(GoodWeapon),
    /// The scan can stop here.
    Stop,
    /// The weapon is left out.
    Skip,
}

/// Why a weapon could not be scanned.
#[derive(Debug)]
pub enum WeaponError {
    /// The text for the name names none.
    Name(String),
    /// The engine gave an error.
    Ocr(String),
}

/// The engine gave this error.
pub open spec fn weapon_ocr_failed(
    result: Result<WeaponScanResult, WeaponError>,
    e: Seq<char>,
) -> bool {
    match result {
        Err(WeaponError::Ocr(t)) => t@ == e,
        _ => false,
    }
}

/// No weapon has the name: the scan stops at a known name or an item of at most
/// two stars, else the item is left out, or the scan fails.
pub open spec fn weapon_unknown(
    image: RgbImage,
    scaler: CoordScaler,
    stop_names: Seq<String>,
    go_on: bool,
    text: Seq<char>,
    result: Result<WeaponScanResult, WeaponError>,
) -> bool {
    if stops_at(text, stop_names) || weapon_rarity(image, scaler) <= 2 {
        result is Ok && result->Ok_0 is Stop
    } else if go_on {
        result is Ok && result->Ok_0 is Skip
    } else {
        match result {
            Err(WeaponError::Name(t)) => t@ == text,
            _ => false,
        }
    }
}

/// The weapon of a card.
pub open spec fn weapon_is(
    image: RgbImage,
    scaler: CoordScaler,
    key: Seq<char>,
    level: Seq<char>,
    refinement: Seq<char>,
    location: Seq<char>,
    w: GoodWeapon,
) -> bool {
    let (lv, ascended) = weapon_level(level);
    &&& w.key@ == key
    &&& w.level == lv
    &&& w.ascension == ascension(lv, ascended)
    &&& w.refinement == refinement_in(refinement)
    &&& w.rarity == weapon_rarity(image, scaler)
    &&& w.location@ == location
    &&& w.lock == dark_at(image, scaler, WEAPON_LOCK_X1 as int, WEAPON_LOCK_Y1 as int)
}

/// The three steps of a scan behind the name: level, refinement and wearer.
pub open spec fn weapon_read(
    before: Log,
    after: Log,
    image: RgbImage,
    scaler: CoordScaler,
    regions: WeaponOcrRegions,
    names: Map<Seq<char>, String>,
    key: Seq<char>,
    result: Result<WeaponScanResult, WeaponError>,
) -> bool {
    exists|a: Log, level: Answer|
        {
            &&& #[trigger] asked(
                before,
                a,
                request_for(image, scaler, regions.level, Treatment::Plain),
                level,
            )
            &&& match level {
                Err(e) => a == after && weapon_ocr_failed(result, e),
                Ok(lv) => weapon_read_refinement(
                    a,
                    after,
                    image,
                    scaler,
                    regions,
                    names,
                    key,
                    lv,
                    result,
                ),
            }
        }
}

/// The steps from the refinement on.
pub open spec fn weapon_read_refinement(
    before: Log,
    after: Log,
    image: RgbImage,
    scaler: CoordScaler,
    regions: WeaponOcrRegions,
    names: Map<Seq<char>, String>,
    key: Seq<char>,
    level: Seq<char>,
    result: Result<WeaponScanResult, WeaponError>,
) -> bool {
    exists|a: Log, rank: Answer|
        {
            &&& #[trigger] asked(
                before,
                a,
                request_for(image, scaler, regions.refinement, Treatment::Plain),
                rank,
            )
            &&& match rank {
                Err(e) => a == after && weapon_ocr_failed(result, e),
                Ok(r) => weapon_read_wearer(
                    a,
                    after,
                    image,
                    scaler,
                    regions,
                    names,
                    key,
                    level,
                    r,
                    result,
                ),
            }
        }
}

/// The last step.
pub open spec fn weapon_read_wearer(
    before: Log,
    after: Log,
    image: RgbImage,
    scaler: CoordScaler,
    regions: WeaponOcrRegions,
    names: Map<Seq<char>, String>,
    key: Seq<char>,
    level: Seq<char>,
    refinement: Seq<char>,
    result: Result<WeaponScanResult, WeaponError>,
) -> bool {
    exists|equip: Answer|
        {
            &&& #[trigger] asked(
                before,
                after,
                request_for(image, scaler, regions.equip, Treatment::Plain),
                equip,
            )
            &&& match equip {
                Err(e) => weapon_ocr_failed(result, e),
                Ok(t) => match result {
                    Ok(WeaponScanResult::Weapon(w)) => wearer(t, names, w.location@) && weapon_is(
                        image,
                        scaler,
                        key,
                        level,
                        refinement,
                        w.location@,
                        w,
                    ),
                    _ => false,
                },
            }
        }
}

/// The whole scan of a weapon card: what the engine was asked, in which order,
/// and what came of its answers.
pub open spec fn weapon_scanned(
    before: Log,
    after: Log,
    image: RgbImage,
    scaler: CoordScaler,
    regions: WeaponOcrRegions,
    mappings: MappingManager,
    stop_names: Seq<String>,
    go_on: bool,
    result: Result<WeaponScanResult, WeaponError>,
) -> bool {
    exists|a: Log, name: Answer|
        {
            &&& #[trigger] asked(
                before,
                a,
                request_for(image, scaler, regions.name, Treatment::Plain),
                name,
            )
            &&& match name {
                Err(e) => a == after && weapon_ocr_failed(result, e),
                Ok(t) => weapon_named(
                    a,
                    after,
                    image,
                    scaler,
                    regions,
                    mappings,
                    stop_names,
                    go_on,
                    t,
                    result,
                ),
            }
        }
}

/// What follows from the text for the name.
pub open spec fn weapon_named(
    before: Log,
    after: Log,
    image: RgbImage,
    scaler: CoordScaler,
    regions: WeaponOcrRegions,
    mappings: MappingManager,
    stop_names: Seq<String>,
    go_on: bool,
    text: Seq<char>,
    result: Result<WeaponScanResult, WeaponError>,
) -> bool {
    exists|key: Option<Seq<char>>|
        {
            &&& #[trigger] matched(cleaned(text), mappings.weapon_name_map@, key)
            &&& match key {
                None => before == after && weapon_unknown(
                    image,
                    scaler,
                    stop_names,
                    go_on,
                    text,
                    result,
                ),
                Some(k) => weapon_read(
                    before,
                    after,
                    image,
                    scaler,
                    regions,
                    mappings.character_name_map@,
                    k,
                    result,
                ),
            }
        }
}

fn scan_equip<O: ImageToText>(
    ocr: &mut O,
    image: &RgbImage,
    scaler: &CoordScaler,
    regions: &WeaponOcrRegions,
    mappings: &MappingManager,
    key: String,
    level_text: String,
    rank_text: String,
) -> (result: Result<WeaponScanResult, WeaponError>)
    ensures
        weapon_read_wearer(
            old(ocr).log(),
            final(ocr).log(),
            *image,
            *scaler,
            *regions,
            mappings.character_name_map@,
            key@,
            level_text@,
            rank_text@,
            result,
        ),
{
    let ghost before = ocr.log();
    let answer = read_region(ocr, image, scaler, regions.equip, Treatment::Plain);
    let ghost a = answer_of(answer);
    assert(asked(
        before,
        ocr.log(),
        request_for(*image, *scaler, regions.equip, Treatment::Plain),
        a,
    ));
    match answer {
        Err(e) => Err(WeaponError::Ocr(e)),
        Ok(t) => {
            let location = parse_equip_location(t.as_str(), &mappings.character_name_map);
            let (level, ascended) = parse_weapon_level(level_text.as_str());
            Ok(
                WeaponScanResult::Weapon(
                    GoodWeapon {
                        key,
                        level,
                        ascension: level_to_ascension(level, ascended),
                        refinement: parse_refinement(rank_text.as_str()),
                        rarity: detect_weapon_rarity(image, scaler),
                        location,
                        lock: detect_weapon_lock(image, scaler),
                    },
                ),
            )
        },
    }
}

fn scan_refinement<O: ImageToText>(
    ocr: &mut O,
    image: &RgbImage,
    scaler: &CoordScaler,
    regions: &WeaponOcrRegions,
    mappings: &MappingManager,
    key: String,
    level_text: String,
) -> (result: Result<WeaponScanResult, WeaponError>)
    ensures
        weapon_read_refinement(
            old(ocr).log(),
            final(ocr).log(),
            *image,
            *scaler,
            *regions,
            mappings.character_name_map@,
            key@,
            level_text@,
            result,
        ),
{
    let ghost before = ocr.log();
    let answer = read_region(ocr, image, scaler, regions.refinement, Treatment::Plain);
    let ghost a = answer_of(answer);
    assert(asked(
        before,
        ocr.log(),
        request_for(*image, *scaler, regions.refinement, Treatment::Plain),
        a,
    ));
    match answer {
        Err(e) => Err(WeaponError::Ocr(e)),
        Ok(t) => scan_equip(ocr, image, scaler, regions, mappings, key, level_text, t),
    }
}

fn scan_level<O: ImageToText>(
    ocr: &mut O,
    image: &RgbImage,
    scaler: &CoordScaler,
    regions: &WeaponOcrRegions,
    mappings: &MappingManager,
    key: String,
) -> (result: Result<WeaponScanResult, WeaponError>)
    ensures
        weapon_read(
            old(ocr).log(),
            final(ocr).log(),
            *image,
            *scaler,
            *regions,
            mappings.character_name_map@,
            key@,
            result,
        ),
{
    let ghost before = ocr.log();
    let answer = read_region(ocr, image, scaler, regions.level, Treatment::Plain);
    let ghost a = answer_of(answer);
    assert(asked(
        before,
        ocr.log(),
        request_for(*image, *scaler, regions.level, Treatment::Plain),
        a,
    ));
    match answer {
        Err(e) => Err(WeaponError::Ocr(e)),
        Ok(t) => scan_refinement(ocr, image, scaler, regions, mappings, key, t),
    }
}

fn after_name<O: ImageToText>(
    ocr: &mut O,
    image: &RgbImage,
    scaler: &CoordScaler,
    regions: &WeaponOcrRegions,
    mappings: &MappingManager,
    stop_names: &Vec<String>,
    go_on: bool,
    text: String,
) -> (result: Result<WeaponScanResult, WeaponError>)
    ensures
        weapon_named(
            old(ocr).log(),
            final(ocr).log(),
            *image,
            *scaler,
            *regions,
            *mappings,
            stop_names@,
            go_on,
            text@,
            result,
        ),
{
    let found = fuzzy_match_map(text.as_str(), &mappings.weapon_name_map);
    assert(matched(
        cleaned(text@),
        mappings.weapon_name_map@,
        crate::text::text_of(found),
    ));
    match found {
        Some(key) => scan_level(ocr, image, scaler, regions, mappings, key),
        None => {
            if is_stop_name(text.as_str(), stop_names) {
                return Ok(WeaponScanResult::Stop);
            }
            if detect_weapon_rarity(image, scaler) <= 2 {
                return Ok(WeaponScanResult::Stop);
            }
            if go_on {
                return Ok(WeaponScanResult::Skip);
            }
            Err(WeaponError::Name(text))
        },
    }
}

/// What the scan of a weapon comes to.
pub open spec fn weapon_outcome(
    result: Result<WeaponScanResult, WeaponError>,
    min_rarity: int,
) -> Outcome<GoodWeapon> {
    match result {
        Ok(WeaponScanResult::Weapon(w)) => if w.rarity >= min_rarity {
            Outcome::Item(w)
        } else {
            Outcome::Skipped
        },
        Ok(_) => Outcome::Skipped,
        Err(_) => Outcome::Failed,
    }
}

/// What to do after an item of the grid with so many stars.
pub open spec fn weapon_step<I>(
    idx: int,
    image: I,
    rarity: int,
    worker_stopped: bool,
    start_at: int,
) -> WeaponStep<I> {
    if worker_stopped || rarity <= 2 {
        WeaponStep { work: None, action: ScanAction::Stop }
    } else {
        WeaponStep {
            work: Some(WorkItem { index: (idx - start_at) as usize, image, metadata: None }),
            action: ScanAction::Continue,
        }
    }
}

/// What to do after an item of the grid.
pub struct WeaponStep<I> {
    /// The work to hand out.
    pub work: Option<WorkItem<I>>,
    pub action: ScanAction,
}

/// The weapon scanner.
#[derive(Debug)]
pub struct GoodWeaponScanner {
    pub config: GoodWeaponScannerConfig,
    pub ocr_regions: WeaponOcrRegions,
    /// Names of weapons at which a scan stops.
    pub stop_names: Vec<String>,
}

impl GoodWeaponScanner {
    /// A scanner with its settings.
    pub fn new(config: GoodWeaponScannerConfig, stop_names: Vec<String>) -> (s: Self)
        ensures
            s.config == config,
            s.stop_names == stop_names,
            s.ocr_regions.standard(),
    {
        GoodWeaponScanner { config, ocr_regions: WeaponOcrRegions::new(), stop_names }
    }

    /// Scans one weapon from a screenshot.
    pub fn scan_single_weapon<O: ImageToText>(
        &self,
        ocr: &mut O,
        image: &RgbImage,
        scaler: &CoordScaler,
        mappings: &MappingManager,
    ) -> (result: Result<WeaponScanResult, WeaponError>)
        ensures
            weapon_scanned(
                old(ocr).log(),
                final(ocr).log(),
                *image,
                *scaler,
                self.ocr_regions,
                *mappings,
                self.stop_names@,
                self.config.continue_on_failure,
                result,
            ),
    {
        let ghost before = ocr.log();
        let answer = read_region(ocr, image, scaler, self.ocr_regions.name, Treatment::Plain);
        let ghost a = answer_of(answer);
        assert(asked(
            before,
            ocr.log(),
            request_for(*image, *scaler, self.ocr_regions.name, Treatment::Plain),
            a,
        ));
        match answer {
            Err(e) => Err(WeaponError::Ocr(e)),
            Ok(t) => after_name(
                ocr,
                image,
                scaler,
                &self.ocr_regions,
                mappings,
                &self.stop_names,
                self.config.continue_on_failure,
                t,
            ),
        }
    }

    /// What a worker does with the result of a scan: a weapon of the lowest
    /// rarity or above counts, and an error counts as a failure.
    pub fn outcome(&self, result: Result<WeaponScanResult, WeaponError>) -> (outcome: Outcome<
        GoodWeapon,
    >)
        ensures
            outcome == weapon_outcome(result, self.config.min_rarity as int),
    {
        match result {
            Ok(WeaponScanResult::Weapon(w)) => if w.rarity >= self.config.min_rarity {
                Outcome::Item(w)
            } else {
                Outcome::Skipped
            },
            Ok(_) => Outcome::Skipped,
            Err(_) => Outcome::Failed,
        }
    }

    /// How many weapons of the backpack are scanned; none where it is empty.
    pub fn scan(&self, count: usize, start_at: usize) -> (total: usize)
        requires
            self.config.max_count + start_at <= usize::MAX,
        ensures
            total == weapons_to_scan(
                count as int,
                self.config.max_count as int,
                start_at as int,
            ),
    {
        if count == 0 {
            return 0;
        }
        capped_total(count, self.config.max_count, start_at)
    }

    /// The delay after the panel has appeared, for the lock icon to settle.
    pub fn panel_delay(&self) -> (ms: u64)
        ensures
            ms == lock_delay(self.config.skip_lock_delay),
    {
        if self.config.skip_lock_delay {
            0
        } else {
            100
        }
    }

    /// An item of the grid was shown: a worker that gave up or an item of at
    /// most two stars stops the scan, else the item is handed out.
    pub fn item<I>(
        idx: usize,
        image: I,
        rarity: i32,
        worker_stopped: bool,
        start_at: usize,
    ) -> (step: WeaponStep<I>)
        requires
            start_at <= idx,
        ensures
            step == weapon_step(idx as int, image, rarity as int, worker_stopped, start_at as int),
    {
        if worker_stopped || rarity <= 2 {
            return WeaponStep { work: None, action: ScanAction::Stop };
        }
        WeaponStep {
            work: Some(WorkItem { index: idx - start_at, image, metadata: None }),
            action: ScanAction::Continue,
        }
    }
}

/// A weapon that was scanned has its ascension by its level, at least as the
/// level demands and at most one phase more.
pub proof fn scanned_weapons_are_consistent(
    before: Log,
    after: Log,
    image: RgbImage,
    scaler: CoordScaler,
    regions: WeaponOcrRegions,
    mappings: MappingManager,
    stop_names: Seq<String>,
    go_on: bool,
    result: Result<WeaponScanResult, WeaponError>,
)
    requires
        weapon_scanned(
            before,
            after,
            image,
            scaler,
            regions,
            mappings,
            stop_names,
            go_on,
            result,
        ),
    ensures
        match result {
            Ok(WeaponScanResult::Weapon(w)) => {
                &&& w.rarity == weapon_rarity(image, scaler)
                &&& ascension(w.level as int, false) <= w.ascension <= ascension(
                    w.level as int,
                    false,
                ) + 1
            },
            Ok(_) => true,
            Err(e) => go_on ==> e is Ocr,
        },
{
    if let Ok(WeaponScanResult::Weapon(w)) = result {
        crate::good_common::stat_parser::ascension_grows(w.level as int, w.level + 1, false, false);
    }
}

/// A weapon counts from the lowest rarity on; a failure counts as one, and nothing
/// else does.
pub proof fn rare_weapons_count(w: GoodWeapon, e: WeaponError, min_rarity: int)
    ensures
        w.rarity >= min_rarity ==> weapon_outcome(Ok(WeaponScanResult::Weapon(w)), min_rarity)
            == Outcome::Item(w),
        w.rarity < min_rarity ==> weapon_outcome(Ok(WeaponScanResult::Weapon(w)), min_rarity)
            == Outcome::<GoodWeapon>::Skipped,
        weapon_outcome(Ok(WeaponScanResult::Skip), min_rarity) == Outcome::<GoodWeapon>::Skipped,
        weapon_outcome(Ok(WeaponScanResult::Stop), min_rarity) == Outcome::<GoodWeapon>::Skipped,
        weapon_outcome(Err(e), min_rarity) == Outcome::<GoodWeapon>::Failed,
{
}

/// Weapons of three stars and more are handed out, numbered from the start of the
/// scan; the first one with fewer ends it, and so does a worker that has stopped.
pub proof fn weapons_below_three_stars_end_the_scan<I>(
    idx: usize,
    image: I,
    rarity: int,
    start_at: int,
)
    requires
        0 <= start_at <= idx,
    ensures
        rarity >= 3 ==> (weapon_step(idx as int, image, rarity, false, start_at).work matches Some(
            work,
        ) && work.index == idx - start_at && work.image == image),
        rarity >= 3 ==> weapon_step(idx as int, image, rarity, false, start_at).action is Continue,
        rarity <= 2 ==> weapon_step(idx as int, image, rarity, false, start_at).work is None
            && weapon_step(idx as int, image, rarity, false, start_at).action is Stop,
        weapon_step(idx as int, image, rarity, true, start_at).work is None && weapon_step(
            idx as int,
            image,
            rarity,
            true,
            start_at,
        ).action is Stop,
{
}

/// How many weapons are scanned of so many.
pub open spec fn weapons_to_scan(count: int, max_count: int, start_at: int) -> int {
    if count == 0 {
        0
    } else {
        items_to_scan(count, max_count, start_at)
    }
}

/// How long the lock icon is waited for.
pub open spec fn lock_delay(skip: bool) -> int {
    if skip {
        0
    } else {
        100
    }
}

/// All weapons are scanned, or as many from the start on as are wanted; the lock is
/// waited for a tenth of a second, or not at all.
pub proof fn so_many_weapons_are_scanned(count: int, max_count: int, start_at: int)
    requires
        0 <= count,
        0 <= max_count,
        0 <= start_at,
    ensures
        weapons_to_scan(0, max_count, start_at) == 0,
        weapons_to_scan(count, 0, start_at) == count,
        max_count > 0 && count > 0 && start_at + max_count <= count ==> weapons_to_scan(
            count,
            max_count,
            start_at,
        ) == start_at + max_count,
        max_count > 0 && start_at + max_count > count ==> weapons_to_scan(
            count,
            max_count,
            start_at,
        ) == count,
        lock_delay(false) == 100,
        lock_delay(true) == 0,
{
}

/// The texts of a weapon stand below each other: its name, its level, its refinement
/// and at the bottom its wearer.
pub proof fn weapon_texts_stand_below_each_other(r: WeaponOcrRegions)
    requires
        r.standard(),
    ensures
        r.name.1 + r.name.3 <= r.level.1,
        r.level.1 + r.level.3 <= r.refinement.1,
        r.refinement.1 + r.refinement.3 <= r.equip.1,
        r.name == (1337i32, 121i32, 434i32, 55i32),
        r.level == (1337i32, 428i32, 134i32, 29i32),
        r.refinement == (1336i32, 470i32, 148i32, 32i32),
        r.equip == (1386i32, 905i32, 315i32, 50i32),
{
}

} // verus!
