//! Scanning one artifact.
use crate::good_common::stat_parser::{main_stat_key_fixup, match_slot_key, parse_stat_from_text};
use crate::image::RgbImage;
use crate::name_map::NameMap;
use crate::scanner::artifact::config::GoodArtifactScannerConfig;
use crate::scanner::artifact::regions::{shifted, ArtifactOcrRegions};
use crate::scanner::artifact::set_name::{counted_stats, find_set_key_in_text, set_named};
use crate::scanner::artifact::set_reader::{read_set, row_result, set_searched, RowReading};
use crate::scanner::artifact::substat_reader::{card_lines, read_substats, substats_read, CardLines};
use crate::scanner::artifact::substats::{
    level_in, level_range, level_readings, level_readings_of, merge_levels, merged_level,
    parse_level, stat_said, subs_of, Substats, MAX_LEVEL,
};
use crate::scanner::common::constants::{
    ARTIFACT_ASTRAL_X1, ARTIFACT_ASTRAL_Y1, ARTIFACT_LOCK_X1, ARTIFACT_LOCK_Y1, ELIXIR_SHIFT,
};
use crate::scanner::common::coord_scaler::CoordScaler;
use crate::scanner::common::equip_parser::{parse_equip_location, wearer};
use crate::scanner::common::fuzzy_match::byte_len;
use crate::scanner::common::grid_voter::GridIconResult;
use crate::scanner::common::mappings::MappingManager;
use crate::scanner::common::models::GoodArtifact;
use crate::scanner::common::ocr::{
    answer_of, asked, or_empty, read_region, request_for, text_or_empty, Answer, BaseRect,
    ImageToText, Log, Treatment,
};
use crate::scanner::common::pixel_utils::{
    artifact_rarity, base_pixel, dark_at, detect_artifact_astral_mark, detect_artifact_lock,
    detect_artifact_rarity, pixel_at_base,
};
use crate::scanner::common::scan_session::{capped_total, items_to_scan, GridSession};
use crate::scanner::common::scan_worker::Outcome;
use crate::text::{copy_of, same_text, trim_text};
use vstd::prelude::*;

verus! {

/// What came of scanning one artifact.
#[derive(Debug)]
pub enum ArtifactScanResult {
    Artifact(GoodArtifact),
    /// The scan can stop here.
    Stop,
    /// The artifact is left out.
    Skip,
}

/// Why an artifact could not be scanned.
#[derive(Debug)]
pub enum ArtifactError {
    /// The text for the slot names none.
    Slot(String),
    /// The text for the main stat names none.
    MainStat(String),
    /// No row below so many substats names a set; with the text that was read.
    SetName(usize, String),
    /// The engine gave an error.
    Ocr(String),
}

/// The pixel is of the purple banner of an elixir-crafted artifact.
pub open spec fn purple_at(image: RgbImage, scaler: CoordScaler, x: int, y: int) -> bool {
    match base_pixel(image, scaler, x, y) {
        Some(p) => p.2 > 230 && p.2 > p.1 + 40,
        None => false,
    }
}

/// At least two of three places of the banner are purple.
pub open spec fn elixir_banner(image: RgbImage, scaler: CoordScaler) -> bool {
    let a = purple_at(image, scaler, 1510, 423);
    let b = purple_at(image, scaler, 1520, 423);
    let c = purple_at(image, scaler, 1530, 423);
    (a && b) || (a && c) || (b && c)
}

fn is_purple(image: &RgbImage, scaler: &CoordScaler, x: i32, y: i32) -> (yes: bool)
    ensures
        yes == purple_at(*image, *scaler, x as int, y as int),
{
    match pixel_at_base(image, scaler, x, y) {
        Some(p) => p.2 > 230 && p.2 as u32 > p.1 as u32 + 40,
        None => false,
    }
}

/// Whether the artifact was crafted with an elixir.
pub fn detect_elixir_crafted(image: &RgbImage, scaler: &CoordScaler) -> (yes: bool)
    ensures
        yes == elixir_banner(*image, *scaler),
{
    let a = is_purple(image, scaler, 1510, 423);
    let b = is_purple(image, scaler, 1520, 423);
    let c = is_purple(image, scaler, 1530, 423);
    (a && b) || (a && c) || (b && c)
}

/// How far the lower part of the card is moved down.
pub open spec fn card_shift(elixir: bool) -> int {
    if elixir {
        ELIXIR_SHIFT as int
    } else {
        0
    }
}

/// The main stat: fixed for flowers and plumes, else that of the text, of which
/// life, attack and defence are percentages.
pub open spec fn main_key(slot: Seq<char>, text: Seq<char>) -> Option<Seq<char>> {
    if slot == "flower"@ {
        Some("hp"@)
    } else if slot == "plume"@ {
        Some("atk"@)
    } else {
        match stat_said(text) {
            Some(stat) => Some(crate::good_common::stat_parser::main_stat_key(stat.0)),
            None => None,
        }
    }
}

/// The main stat.
pub fn main_stat_of(slot: &str, text: &str) -> (key: Option<String>)
    ensures
        crate::text::text_of(key) == main_key(slot@, text@),
{
    if same_text(slot, "flower") {
        Some(copy_of("hp"))
    } else if same_text(slot, "plume") {
        Some(copy_of("atk"))
    } else {
        match parse_stat_from_text(text) {
            Some(stat) => Some(main_stat_key_fixup(stat.key.as_str())),
            None => None,
        }
    }
}

/// The lock and the astral mark: as the grid shows them, else as the card does.
/// What has an astral mark is locked.
pub open spec fn marks_of(
    grid_icons: Option<GridIconResult>,
    image: RgbImage,
    scaler: CoordScaler,
    y_shift: int,
) -> (bool, bool) {
    let (lock, astral) = match grid_icons {
        Some(icons) => (icons.lock, icons.astral),
        None => (
            dark_at(image, scaler, ARTIFACT_LOCK_X1 as int, ARTIFACT_LOCK_Y1 + y_shift),
            dark_at(image, scaler, ARTIFACT_ASTRAL_X1 as int, ARTIFACT_ASTRAL_Y1 + y_shift),
        ),
    };
    (lock || astral, astral)
}

/// The lock and the astral mark.
pub fn read_marks(
    grid_icons: &Option<GridIconResult>,
    image: &RgbImage,
    scaler: &CoordScaler,
    y_shift: i32,
) -> (marks: (bool, bool))
    requires
        0 <= y_shift <= 40,
    ensures
        marks == marks_of(*grid_icons, *image, *scaler, y_shift as int),
        marks.1 ==> marks.0,
{
    let (lock, astral) = match grid_icons {
        Some(icons) => (icons.lock, icons.astral),
        None => (
            detect_artifact_lock(image, scaler, y_shift),
            detect_artifact_astral_mark(image, scaler, y_shift),
        ),
    };
    (lock || astral, astral)
}

/// The artifact is left out: it has three stars, or fewer than its set can have.
pub open spec fn lesser_variant(rarity: int, set: Seq<char>, best: Map<Seq<char>, i32>) -> bool {
    rarity == 3 || (best.contains_key(set) && rarity < best[set])
}

/// Whether the artifact is left out for its rarity.
pub fn is_lesser_variant(rarity: i32, set: &str, best: &NameMap<i32>) -> (yes: bool)
    ensures
        yes == lesser_variant(rarity as int, set@, best@),
{
    if rarity == 3 {
        return true;
    }
    match best.get(set) {
        Some(max) => rarity < *max,
        None => false,
    }
}

/// The artifact is left out.
pub open spec fn skipped(result: Result<ArtifactScanResult, ArtifactError>) -> bool {
    result is Ok && result->Ok_0 is Skip
}

/// The engine gave this error.
pub open spec fn ocr_failed(
    result: Result<ArtifactScanResult, ArtifactError>,
    e: Seq<char>,
) -> bool {
    match result {
        Err(ArtifactError::Ocr(t)) => t@ == e,
        _ => false,
    }
}

/// A failure with this text, or where the scan goes on after failures, nothing.
pub open spec fn slot_unknown(
    result: Result<ArtifactScanResult, ArtifactError>,
    go_on: bool,
    text: Seq<char>,
) -> bool {
    if go_on {
        skipped(result)
    } else {
        match result {
            Err(ArtifactError::Slot(t)) => t@ == text,
            _ => false,
        }
    }
}

/// A failure with this text, or where the scan goes on after failures, nothing.
pub open spec fn main_stat_unknown(
    result: Result<ArtifactScanResult, ArtifactError>,
    go_on: bool,
    text: Seq<char>,
) -> bool {
    if go_on {
        skipped(result)
    } else {
        match result {
            Err(ArtifactError::MainStat(t)) => t@ == text,
            _ => false,
        }
    }
}

/// A failure with this text, or where the scan goes on after failures, nothing.
pub open spec fn set_unknown(
    result: Result<ArtifactScanResult, ArtifactError>,
    go_on: bool,
    stats: int,
    text: Seq<char>,
) -> bool {
    if go_on {
        skipped(result)
    } else {
        match result {
            Err(ArtifactError::SetName(n, t)) => n == stats && t@ == text,
            _ => false,
        }
    }
}

/// A card: what is known of an artifact without its texts.
pub struct Card<'a> {
    pub image: &'a RgbImage,
    pub scaler: &'a CoordScaler,
    pub regions: &'a ArtifactOcrRegions,
    pub mappings: &'a MappingManager,
    pub grid_icons: Option<GridIconResult>,
    pub go_on: bool,
}

impl<'a> Card<'a> {
    /// The rarity by the stars.
    pub open spec fn rarity(&self) -> int {
        artifact_rarity(*self.image, *self.scaler)
    }

    /// Whether the artifact was crafted with an elixir.
    pub open spec fn elixir(&self) -> bool {
        elixir_banner(*self.image, *self.scaler)
    }

    /// What is asked for the text under a rectangle.
    pub open spec fn request(&self, rect: BaseRect) -> crate::scanner::common::ocr::OcrRequest {
        request_for(*self.image, *self.scaler, rect, Treatment::Plain)
    }

    /// The substat lines.
    pub open spec fn lines(&self) -> CardLines {
        card_lines(*self.image, *self.scaler, *self.regions, card_shift(self.elixir()))
    }

    /// The rectangle of the level.
    pub open spec fn level_rect(&self) -> BaseRect {
        let r = self.regions.level;
        (r.0, (r.1 + card_shift(self.elixir())) as i32, r.2, r.3)
    }
}

/// The artifact of a card.
pub open spec fn artifact_is(
    card: Card,
    result: Result<ArtifactScanResult, ArtifactError>,
    slot: Seq<char>,
    main: Seq<char>,
    level: int,
    subs: Substats,
    set: Seq<char>,
    location: Seq<char>,
) -> bool {
    match result {
        Ok(ArtifactScanResult::Artifact(a)) => {
            &&& a.set_key@ == set
            &&& a.slot_key@ == slot
            &&& a.level == level
            &&& a.rarity == card.rarity()
            &&& a.main_stat_key@ == main
            &&& subs_of(a.substats@) == subs_of(subs.active@)
            &&& subs_of(a.unactivated_substats@) == subs_of(subs.inactive@)
            &&& a.total_rolls == subs.total_rolls
            &&& a.location@ == location
            &&& a.elixir_crafted == card.elixir()
            &&& (a.lock, a.astral_mark) == marks_of(
                card.grid_icons,
                *card.image,
                *card.scaler,
                card_shift(card.elixir()),
            )
        },
        _ => false,
    }
}

/// The last step of a scan: who wears the artifact. The level engine is asked
/// where the general engine's text gives nobody.
pub open spec fn scanned_wearer(
    card: Card,
    g0: Log,
    g1: Log,
    l0: Log,
    l1: Log,
    slot: Seq<char>,
    main: Seq<char>,
    level: int,
    subs: Substats,
    set: Seq<char>,
    result: Result<ArtifactScanResult, ArtifactError>,
) -> bool {
    exists|first: Answer|
        {
            &&& #[trigger] asked(
                g0,
                g1,
                card.request(card.regions.equip),
                first,
            )
            &&& match first {
                Err(e) => l1 == l0 && ocr_failed(result, e),
                Ok(t) => wearer_read(
                    card,
                    t,
                    l0,
                    l1,
                    slot,
                    main,
                    level,
                    subs,
                    set,
                    result,
                ),
            }
        }
}

/// What came of the general engine's text for the wearer.
pub open spec fn wearer_read(
    card: Card,
    text: Seq<char>,
    l0: Log,
    l1: Log,
    slot: Seq<char>,
    main: Seq<char>,
    level: int,
    subs: Substats,
    set: Seq<char>,
    result: Result<ArtifactScanResult, ArtifactError>,
) -> bool {
    exists|who: Seq<char>|
        {
            &&& #[trigger] wearer(text, card.mappings.character_name_map@, who)
            &&& if nobody_read(text, who) {
                scanned_wearer_again(card, l0, l1, slot, main, level, subs, set, result)
            } else {
                l1 == l0 && artifact_is(card, result, slot, main, level, subs, set, who)
            }
        }
}

/// The artifact is worn by the one whom the text gives.
pub open spec fn worn_by(
    card: Card,
    text: Seq<char>,
    slot: Seq<char>,
    main: Seq<char>,
    level: int,
    subs: Substats,
    set: Seq<char>,
    result: Result<ArtifactScanResult, ArtifactError>,
) -> bool {
    exists|who: Seq<char>| #[trigger]
        wearer(text, card.mappings.character_name_map@, who) && artifact_is(
            card,
            result,
            slot,
            main,
            level,
            subs,
            set,
            who,
        )
}

/// The text gives nobody, but it may be misread.
pub open spec fn nobody_read(text: Seq<char>, who: Seq<char>) -> bool {
    who.len() == 0 && byte_len(crate::text::trimmed(text)) >= 2
}

/// Who wears the artifact by the level engine.
pub open spec fn scanned_wearer_again(
    card: Card,
    l0: Log,
    l1: Log,
    slot: Seq<char>,
    main: Seq<char>,
    level: int,
    subs: Substats,
    set: Seq<char>,
    result: Result<ArtifactScanResult, ArtifactError>,
) -> bool {
    exists|second: Answer|
        {
            &&& #[trigger] asked(
                l0,
                l1,
                card.request(card.regions.equip),
                second,
            )
            &&& match second {
                Err(e) => ocr_failed(result, e),
                Ok(t) => worn_by(card, t, slot, main, level, subs, set, result),
            }
        }
}

/// How many substats were read, for the row of the set.
pub open spec fn stat_rows(subs: Substats) -> int {
    counted_stats((subs.active@.len() + subs.inactive@.len()) as int)
}

/// The step of a scan that searches the set.
pub open spec fn scanned_set(
    card: Card,
    g0: Log,
    g1: Log,
    l0: Log,
    l1: Log,
    slot: Seq<char>,
    main: Seq<char>,
    level: int,
    subs: Substats,
    result: Result<ArtifactScanResult, ArtifactError>,
) -> bool {
    exists|after: Log, found: RowReading|
        {
            &&& #[trigger] set_searched(
                g0,
                after,
                *card.image,
                *card.scaler,
                stat_rows(subs),
                card_shift(card.elixir()),
                card.mappings.artifact_set_map@,
                found,
            )
            &&& match found {
                Err(e) => g1 == after && l1 == l0 && ocr_failed(result, e),
                Ok((None, t)) => g1 == after && l1 == l0 && set_unknown(
                    result,
                    card.go_on,
                    stat_rows(subs),
                    t,
                ),
                Ok((Some(set), _)) => if lesser_variant(
                    card.rarity(),
                    set,
                    card.mappings.artifact_set_max_rarity@,
                ) {
                    g1 == after && l1 == l0 && skipped(result)
                } else {
                    scanned_wearer(
                        card,
                        after,
                        g1,
                        l0,
                        l1,
                        slot,
                        main,
                        level,
                        subs,
                        set,
                        result,
                    )
                },
            }
        }
}

/// The step of a scan that reads the substats.
pub open spec fn scanned_substats(
    card: Card,
    g0: Log,
    g1: Log,
    l0: Log,
    l1: Log,
    slot: Seq<char>,
    main: Seq<char>,
    first_level: i32,
    second_level: i32,
    result: Result<ArtifactScanResult, ArtifactError>,
) -> bool {
    exists|g: Log, l: Log, subs: Substats|
        {
            &&& #[trigger] substats_read(
                g0,
                g,
                l0,
                l,
                card.lines(),
                card.mappings.artifact_set_map@,
                card.rarity() as i32,
                merged_level(first_level as int, second_level as int),
                level_readings_of(first_level, second_level),
                subs,
            )
            &&& scanned_set(
                card,
                g,
                g1,
                l,
                l1,
                slot,
                main,
                merged_level(first_level as int, second_level as int),
                subs,
                result,
            )
        }
}

/// The step of a scan that reads the level with both engines.
pub open spec fn scanned_level(
    card: Card,
    g0: Log,
    g1: Log,
    l0: Log,
    l1: Log,
    slot: Seq<char>,
    main: Seq<char>,
    result: Result<ArtifactScanResult, ArtifactError>,
) -> bool {
    exists|l: Log, first: Answer, g: Log, second: Answer|
        {
            &&& #[trigger] asked(l0, l, card.request(card.level_rect()), first)
            &&& #[trigger] asked(g0, g, card.request(card.level_rect()), second)
            &&& scanned_substats(
                card,
                g,
                g1,
                l,
                l1,
                slot,
                main,
                level_in(text_or_empty(first)) as i32,
                level_in(text_or_empty(second)) as i32,
                result,
            )
        }
}

/// The step of a scan that reads the main stat.
pub open spec fn scanned_main_stat(
    card: Card,
    g0: Log,
    g1: Log,
    l0: Log,
    l1: Log,
    slot: Seq<char>,
    result: Result<ArtifactScanResult, ArtifactError>,
) -> bool {
    exists|g: Log, answer: Answer|
        {
            &&& #[trigger] asked(g0, g, card.request(card.regions.main_stat), answer)
            &&& match answer {
                Err(e) => g1 == g && l1 == l0 && ocr_failed(result, e),
                Ok(t) => match main_key(slot, t) {
                    None => g1 == g && l1 == l0 && main_stat_unknown(
                        result,
                        card.go_on,
                        t,
                    ),
                    Some(main) => scanned_level(
                        card,
                        g,
                        g1,
                        l0,
                        l1,
                        slot,
                        main,
                        result,
                    ),
                },
            }
        }
}

/// The whole scan of a card: what the engines were asked, in which order, and
/// what came of their answers.
pub open spec fn scanned(
    card: Card,
    g0: Log,
    g1: Log,
    l0: Log,
    l1: Log,
    result: Result<ArtifactScanResult, ArtifactError>,
) -> bool {
    exists|g: Log, answer: Answer|
        {
            &&& #[trigger] asked(g0, g, card.request(card.regions.part_name), answer)
            &&& match answer {
                Err(e) => g1 == g && l1 == l0 && ocr_failed(result, e),
                Ok(t) => match crate::good_common::stat_parser::slot_key(t) {
                    None => g1 == g && l1 == l0 && slot_unknown(
                        result,
                        card.go_on || card.rarity() == 4,
                        t,
                    ),
                    Some(slot) => scanned_main_stat(
                        card,
                        g,
                        g1,
                        l0,
                        l1,
                        slot,
                        result,
                    ),
                },
            }
        }
}

fn make_artifact(
    card: &Card,
    slot: String,
    main: String,
    level: i32,
    subs: Substats,
    set: String,
    location: String,
) -> (result: Result<ArtifactScanResult, ArtifactError>)
    ensures
        artifact_is(*card, result, slot@, main@, level as int, subs, set@, location@),
{
    let elixir = detect_elixir_crafted(card.image, card.scaler);
    let y_shift: i32 = if elixir {
        ELIXIR_SHIFT
    } else {
        0
    };
    let (lock, astral) = read_marks(&card.grid_icons, card.image, card.scaler, y_shift);
    Ok(
        ArtifactScanResult::Artifact(
            GoodArtifact {
                set_key: set,
                slot_key: slot,
                level,
                rarity: detect_artifact_rarity(card.image, card.scaler),
                main_stat_key: main,
                substats: subs.active,
                location,
                lock,
                astral_mark: astral,
                elixir_crafted: elixir,
                unactivated_substats: subs.inactive,
                total_rolls: subs.total_rolls,
            },
        ),
    )
}

fn scan_wearer_again<O: ImageToText>(
    card: &Card,
    level_ocr: &mut O,
    slot: String,
    main: String,
    level: i32,
    subs: Substats,
    set: String,
) -> (result: Result<ArtifactScanResult, ArtifactError>)
    ensures
        scanned_wearer_again(
            *card,
            old(level_ocr).log(),
            final(level_ocr).log(),
            slot@,
            main@,
            level as int,
            subs,
            set@,
            result,
        ),
{
    let ghost l0 = level_ocr.log();
    let answer = read_region(
        level_ocr,
        card.image,
        card.scaler,
        card.regions.equip,
        Treatment::Plain,
    );
    let ghost second = answer_of(answer);
    assert(asked(l0, level_ocr.log(), card.request(card.regions.equip), second));
    match answer {
        Ok(t) => {
            let location = parse_equip_location(t.as_str(), &card.mappings.character_name_map);
            assert(wearer(t@, card.mappings.character_name_map@, location@));
            let result = make_artifact(card, slot, main, level, subs, set, location);
            assert(worn_by(*card, t@, slot@, main@, level as int, subs, set@, result));
            result
        },
        Err(e) => Err(ArtifactError::Ocr(e)),
    }
}

fn scan_wearer<O: ImageToText, P: ImageToText>(
    card: &Card,
    level_ocr: &mut O,
    general: &mut P,
    slot: String,
    main: String,
    level: i32,
    subs: Substats,
    set: String,
) -> (result: Result<ArtifactScanResult, ArtifactError>)
    ensures
        scanned_wearer(
            *card,
            old(general).log(),
            final(general).log(),
            old(level_ocr).log(),
            final(level_ocr).log(),
            slot@,
            main@,
            level as int,
            subs,
            set@,
            result,
        ),
{
    let ghost g0 = general.log();
    let answer = read_region(general, card.image, card.scaler, card.regions.equip, Treatment::Plain);
    let ghost first = answer_of(answer);
    assert(asked(g0, general.log(), card.request(card.regions.equip), first));
    let text = match answer {
        Ok(t) => t,
        Err(e) => {
            return Err(ArtifactError::Ocr(e));
        },
    };
    let location = parse_equip_location(text.as_str(), &card.mappings.character_name_map);
    assert(wearer(text@, card.mappings.character_name_map@, location@));
    let bare = trim_text(text.as_str());
    let len: usize = bare.as_str().len();
    let ghost l0 = level_ocr.log();
    let result = if location.as_str().is_empty() && len >= 2 {
        scan_wearer_again(card, level_ocr, slot, main, level, subs, set)
    } else {
        make_artifact(card, slot, main, level, subs, set, location)
    };
    assert(wearer_read(
        *card,
        text@,
        l0,
        level_ocr.log(),
        slot@,
        main@,
        level as int,
        subs,
        set@,
        result,
    ));
    result
}

fn scan_set<O: ImageToText, P: ImageToText>(
    card: &Card,
    level_ocr: &mut O,
    general: &mut P,
    slot: String,
    main: String,
    level: i32,
    rarity: i32,
    y_shift: i32,
    subs: Substats,
) -> (result: Result<ArtifactScanResult, ArtifactError>)
    requires
        rarity == card.rarity(),
        y_shift == card_shift(card.elixir()),
    ensures
        scanned_set(
            *card,
            old(general).log(),
            final(general).log(),
            old(level_ocr).log(),
            final(level_ocr).log(),
            slot@,
            main@,
            level as int,
            subs,
            result,
        ),
{
    let ghost g0 = general.log();
    let active: usize = subs.active.len();
    let inactive: usize = subs.inactive.len();
    let stats: usize = if active >= 4 || inactive >= 4 {
        4
    } else {
        active + inactive
    };
    assert(counted_stats(stats as int) == stat_rows(subs));
    let found = read_set(
        general,
        card.image,
        card.scaler,
        &card.mappings.artifact_set_map,
        y_shift,
        stats,
    );
    let ghost g1 = general.log();
    let ghost reading = row_result(found);
    assert(set_searched(
        g0,
        g1,
        *card.image,
        *card.scaler,
        stat_rows(subs),
        card_shift(card.elixir()),
        card.mappings.artifact_set_map@,
        reading,
    ));
    match found {
        Err(e) => Err(ArtifactError::Ocr(e)),
        Ok((None, text)) => {
            if card.go_on {
                return Ok(ArtifactScanResult::Skip);
            }
            let counted: usize = if stats < 1 {
                1
            } else if stats > 4 {
                4
            } else {
                stats
            };
            Err(ArtifactError::SetName(counted, text))
        },
        Ok((Some(set), text)) => {
            if is_lesser_variant(rarity, set.as_str(), &card.mappings.artifact_set_max_rarity) {
                return Ok(ArtifactScanResult::Skip);
            }
            assert(reading == Ok::<(Option<Seq<char>>, Seq<char>), Seq<char>>((Some(set@), text@)));
            scan_wearer(card, level_ocr, general, slot, main, level, subs, set)
        },
    }
}

fn scan_substats<O: ImageToText, P: ImageToText>(
    card: &Card,
    level_ocr: &mut O,
    general: &mut P,
    slot: String,
    main: String,
    first_level: i32,
    second_level: i32,
    rarity: i32,
    y_shift: i32,
) -> (result: Result<ArtifactScanResult, ArtifactError>)
    requires
        card.regions.standard(),
        rarity == card.rarity(),
        y_shift == card_shift(card.elixir()),
        first_level <= MAX_LEVEL,
        second_level <= MAX_LEVEL,
    ensures
        scanned_substats(
            *card,
            old(general).log(),
            final(general).log(),
            old(level_ocr).log(),
            final(level_ocr).log(),
            slot@,
            main@,
            first_level,
            second_level,
            result,
        ),
{
    let ghost g0 = general.log();
    let ghost l0 = level_ocr.log();
    let level: i32 = merge_levels(first_level, second_level);
    let levels = level_readings(first_level, second_level);
    let subs = read_substats(
        level_ocr,
        general,
        card.image,
        card.scaler,
        card.regions,
        &card.mappings.artifact_set_map,
        rarity,
        level,
        &levels,
        y_shift,
    );
    let ghost g1 = general.log();
    let ghost l1 = level_ocr.log();
    assert(substats_read(
        g0,
        g1,
        l0,
        l1,
        card.lines(),
        card.mappings.artifact_set_map@,
        card.rarity() as i32,
        merged_level(first_level as int, second_level as int),
        level_readings_of(first_level, second_level),
        subs,
    ));
    scan_set(card, level_ocr, general, slot, main, level, rarity, y_shift, subs)
}

fn scan_level<O: ImageToText, P: ImageToText>(
    card: &Card,
    level_ocr: &mut O,
    general: &mut P,
    slot: String,
    main: String,
    rarity: i32,
) -> (result: Result<ArtifactScanResult, ArtifactError>)
    requires
        card.regions.standard(),
        rarity == card.rarity(),
    ensures
        scanned_level(
            *card,
            old(general).log(),
            final(general).log(),
            old(level_ocr).log(),
            final(level_ocr).log(),
            slot@,
            main@,
            result,
        ),
{
    let ghost g0 = general.log();
    let ghost l0 = level_ocr.log();
    let y_shift: i32 = if detect_elixir_crafted(card.image, card.scaler) {
        ELIXIR_SHIFT
    } else {
        0
    };
    let rect = shifted(card.regions.level, y_shift);
    let answer = read_region(level_ocr, card.image, card.scaler, rect, Treatment::Plain);
    let ghost first = answer_of(answer);
    assert(asked(l0, level_ocr.log(), card.request(card.level_rect()), first));
    let first_level: i32 = parse_level(or_empty(answer).as_str());
    let answer = read_region(general, card.image, card.scaler, rect, Treatment::Plain);
    let ghost second = answer_of(answer);
    assert(asked(g0, general.log(), card.request(card.level_rect()), second));
    let second_level: i32 = parse_level(or_empty(answer).as_str());
    scan_substats(
        card,
        level_ocr,
        general,
        slot,
        main,
        first_level,
        second_level,
        rarity,
        y_shift,
    )
}

fn scan_main_stat<O: ImageToText, P: ImageToText>(
    card: &Card,
    level_ocr: &mut O,
    general: &mut P,
    slot: String,
    rarity: i32,
) -> (result: Result<ArtifactScanResult, ArtifactError>)
    requires
        card.regions.standard(),
        rarity == card.rarity(),
    ensures
        scanned_main_stat(
            *card,
            old(general).log(),
            final(general).log(),
            old(level_ocr).log(),
            final(level_ocr).log(),
            slot@,
            result,
        ),
{
    let ghost g0 = general.log();
    let answer = read_region(
        general,
        card.image,
        card.scaler,
        card.regions.main_stat,
        Treatment::Plain,
    );
    let ghost a = answer_of(answer);
    assert(asked(g0, general.log(), card.request(card.regions.main_stat), a));
    match answer {
        Err(e) => Err(ArtifactError::Ocr(e)),
        Ok(text) => match main_stat_of(slot.as_str(), text.as_str()) {
            Some(main) => scan_level(card, level_ocr, general, slot, main, rarity),
            None => if card.go_on {
                Ok(ArtifactScanResult::Skip)
            } else {
                Err(ArtifactError::MainStat(text))
            },
        },
    }
}

fn scan_card<O: ImageToText, P: ImageToText>(
    card: &Card,
    level_ocr: &mut O,
    general: &mut P,
    rarity: i32,
) -> (result: Result<ArtifactScanResult, ArtifactError>)
    requires
        card.regions.standard(),
        rarity == card.rarity(),
    ensures
        scanned(
            *card,
            old(general).log(),
            final(general).log(),
            old(level_ocr).log(),
            final(level_ocr).log(),
            result,
        ),
{
    let ghost g0 = general.log();
    let answer = read_region(
        general,
        card.image,
        card.scaler,
        card.regions.part_name,
        Treatment::Plain,
    );
    let ghost a = answer_of(answer);
    assert(asked(g0, general.log(), card.request(card.regions.part_name), a));
    match answer {
        Err(e) => Err(ArtifactError::Ocr(e)),
        Ok(text) => match match_slot_key(text.as_str()) {
            Some(slot) => scan_main_stat(card, level_ocr, general, copy_of(slot), rarity),
            None => if card.go_on || rarity == 4 {
                Ok(ArtifactScanResult::Skip)
            } else {
                Err(ArtifactError::Slot(text))
            },
        },
    }
}

/// The artifact scanner.
#[derive(Debug)]
pub struct GoodArtifactScanner {
    pub config: GoodArtifactScannerConfig,
    pub ocr_regions: ArtifactOcrRegions,
}

impl GoodArtifactScanner {
    /// A scanner with its settings.
    pub fn new(config: GoodArtifactScannerConfig) -> (s: Self)
        ensures
            s.config == config,
            s.ocr_regions.standard(),
    {
        GoodArtifactScanner { config, ocr_regions: ArtifactOcrRegions::new() }
    }

    /// Scans one artifact from a screenshot. Below the lowest rarity the scan can
    /// stop, and no engine is asked.
    pub fn scan_single_artifact<O: ImageToText, P: ImageToText>(
        level_ocr: &mut O,
        general: &mut P,
        image: &RgbImage,
        scaler: &CoordScaler,
        regions: &ArtifactOcrRegions,
        mappings: &MappingManager,
        config: &GoodArtifactScannerConfig,
        grid_icons: Option<GridIconResult>,
    ) -> (result: Result<ArtifactScanResult, ArtifactError>)
        requires
            regions.standard(),
        ensures
            artifact_rarity(*image, *scaler) < config.min_rarity ==> result is Ok && result->Ok_0 is Stop
                && *final(level_ocr) == *old(level_ocr) && *final(general) == *old(general),
            artifact_rarity(*image, *scaler) >= config.min_rarity ==> scanned(
                (Card { image, scaler, regions, mappings, grid_icons, go_on: config.continue_on_failure }),
                old(general).log(),
                final(general).log(),
                old(level_ocr).log(),
                final(level_ocr).log(),
                result,
            ),
    {
        let rarity: i32 = detect_artifact_rarity(image, scaler);
        if rarity < config.min_rarity {
            return Ok(ArtifactScanResult::Stop);
        }
        let card = Card {
            image,
            scaler,
            regions,
            mappings,
            grid_icons,
            go_on: config.continue_on_failure,
        };
        scan_card(&card, level_ocr, general, rarity)
    }

    /// The artifact on a screenshot, whatever its rarity; nothing where it is left
    /// out or cannot be recognised.
    pub fn identify_artifact<O: ImageToText, P: ImageToText>(
        level_ocr: &mut O,
        general: &mut P,
        image: &RgbImage,
        scaler: &CoordScaler,
        mappings: &MappingManager,
        grid_icons: Option<GridIconResult>,
    ) -> (found: Result<Option<GoodArtifact>, ArtifactError>)
        ensures
            exists|regions: &ArtifactOcrRegions, result: Result<ArtifactScanResult, ArtifactError>|
                {
                    &&& regions.standard()
                    &&& #[trigger] scanned(
                        (Card { image, scaler, regions, mappings, grid_icons, go_on: true }),
                        old(general).log(),
                        final(general).log(),
                        old(level_ocr).log(),
                        final(level_ocr).log(),
                        result,
                    )
                    &&& match result {
                        Ok(ArtifactScanResult::Artifact(a)) => found == Ok::<
                            Option<GoodArtifact>,
                            ArtifactError,
                        >(Some(a)),
                        Ok(_) => found == Ok::<Option<GoodArtifact>, ArtifactError>(None),
                        Err(e) => found == Err::<Option<GoodArtifact>, ArtifactError>(e),
                    }
                },
    {
        let regions = ArtifactOcrRegions::new();
        let mut config = GoodArtifactScannerConfig::default();
        config.continue_on_failure = true;
        config.min_rarity = 1;
        let result = Self::scan_single_artifact(
            level_ocr,
            general,
            image,
            scaler,
            &regions,
            mappings,
            &config,
            grid_icons,
        );
        let ghost outcome = result;
        proof {
            let r = &regions;
            assert(r.standard());
            assert(artifact_rarity(*image, *scaler) >= 1 ==> scanned(
                Card { image, scaler, regions: r, mappings, grid_icons, go_on: true },
                old(general).log(),
                general.log(),
                old(level_ocr).log(),
                level_ocr.log(),
                outcome,
            ));
        }
        match result {
            Ok(ArtifactScanResult::Artifact(a)) => Ok(Some(a)),
            Ok(_) => Ok(None),
            Err(e) => Err(e),
        }
    }

    /// The level of the artifact on a screenshot, -1 where it cannot be read.
    pub fn scan_level_only<O: ImageToText>(level_ocr: &mut O, image: &RgbImage, scaler: &CoordScaler) -> (
        level: i32)
        ensures
            exists|answer: Answer| #[trigger]
                asked(
                    old(level_ocr).log(),
                    final(level_ocr).log(),
                    request_for(*image, *scaler, (1332, 425, 70, 35), Treatment::Plain),
                    answer,
                ) && level == level_in(text_or_empty(answer)),
    {
        let regions = ArtifactOcrRegions::new();
        let ghost before = level_ocr.log();
        let answer = read_region(level_ocr, image, scaler, regions.level, Treatment::Plain);
        let ghost a = answer_of(answer);
        assert(asked(
            before,
            level_ocr.log(),
            request_for(*image, *scaler, (1332, 425, 70, 35), Treatment::Plain),
            a,
        ));
        parse_level(or_empty(answer).as_str())
    }

    /// The key of the set that a text names.
    pub fn find_set_key_in_text_pub(text: &str, mappings: &MappingManager) -> (key: Option<String>)
        ensures
            set_named(text@, mappings.artifact_set_map@, crate::text::text_of(key)),
    {
        find_set_key_in_text(text, &mappings.artifact_set_map)
    }

    /// What a worker does with the result of a scan: an artifact of the lowest
    /// rarity or above counts, and an error counts as a failure.
    pub fn outcome(
        &self,
        result: Result<ArtifactScanResult, ArtifactError>,
    ) -> (outcome: Outcome<GoodArtifact>)
        ensures
            outcome == artifact_outcome(result, self.config.min_rarity as int),
    {
        match result {
            Ok(ArtifactScanResult::Artifact(a)) => if a.rarity >= self.config.min_rarity {
                Outcome::Item(a)
            } else {
                Outcome::Skipped
            },
            Ok(_) => Outcome::Skipped,
            Err(_) => Outcome::Failed,
        }
    }

    /// The scan of a backpack with so many artifacts, from one of them on;
    /// nothing where there is none.
    pub fn scan<I>(&self, count: usize, start_at: usize) -> (session: Option<GridSession<I>>)
        requires
            self.config.max_count + start_at <= usize::MAX,
        ensures
            match session {
                Some(s) => count > 0 && s.valid() && s.start_at() == start_at && s.voter().total()
                    == items_to_scan(count as int, self.config.max_count as int, start_at as int)
                    && !s.voter().on_page() && s.voter().waiting().len() == 0
                    && s.voter().passes().len() == 0,
                None => count == 0,
            },
    {
        if count == 0 {
            return None;
        }
        Some(GridSession::new(capped_total(count, self.config.max_count, start_at), start_at))
    }
}

/// What every scanned artifact keeps to: an astral mark is locked, flowers have
/// life and plumes attack as their main stat, the level is at most 20, no
/// artifact has three stars, and none has fewer stars than its set can have. A
/// scan that goes on after failures fails only where an engine does.
pub proof fn scanned_artifacts_are_consistent(
    card: Card,
    g0: Log,
    g1: Log,
    l0: Log,
    l1: Log,
    result: Result<ArtifactScanResult, ArtifactError>,
)
    requires
        scanned(card, g0, g1, l0, l1, result),
    ensures
        match result {
            Ok(ArtifactScanResult::Artifact(a)) => {
                &&& a.rarity == card.rarity()
                &&& !lesser_variant(
                    a.rarity as int,
                    a.set_key@,
                    card.mappings.artifact_set_max_rarity@,
                )
                &&& a.astral_mark ==> a.lock
                &&& 0 <= a.level <= MAX_LEVEL
                &&& a.slot_key@ == "flower"@ ==> a.main_stat_key@ == "hp"@
                &&& a.slot_key@ == "plume"@ ==> a.main_stat_key@ == "atk"@
            },
            Ok(ArtifactScanResult::Stop) => false,
            Ok(ArtifactScanResult::Skip) => true,
            Err(e) => card.go_on ==> e is Ocr,
        },
{
    assert forall|text: Seq<char>| i32::MIN <= #[trigger] level_in(text) <= MAX_LEVEL by {
        level_range(text);
    }
    assert("flower"@ != "plume"@) by {
        reveal_strlit("flower");
        reveal_strlit("plume");
        assert("flower"@.len() != "plume"@.len());
    }
}

/// What the scan of an artifact comes to.
pub open spec fn artifact_outcome(
    result: Result<ArtifactScanResult, ArtifactError>,
    min_rarity: int,
) -> Outcome<GoodArtifact> {
    match result {
        Ok(ArtifactScanResult::Artifact(a)) => if a.rarity >= min_rarity {
            Outcome::Item(a)
        } else {
            Outcome::Skipped
        },
        Ok(_) => Outcome::Skipped,
        Err(_) => Outcome::Failed,
    }
}

/// An artifact counts from the lowest rarity on; a failure counts as one, and
/// nothing else does.
pub proof fn rare_artifacts_count(a: GoodArtifact, e: ArtifactError, min_rarity: int)
    ensures
        a.rarity >= min_rarity ==> artifact_outcome(
            Ok(ArtifactScanResult::Artifact(a)),
            min_rarity,
        ) == Outcome::Item(a),
        a.rarity < min_rarity ==> artifact_outcome(Ok(ArtifactScanResult::Artifact(a)), min_rarity)
            == Outcome::<GoodArtifact>::Skipped,
        artifact_outcome(Ok(ArtifactScanResult::Skip), min_rarity)
            == Outcome::<GoodArtifact>::Skipped,
        artifact_outcome(Ok(ArtifactScanResult::Stop), min_rarity)
            == Outcome::<GoodArtifact>::Skipped,
        artifact_outcome(Err(e), min_rarity) == Outcome::<GoodArtifact>::Failed,
{
}

} // verus!
