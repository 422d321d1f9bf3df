//! What holds of scanned weapons.
use crate::good_common::models::GoodWeapon;
use crate::good_common::stat_laws::limits_passed;
use crate::image::RgbImage;
use crate::scanner::artifact::artifact_laws::was_answered;
use crate::scanner::common::coord_scaler::CoordScaler;
use crate::scanner::common::equip_parser::wearer;
use crate::scanner::common::fuzzy_match::{cleaned, matched};
use crate::scanner::common::mappings::MappingManager;
use crate::scanner::common::ocr::{asked, request_for, Answer, BaseRect, Log, Treatment};
use crate::scanner::common::pixel_utils::{dark_at, weapon_rarity};
use crate::scanner::weapon::scanner::{
    forging_names, refinement_in, weapon_is, weapon_level, weapon_named, weapon_ocr_failed,
    weapon_read, weapon_read_refinement, weapon_read_wearer, weapon_scanned, weapon_unknown,
    WeaponError, WeaponOcrRegions, WeaponScanResult,
};
use vstd::prelude::*;

verus! {

/// The text under a rectangle was read as this.
pub open spec fn text_was_read(
    image: RgbImage,
    scaler: CoordScaler,
    rect: BaseRect,
    text: Seq<char>,
) -> bool {
    was_answered(
        request_for(image, scaler, rect, Treatment::Plain),
        Ok::<Seq<char>, Seq<char>>(text),
    )
}

/// The weapon is the one that these texts tell of.
pub open spec fn told_by(
    image: RgbImage,
    scaler: CoordScaler,
    regions: WeaponOcrRegions,
    mappings: MappingManager,
    name: Seq<char>,
    level: Seq<char>,
    refinement: Seq<char>,
    equip: Seq<char>,
    w: GoodWeapon,
) -> bool {
    &&& text_was_read(image, scaler, regions.name, name)
    &&& matched(cleaned(name), mappings.weapon_name_map@, Some(w.key@))
    &&& text_was_read(image, scaler, regions.level, level)
    &&& w.level == weapon_level(level).0
    &&& w.ascension == limits_passed(w.level as int) + if weapon_level(level).1 && (w.level == 20
        || w.level == 40 || w.level == 50 || w.level == 60 || w.level == 70 || w.level == 80) {
        1int
    } else {
        0int
    }
    &&& text_was_read(image, scaler, regions.refinement, refinement)
    &&& w.refinement == refinement_in(refinement)
    &&& text_was_read(image, scaler, regions.equip, equip)
    &&& wearer(equip, mappings.character_name_map@, w.location@)
}

/// Each part of a scanned weapon comes from its own place on the card: name, level
/// with the ascension, refinement and wearer from the texts there, the lock and
/// the stars from the picture.
pub proof fn scanned_weapons_are_what_the_card_shows(
    before: Log,
    after: Log,
    image: RgbImage,
    scaler: CoordScaler,
    regions: WeaponOcrRegions,
    mappings: MappingManager,
    stop_names: Seq<String>,
    go_on: bool,
    w: GoodWeapon,
)
    requires
        weapon_scanned(
            before,
            after,
            image,
            scaler,
            regions,
            mappings,
            stop_names,
            go_on,
            Ok::<WeaponScanResult, WeaponError>(WeaponScanResult::Weapon(w)),
        ),
    ensures
        exists|name: Seq<char>, level: Seq<char>, refinement: Seq<char>, equip: Seq<char>|
            #[trigger]
            told_by(image, scaler, regions, mappings, name, level, refinement, equip, w),
        w.rarity == weapon_rarity(image, scaler),
        w.lock == dark_at(image, scaler, 1768, 428),
{
    let result = Ok::<WeaponScanResult, WeaponError>(WeaponScanResult::Weapon(w));
    let (a, name) = choose|a: Log, name: Answer|
        {
            &&& #[trigger] asked(
                before,
                a,
                request_for(image, scaler, regions.name, Treatment::Plain),
                name,
            )
            &&& match name {
                Err(e) => a == after && weapon_ocr_failed(result, e),
                Ok(t) => weapon_named(
                    a,
                    after,
                    image,
                    scaler,
                    regions,
                    mappings,
                    stop_names,
                    go_on,
                    t,
                    result,
                ),
            }
        };
    let text = name->Ok_0;
    assert(name == Ok::<Seq<char>, Seq<char>>(text));
    assert(text_was_read(image, scaler, regions.name, text));
    let key = choose|key: Option<Seq<char>>|
        {
            &&& #[trigger] matched(cleaned(text), mappings.weapon_name_map@, key)
            &&& match key {
                None => a == after && weapon_unknown(
                    image,
                    scaler,
                    stop_names,
                    go_on,
                    text,
                    result,
                ),
                Some(k) => weapon_read(
                    a,
                    after,
                    image,
                    scaler,
                    regions,
                    mappings.character_name_map@,
                    k,
                    result,
                ),
            }
        };
    let k = key->0;
    let (b, lv) = choose|b: Log, lv: Answer|
        {
            &&& #[trigger] asked(
                a,
                b,
                request_for(image, scaler, regions.level, Treatment::Plain),
                lv,
            )
            &&& match lv {
                Err(e) => b == after && weapon_ocr_failed(result, e),
                Ok(t) => weapon_read_refinement(
                    b,
                    after,
                    image,
                    scaler,
                    regions,
                    mappings.character_name_map@,
                    k,
                    t,
                    result,
                ),
            }
        };
    let level = lv->Ok_0;
    assert(lv == Ok::<Seq<char>, Seq<char>>(level));
    assert(text_was_read(image, scaler, regions.level, level));
    let (c, rank) = choose|c: Log, rank: Answer|
        {
            &&& #[trigger] asked(
                b,
                c,
                request_for(image, scaler, regions.refinement, Treatment::Plain),
                rank,
            )
            &&& match rank {
                Err(e) => c == after && weapon_ocr_failed(result, e),
                Ok(r) => weapon_read_wearer(
                    c,
                    after,
                    image,
                    scaler,
                    regions,
                    mappings.character_name_map@,
                    k,
                    level,
                    r,
                    result,
                ),
            }
        };
    let refinement = rank->Ok_0;
    assert(rank == Ok::<Seq<char>, Seq<char>>(refinement));
    assert(text_was_read(image, scaler, regions.refinement, refinement));
    let equip = choose|equip: Answer|
        {
            &&& #[trigger] asked(
                c,
                after,
                request_for(image, scaler, regions.equip, Treatment::Plain),
                equip,
            )
            &&& match equip {
                Err(e) => weapon_ocr_failed(result, e),
                Ok(t) => wearer(t, mappings.character_name_map@, w.location@) && weapon_is(
                    image,
                    scaler,
                    k,
                    level,
                    refinement,
                    w.location@,
                    w,
                ),
            }
        };
    let worn = equip->Ok_0;
    assert(equip == Ok::<Seq<char>, Seq<char>>(worn));
    assert(text_was_read(image, scaler, regions.equip, worn));
    crate::good_common::stat_laws::phases_count_limits(w.level as int);
    assert(told_by(image, scaler, regions, mappings, text, level, refinement, worn, w));
}

/// A scan stops at the materials for forging and at the names that are given, and
/// at a weapon that is not known and has one or two stars; any other that is not
/// known is passed over or is an error, as the settings say.
pub proof fn unknown_weapons_end_the_scan(
    image: RgbImage,
    scaler: CoordScaler,
    stop_names: Seq<String>,
    go_on: bool,
    text: Seq<char>,
    result: Result<WeaponScanResult, WeaponError>,
)
    requires
        weapon_unknown(image, scaler, stop_names, go_on, text, result),
    ensures
        crate::text::occurs_in(text, "精锻用魔矿"@) || crate::text::occurs_in(
            text,
            "精锻用良矿"@,
        ) || crate::text::occurs_in(text, "精锻用杂矿"@) ==> result is Ok && result->Ok_0 is Stop,
        weapon_rarity(image, scaler) <= 2 ==> result is Ok && result->Ok_0 is Stop,
        weapon_rarity(image, scaler) > 2 && stop_names.len() == 0 && !crate::text::occurs_in(
            text,
            "精锻用魔矿"@,
        ) && !crate::text::occurs_in(text, "精锻用良矿"@) && !crate::text::occurs_in(
            text,
            "精锻用杂矿"@,
        ) ==> if go_on {
            result is Ok && result->Ok_0 is Skip
        } else {
            result matches Err(WeaponError::Name(t)) && t@ == text
        },
{
    let names = forging_names();
    assert(names[0] == "精锻用魔矿"@ && names[1] == "精锻用良矿"@ && names[2] == "精锻用杂矿"@);
}

} // verus!
