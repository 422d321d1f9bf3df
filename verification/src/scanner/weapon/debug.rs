//! A detailed scan of one weapon, field by field.
use crate::good_common::models::GoodWeapon;
use crate::good_common::stat_parser::{ascension, level_to_ascension};
use crate::image::RgbImage;
use crate::number::decimal_int_chars;
use crate::scanner::common::constants::{WEAPON_LOCK_X1, WEAPON_LOCK_Y1};
use crate::scanner::common::coord_scaler::CoordScaler;
use crate::scanner::common::debug_fields::{
    field, field_of, fields_of, nowhere, or_none, or_none_text, plain_request, Field,
};
use crate::scanner::common::equip_parser::{parse_equip_location, wearer};
use crate::scanner::common::fuzzy_match::{cleaned, fuzzy_match_map, matched};
use crate::scanner::common::mappings::MappingManager;
use crate::scanner::common::models::DebugOcrField;
use crate::scanner::common::ocr::{
    answer_of, asked, or_empty, read_region, text_or_empty, Answer, ImageToText, Log, Treatment,
};
use crate::scanner::common::pixel_utils::{
    dark_at, detect_weapon_lock, detect_weapon_rarity, weapon_rarity,
};
use crate::scanner::weapon::scanner::{
    parse_refinement, parse_weapon_level, refinement_in, weapon_is, weapon_level,
    GoodWeaponScanner, WeaponOcrRegions,
};
use crate::text::{append, joined, string_of, truth};
use vstd::prelude::*;

verus! {

/// What a detailed scan of a weapon read, and what two of the texts name.
pub struct WeaponTexts {
    pub name: Seq<char>,
    pub key: Option<Seq<char>>,
    pub level: Seq<char>,
    pub refinement: Seq<char>,
    pub equip: Seq<char>,
    pub wearer: Seq<char>,
}

/// What the engine was asked in a detailed scan, in order.
pub open spec fn weapon_texts_asked(
    before: Log,
    after: Log,
    image: RgbImage,
    scaler: CoordScaler,
    regions: WeaponOcrRegions,
    mappings: MappingManager,
    t: WeaponTexts,
) -> bool {
    exists|
        a: Log,
        b: Log,
        c: Log,
        name: Answer,
        level: Answer,
        rank: Answer,
        equip: Answer,
    |
        {
            &&& #[trigger] asked(before, a, plain_request(image, scaler, regions.name), name)
            &&& #[trigger] asked(a, b, plain_request(image, scaler, regions.level), level)
            &&& #[trigger] asked(b, c, plain_request(image, scaler, regions.refinement), rank)
            &&& #[trigger] asked(c, after, plain_request(image, scaler, regions.equip), equip)
            &&& t.name == text_or_empty(name)
            &&& t.level == text_or_empty(level)
            &&& t.refinement == text_or_empty(rank)
            &&& t.equip == text_or_empty(equip)
            &&& matched(cleaned(t.name), mappings.weapon_name_map@, t.key)
            &&& wearer(t.equip, mappings.character_name_map@, t.wearer)
        }
}

/// The fields of a detailed scan.
pub open spec fn weapon_fields(
    image: RgbImage,
    scaler: CoordScaler,
    regions: WeaponOcrRegions,
    t: WeaponTexts,
) -> Seq<Field> {
    let (level, ascended) = weapon_level(t.level);
    let rarity = weapon_rarity(image, scaler);
    let lock = dark_at(image, scaler, WEAPON_LOCK_X1 as int, WEAPON_LOCK_Y1 as int);
    seq![
        ("name"@, t.name, or_none(t.key), regions.name),
        (
            "level"@,
            t.level,
            "lv="@ + crate::number::decimal_int(level) + " ascended="@ + crate::text::truth_text(
                ascended,
            ),
            regions.level,
        ),
        (
            "refinement"@,
            t.refinement,
            "R"@ + crate::number::decimal_int(refinement_in(t.refinement)),
            regions.refinement,
        ),
        (
            "equip"@,
            t.equip,
            if t.wearer.len() == 0 {
                "(none)"@
            } else {
                t.wearer
            },
            regions.equip,
        ),
        (
            "pixel_detect"@,
            Seq::<char>::empty(),
            "rarity="@ + crate::number::decimal_int(rarity) + " lock="@ + crate::text::truth_text(
                lock,
            ) + " ascension="@ + crate::number::decimal_int(ascension(level, ascended)),
            nowhere(),
        ),
    ]
}

/// What came of a detailed scan.
pub struct WeaponDebugScan {
    pub fields: Vec<DebugOcrField>,
    pub weapon: GoodWeapon,
}

fn number_text(n: i32) -> (t: String)
    ensures
        t@ == crate::number::decimal_int(n as int),
{
    string_of(&decimal_int_chars(n as i64))
}

impl GoodWeaponScanner {
    /// Scans one weapon field by field.
    pub fn debug_scan_single<O: ImageToText>(
        &self,
        ocr: &mut O,
        image: &RgbImage,
        scaler: &CoordScaler,
        mappings: &MappingManager,
    ) -> (out: WeaponDebugScan)
        ensures
            exists|t: WeaponTexts|
                {
                    &&& #[trigger] weapon_texts_asked(
                        old(ocr).log(),
                        final(ocr).log(),
                        *image,
                        *scaler,
                        self.ocr_regions,
                        *mappings,
                        t,
                    )
                    &&& fields_of(out.fields@) == weapon_fields(
                        *image,
                        *scaler,
                        self.ocr_regions,
                        t,
                    )
                    &&& weapon_is(
                        *image,
                        *scaler,
                        or_none(t.key),
                        t.level,
                        t.refinement,
                        t.wearer,
                        out.weapon,
                    )
                },
    {
        let regions = &self.ocr_regions;
        let ghost g0 = ocr.log();
        let answer = read_region(ocr, image, scaler, regions.name, Treatment::Plain);
        let ghost a1 = answer_of(answer);
        let ghost g1 = ocr.log();
        assert(asked(g0, g1, plain_request(*image, *scaler, regions.name), a1));
        let name = or_empty(answer);
        let found = fuzzy_match_map(name.as_str(), &mappings.weapon_name_map);
        let answer = read_region(ocr, image, scaler, regions.level, Treatment::Plain);
        let ghost a2 = answer_of(answer);
        let ghost g2 = ocr.log();
        assert(asked(g1, g2, plain_request(*image, *scaler, regions.level), a2));
        let level_text = or_empty(answer);
        let (level, ascended) = parse_weapon_level(level_text.as_str());
        let answer = read_region(ocr, image, scaler, regions.refinement, Treatment::Plain);
        let ghost a3 = answer_of(answer);
        let ghost g3 = ocr.log();
        assert(asked(g2, g3, plain_request(*image, *scaler, regions.refinement), a3));
        let rank_text = or_empty(answer);
        let rank: i32 = parse_refinement(rank_text.as_str());
        let answer = read_region(ocr, image, scaler, regions.equip, Treatment::Plain);
        let ghost a4 = answer_of(answer);
        let ghost g4 = ocr.log();
        assert(asked(g3, g4, plain_request(*image, *scaler, regions.equip), a4));
        let equip = or_empty(answer);
        let location = parse_equip_location(equip.as_str(), &mappings.character_name_map);
        let ghost t = WeaponTexts {
            name: name@,
            key: crate::text::text_of(found),
            level: level_text@,
            refinement: rank_text@,
            equip: equip@,
            wearer: location@,
        };
        assert(weapon_texts_asked(g0, g4, *image, *scaler, self.ocr_regions, *mappings, t));
        let rarity: i32 = detect_weapon_rarity(image, scaler);
        let lock = detect_weapon_lock(image, scaler);
        let phase: i32 = level_to_ascension(level, ascended);
        let key = or_none_text(&found);
        let mut level_shown = joined("lv=", number_text(level).as_str());
        append(&mut level_shown, " ascended=");
        append(&mut level_shown, truth(ascended));
        let rank_shown = joined("R", number_text(rank).as_str());
        let mut pixels = joined("rarity=", number_text(rarity).as_str());
        append(&mut pixels, " lock=");
        append(&mut pixels, truth(lock));
        append(&mut pixels, " ascension=");
        append(&mut pixels, number_text(phase).as_str());
        let who = if location.as_str().is_empty() {
            "(none)"
        } else {
            location.as_str()
        };
        let mut fields: Vec<DebugOcrField> = Vec::new();
        fields.push(field("name", name.as_str(), key.as_str(), regions.name));
        fields.push(field("level", level_text.as_str(), level_shown.as_str(), regions.level));
        fields.push(
            field("refinement", rank_text.as_str(), rank_shown.as_str(), regions.refinement),
        );
        fields.push(field("equip", equip.as_str(), who, regions.equip));
        fields.push(field("pixel_detect", "", pixels.as_str(), (0, 0, 0, 0)));
        proof {
            reveal_strlit("");
            assert(""@ =~= Seq::<char>::empty());
            let expected = weapon_fields(*image, *scaler, self.ocr_regions, t);
            assert(field_of(fields@[0]) == expected[0]);
            assert(field_of(fields@[1]) == expected[1]);
            assert(field_of(fields@[2]) == expected[2]);
            assert(field_of(fields@[3]) == expected[3]);
            assert(field_of(fields@[4]) == expected[4]);
            assert(fields_of(fields@) =~= expected);
        }
        let weapon = GoodWeapon {
            key,
            level,
            ascension: phase,
            refinement: rank,
            rarity,
            location,
            lock,
        };
        WeaponDebugScan { fields, weapon }
    }
}

/// The fields of a detailed scan come in a fixed order, each with the text that was
/// read for it, what it means, and where it was read.
pub proof fn weapon_fields_tell_what_was_read(
    image: RgbImage,
    scaler: CoordScaler,
    regions: WeaponOcrRegions,
    t: WeaponTexts,
)
    ensures
        ({
            let f = weapon_fields(image, scaler, regions, t);
            let yes = |b: bool| crate::text::truth_text(b);
            &&& f.len() == 5
            &&& f[0].0 == "name"@ && f[0].1 == t.name && f[0].3 == regions.name
            &&& t.key matches Some(k) ==> f[0].2 == k
            &&& t.key is None ==> f[0].2.len() == 0
            &&& f[1].0 == "level"@ && f[1].1 == t.level && f[1].3 == regions.level
            &&& f[1].2 == "lv="@ + crate::number::decimal_int(weapon_level(t.level).0)
                + " ascended="@ + yes(weapon_level(t.level).1)
            &&& f[2].0 == "refinement"@ && f[2].1 == t.refinement && f[2].3 == regions.refinement
            &&& f[2].2 == "R"@ + crate::number::decimal_int(refinement_in(t.refinement))
            &&& f[3].0 == "equip"@ && f[3].1 == t.equip && f[3].3 == regions.equip
            &&& t.wearer.len() > 0 ==> f[3].2 == t.wearer
            &&& t.wearer.len() == 0 ==> f[3].2 == "(none)"@
            &&& f[4].0 == "pixel_detect"@
            &&& f[4].2 == "rarity="@ + crate::number::decimal_int(weapon_rarity(image, scaler))
                + " lock="@ + yes(dark_at(image, scaler, 1768, 428)) + " ascension="@
                + crate::number::decimal_int(
                ascension(weapon_level(t.level).0, weapon_level(t.level).1),
            )
        }),
{
}

/// The four texts of a weapon were read at their places, each at its own.
pub proof fn weapon_texts_come_from_their_places(
    before: Log,
    after: Log,
    image: RgbImage,
    scaler: CoordScaler,
    regions: WeaponOcrRegions,
    mappings: MappingManager,
    t: WeaponTexts,
)
    requires
        weapon_texts_asked(before, after, image, scaler, regions, mappings, t),
    ensures
        text_was_read(image, scaler, regions.name, t.name),
        text_was_read(image, scaler, regions.level, t.level),
        text_was_read(image, scaler, regions.refinement, t.refinement),
        text_was_read(image, scaler, regions.equip, t.equip),
        matched(cleaned(t.name), mappings.weapon_name_map@, t.key),
        wearer(t.equip, mappings.character_name_map@, t.wearer),
{
}

/// A text was read at a place, as it is; it is empty where the engine failed.
pub open spec fn text_was_read(
    image: RgbImage,
    scaler: CoordScaler,
    rect: crate::scanner::common::ocr::BaseRect,
    text: Seq<char>,
) -> bool {
    exists|x: Log, y: Log, answer: Answer| #[trigger]
        asked(
            x,
            y,
            crate::scanner::common::ocr::request_for(image, scaler, rect, Treatment::Plain),
            answer,
        ) && text == text_or_empty(answer)
}

} // verus!
