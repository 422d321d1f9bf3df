//! The export format.
use crate::text::copy_of;
use vstd::prelude::*;

verus! {

/// A character.
#[derive(Debug, Clone)]
pub struct GoodCharacter {
    pub key: String,
    pub level: i32,
    pub constellation: i32,
    pub ascension: i32,
    pub talent: GoodTalent,
}

/// The talent levels of a character.
#[derive(Debug, Clone, Copy)]
pub struct GoodTalent {
    pub auto: i32,
    pub skill: i32,
    pub burst: i32,
}

/// A weapon.
#[derive(Debug, Clone)]
pub struct GoodWeapon {
    pub key: String,
    pub level: i32,
    pub ascension: i32,
    pub refinement: i32,
    pub rarity: i32,
    pub location: String,
    pub lock: bool,
}

/// An artifact.
#[derive(Debug, Clone)]
pub struct GoodArtifact {
    pub set_key: String,
    pub slot_key: String,
    pub level: i32,
    pub rarity: i32,
    pub main_stat_key: String,
    pub substats: Vec<GoodSubStat>,
    pub location: String,
    pub lock: bool,
    pub astral_mark: bool,
    pub elixir_crafted: bool,
    pub unactivated_substats: Vec<GoodSubStat>,
}

/// A substat of an artifact.
#[derive(Debug, Clone)]
pub struct GoodSubStat {
    pub key: String,
    /// The value in millionths.
    pub value: i64,
}

/// All that was scanned.
#[derive(Debug, Clone)]
pub struct GoodExport {
    pub format: String,
    pub version: u32,
    pub source: String,
    pub characters: Option<Vec<GoodCharacter>>,
    pub weapons: Option<Vec<GoodWeapon>>,
    pub artifacts: Option<Vec<GoodArtifact>>,
}

impl GoodExport {
    /// Puts what was scanned under the header of the format.
    pub fn new(
        characters: Option<Vec<GoodCharacter>>,
        weapons: Option<Vec<GoodWeapon>>,
        artifacts: Option<Vec<GoodArtifact>>,
    ) -> (export: Self)
        ensures
            export.format@ == "GOOD"@,
            export.version == 3,
            export.source@ == "yas-GOODScanner"@,
            export.characters == characters,
            export.weapons == weapons,
            export.artifacts == artifacts,
    {
        GoodExport {
            format: copy_of("GOOD"),
            version: 3,
            source: copy_of("yas-GOODScanner"),
            characters,
            weapons,
            artifacts,
        }
    }
}

} // verus!
