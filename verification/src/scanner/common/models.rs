//! The export format.
use vstd::prelude::*;

verus! {

/// The talent levels of a character.
#[derive(Debug, Clone, Copy, PartialEq, Eq, Structural)]
pub struct GoodTalent {
    pub auto: i32,
    pub skill: i32,
    pub burst: i32,
}

/// A character.
#[derive(Debug, Clone)]
pub struct GoodCharacter {
    pub key: String,
    pub level: i32,
    pub constellation: i32,
    pub ascension: i32,
    pub talent: GoodTalent,
    /// The element of a character that has more than one.
    pub element: Option<String>,
}

/// A substat of an artifact.
#[derive(Debug, Clone)]
pub struct GoodSubStat {
    pub key: String,
    /// The value in millionths.
    pub value: i64,
    /// The shown value of the initial roll in millionths, where it can be told.
    pub initial_value: Option<i64>,
}

/// An artifact.
#[derive(Debug, Clone)]
pub struct GoodArtifact {
    pub set_key: String,
    pub slot_key: String,
    pub level: i32,
    pub rarity: i32,
    pub main_stat_key: String,
    pub substats: Vec<GoodSubStat>,
    pub location: String,
    pub lock: bool,
    pub astral_mark: bool,
    pub elixir_crafted: bool,
    pub unactivated_substats: Vec<GoodSubStat>,
    /// The rolls of all substats together, where they were solved.
    pub total_rolls: Option<i32>,
}

/// One field of a detailed scan.
#[derive(Debug)]
pub struct DebugOcrField {
    pub field_name: String,
    /// The recognised text.
    pub raw_text: String,
    /// What was made of it.
    pub parsed_value: String,
    /// The place at the base resolution.
    pub region: (i32, i32, i32, i32),
}

} // verus!
