//! From the names that the game shows to the keys of the export format.
use crate::name_map::NameMap;
use crate::text::{copy_of, trim_text};
use vstd::prelude::*;

verus! {

/// How long fetched data stays fresh, in seconds.
pub const MAPPINGS_TTL_SECS: u64 = 86_400;

/// Which talent the third and the fifth constellation raise: `"A"`, `"E"` or
/// `"Q"`.
#[derive(Debug, Clone)]
pub struct ConstBonus {
    pub c3: Option<String>,
    pub c5: Option<String>,
}

/// All names and keys.
#[derive(Debug)]
pub struct MappingManager {
    /// Character name to character key.
    pub character_name_map: NameMap<String>,
    /// Character key to the talents that its constellations raise.
    pub character_const_bonus: NameMap<ConstBonus>,
    /// Weapon name to weapon key.
    pub weapon_name_map: NameMap<String>,
    /// Artifact set name to set key.
    pub artifact_set_map: NameMap<String>,
    /// Set key to the highest rarity of its artifacts.
    pub artifact_set_max_rarity: NameMap<i32>,
}

/// A character of the data file.
#[derive(Debug, Clone)]
pub struct CharacterEntry {
    pub id: String,
    pub zh: Option<String>,
    pub c3: Option<String>,
    pub c5: Option<String>,
}

/// A weapon of the data file.
#[derive(Debug, Clone)]
pub struct WeaponEntry {
    pub id: String,
    pub zh: Option<String>,
}

/// An artifact set of the data file.
#[derive(Debug, Clone)]
pub struct ArtifactSetEntry {
    pub id: String,
    pub zh: Option<String>,
    pub rarity: Option<i32>,
}

/// The data file.
#[derive(Debug, Clone)]
pub struct MappingsFile {
    pub characters: Vec<CharacterEntry>,
    pub weapons: Vec<WeaponEntry>,
    pub artifact_sets: Vec<ArtifactSetEntry>,
}

/// The names that the player gave to characters that can be renamed.
#[derive(Debug, Clone)]
pub struct NameOverrides {
    pub traveler_name: Option<String>,
    pub wanderer_name: Option<String>,
    pub manekin_name: Option<String>,
    pub manekina_name: Option<String>,
}

impl Default for NameOverrides {
    fn default() -> (o: Self)
        ensures
            o.traveler_name is None,
            o.wanderer_name is None,
            o.manekin_name is None,
            o.manekina_name is None,
    {
        NameOverrides {
            traveler_name: None,
            wanderer_name: None,
            manekin_name: None,
            manekina_name: None,
        }
    }
}

/// A map from texts to texts holds these names and keys.
pub open spec fn holds_texts(
    map: Map<Seq<char>, String>,
    model: Map<Seq<char>, Seq<char>>,
) -> bool {
    map.dom() == model.dom() && forall|n: Seq<char>| #[trigger]
        map.contains_key(n) ==> map[n]@ == model[n]
}

/// The names and keys of the first `n` characters; a later entry of the same
/// name counts.
pub open spec fn character_names(entries: Seq<CharacterEntry>, n: nat) -> Map<Seq<char>, Seq<char>>
    decreases n,
{
    if n == 0 {
        Map::empty()
    } else {
        let earlier = character_names(entries, (n - 1) as nat);
        match entries[n - 1].zh {
            Some(name) => earlier.insert(name@, entries[n - 1].id@),
            None => earlier,
        }
    }
}

/// The names and keys of the first `n` weapons.
pub open spec fn weapon_names(entries: Seq<WeaponEntry>, n: nat) -> Map<Seq<char>, Seq<char>>
    decreases n,
{
    if n == 0 {
        Map::empty()
    } else {
        let earlier = weapon_names(entries, (n - 1) as nat);
        match entries[n - 1].zh {
            Some(name) => earlier.insert(name@, entries[n - 1].id@),
            None => earlier,
        }
    }
}

/// The names and keys of the first `n` artifact sets.
pub open spec fn set_names(entries: Seq<ArtifactSetEntry>, n: nat) -> Map<Seq<char>, Seq<char>>
    decreases n,
{
    if n == 0 {
        Map::empty()
    } else {
        let earlier = set_names(entries, (n - 1) as nat);
        match entries[n - 1].zh {
            Some(name) => earlier.insert(name@, entries[n - 1].id@),
            None => earlier,
        }
    }
}

/// The keys and highest rarities of the first `n` artifact sets.
pub open spec fn set_rarities(entries: Seq<ArtifactSetEntry>, n: nat) -> Map<Seq<char>, i32>
    decreases n,
{
    if n == 0 {
        Map::empty()
    } else {
        let earlier = set_rarities(entries, (n - 1) as nat);
        match entries[n - 1].rarity {
            Some(r) => earlier.insert(entries[n - 1].id@, r),
            None => earlier,
        }
    }
}

/// The keys of the first `n` characters that have a constellation bonus, with
/// the number of the entry that counts.
pub open spec fn bonus_entries(entries: Seq<CharacterEntry>, n: nat) -> Map<Seq<char>, int>
    decreases n,
{
    if n == 0 {
        Map::empty()
    } else {
        let earlier = bonus_entries(entries, (n - 1) as nat);
        if entries[n - 1].c3 is Some || entries[n - 1].c5 is Some {
            earlier.insert(entries[n - 1].id@, n - 1)
        } else {
            earlier
        }
    }
}

/// The names with one more that the player gave; blank names do not count.
pub open spec fn with_override(
    names: Map<Seq<char>, Seq<char>>,
    custom: Option<String>,
    key: Seq<char>,
) -> Map<Seq<char>, Seq<char>> {
    match custom {
        Some(name) => if crate::text::trimmed(name@).len() > 0 {
            names.insert(crate::text::trimmed(name@), key)
        } else {
            names
        },
        None => names,
    }
}

/// The names with all that the player gave.
pub open spec fn with_overrides(
    names: Map<Seq<char>, Seq<char>>,
    overrides: NameOverrides,
) -> Map<Seq<char>, Seq<char>> {
    let a = with_override(names, overrides.traveler_name, "Traveler"@);
    let b = with_override(a, overrides.wanderer_name, "Wanderer"@);
    let c = with_override(b, overrides.manekin_name, "Manekin"@);
    with_override(c, overrides.manekina_name, "Manekina"@)
}

/// The constellation bonuses are those of the entries that count.
pub open spec fn holds_bonuses(
    map: Map<Seq<char>, ConstBonus>,
    entries: Seq<CharacterEntry>,
    model: Map<Seq<char>, int>,
) -> bool {
    map.dom() == model.dom() && forall|k: Seq<char>| #[trigger]
        map.contains_key(k) ==> map[k].c3 == entries[model[k]].c3 && map[k].c5
            == entries[model[k]].c5
}

fn apply_override(map: &mut NameMap<String>, custom: &Option<String>, key: &str, Ghost(model): Ghost<
    Map<Seq<char>, Seq<char>>,
>)
    requires
        holds_texts(old(map)@, model),
    ensures
        holds_texts(final(map)@, with_override(model, *custom, key@)),
{
    if let Some(name) = custom {
        let trimmed = trim_text(name.as_str());
        if !trimmed.as_str().is_empty() {
            map.insert(trimmed, copy_of(key));
        }
    }
}

impl MappingManager {
    /// The maps that a data file and the player's names make up.
    pub fn new(data: &MappingsFile, overrides: &NameOverrides) -> (m: Self)
        ensures
            holds_texts(
                m.character_name_map@,
                with_overrides(
                    character_names(data.characters@, data.characters@.len()),
                    *overrides,
                ),
            ),
            holds_bonuses(
                m.character_const_bonus@,
                data.characters@,
                bonus_entries(data.characters@, data.characters@.len()),
            ),
            holds_texts(m.weapon_name_map@, weapon_names(data.weapons@, data.weapons@.len())),
            holds_texts(
                m.artifact_set_map@,
                set_names(data.artifact_sets@, data.artifact_sets@.len()),
            ),
            m.artifact_set_max_rarity@ == set_rarities(
                data.artifact_sets@,
                data.artifact_sets@.len(),
            ),
    {
        let mut character_name_map: NameMap<String> = NameMap::new();
        let mut character_const_bonus: NameMap<ConstBonus> = NameMap::new();
        let mut i: usize = 0;
        while i < data.characters.len()
            invariant
                i <= data.characters@.len(),
                holds_texts(character_name_map@, character_names(data.characters@, i as nat)),
                holds_bonuses(
                    character_const_bonus@,
                    data.characters@,
                    bonus_entries(data.characters@, i as nat),
                ),
            decreases data.characters@.len() - i,
        {
            let entry = &data.characters[i];
            if let Some(name) = &entry.zh {
                character_name_map.insert(name.clone(), entry.id.clone());
            }
            if entry.c3.is_some() || entry.c5.is_some() {
                let bonus = ConstBonus { c3: entry.c3.clone(), c5: entry.c5.clone() };
                character_const_bonus.insert(entry.id.clone(), bonus);
            }
            i = i + 1;
        }
        let mut weapon_name_map: NameMap<String> = NameMap::new();
        let mut i: usize = 0;
        while i < data.weapons.len()
            invariant
                i <= data.weapons@.len(),
                holds_texts(weapon_name_map@, weapon_names(data.weapons@, i as nat)),
            decreases data.weapons@.len() - i,
        {
            let entry = &data.weapons[i];
            if let Some(name) = &entry.zh {
                weapon_name_map.insert(name.clone(), entry.id.clone());
            }
            i = i + 1;
        }
        let mut artifact_set_map: NameMap<String> = NameMap::new();
        let mut artifact_set_max_rarity: NameMap<i32> = NameMap::new();
        let mut i: usize = 0;
        while i < data.artifact_sets.len()
            invariant
                i <= data.artifact_sets@.len(),
                holds_texts(artifact_set_map@, set_names(data.artifact_sets@, i as nat)),
                artifact_set_max_rarity@ == set_rarities(data.artifact_sets@, i as nat),
            decreases data.artifact_sets@.len() - i,
        {
            let entry = &data.artifact_sets[i];
            if let Some(name) = &entry.zh {
                artifact_set_map.insert(name.clone(), entry.id.clone());
            }
            if let Some(rarity) = entry.rarity {
                artifact_set_max_rarity.insert(entry.id.clone(), rarity);
            }
            i = i + 1;
        }
        let ghost m0 = character_names(data.characters@, data.characters@.len());
        apply_override(&mut character_name_map, &overrides.traveler_name, "Traveler", Ghost(m0));
        let ghost m1 = with_override(m0, overrides.traveler_name, "Traveler"@);
        apply_override(&mut character_name_map, &overrides.wanderer_name, "Wanderer", Ghost(m1));
        let ghost m2 = with_override(m1, overrides.wanderer_name, "Wanderer"@);
        apply_override(&mut character_name_map, &overrides.manekin_name, "Manekin", Ghost(m2));
        let ghost m3 = with_override(m2, overrides.manekin_name, "Manekin"@);
        apply_override(&mut character_name_map, &overrides.manekina_name, "Manekina", Ghost(m3));
        MappingManager {
            character_name_map,
            character_const_bonus,
            weapon_name_map,
            artifact_set_map,
            artifact_set_max_rarity,
        }
    }
}

/// The data is missing, or it was not fetched within the last day.
pub open spec fn data_is_stale(cache_exists: bool, now_secs: int, last_fetch_time: int) -> bool {
    !(cache_exists && last_fetch_time <= now_secs && now_secs - last_fetch_time
        < MAPPINGS_TTL_SECS)
}

/// Whether the data is to be fetched: it is missing or was not fetched within
/// the last day.
pub fn needs_fetch(cache_exists: bool, now_secs: u64, last_fetch_time: u64) -> (yes: bool)
    ensures
        yes == data_is_stale(cache_exists, now_secs as int, last_fetch_time as int),
{
    !(cache_exists && last_fetch_time <= now_secs && now_secs - last_fetch_time
        < MAPPINGS_TTL_SECS)
}

/// What to do after an attempt to fetch the data.
#[derive(Debug, Clone, Copy, PartialEq, Eq, Structural)]
pub enum FetchVerdict {
    /// Store what came, with the time.
    Store,
    /// Go on with the data of an earlier fetch.
    UseCache,
    /// There is no data.
    Fail,
}

/// What is done after an attempt to fetch the data.
pub open spec fn after_fetch(received: bool, cache_exists: bool) -> FetchVerdict {
    if received {
        FetchVerdict::Store
    } else if cache_exists {
        FetchVerdict::UseCache
    } else {
        FetchVerdict::Fail
    }
}

/// Decides what to do after an attempt to fetch the data.
pub fn fetch_verdict(received: bool, cache_exists: bool) -> (v: FetchVerdict)
    ensures
        v == after_fetch(received, cache_exists),
{
    if received {
        FetchVerdict::Store
    } else if cache_exists {
        FetchVerdict::UseCache
    } else {
        FetchVerdict::Fail
    }
}

/// Data stays fresh for one day of 24 hours; data that is missing or from the
/// future is fetched.
pub proof fn data_stays_fresh_for_a_day(now: int, age: int)
    ensures
        data_is_stale(true, now, now - age) <==> age < 0 || age >= 24 * 60 * 60,
        data_is_stale(false, now, now - age),
{
}

/// What was received is stored; without it earlier data serves, and without any
/// there is none.
pub proof fn earlier_data_serves(cache_exists: bool)
    ensures
        after_fetch(true, cache_exists) == FetchVerdict::Store,
        after_fetch(false, true) == FetchVerdict::UseCache,
        after_fetch(false, false) == FetchVerdict::Fail,
{
}

/// The name that a player gave to a character stands for it, without white space
/// around it; a blank name and a missing one change nothing, and all other names
/// stay.
pub proof fn given_names_stand_for_characters(
    names: Map<Seq<char>, Seq<char>>,
    name: String,
    key: Seq<char>,
    other: Seq<char>,
)
    ensures
        with_override(names, None, key) == names,
        crate::text::trimmed(name@).len() == 0 ==> with_override(names, Some(name), key) == names,
        crate::text::trimmed(name@).len() > 0 ==> {
            let more = with_override(names, Some(name), key);
            &&& more.contains_key(crate::text::trimmed(name@))
            &&& more[crate::text::trimmed(name@)] == key
            &&& other != crate::text::trimmed(name@) ==> (more.contains_key(other)
                == names.contains_key(other) && (names.contains_key(other) ==> more[other]
                == names[other]))
        },
{
}

/// Each of the four characters with a name of their own is named by its own
/// setting.
pub proof fn four_characters_can_be_named(
    names: Map<Seq<char>, Seq<char>>,
    name: String,
)
    requires
        crate::text::trimmed(name@).len() > 0,
    ensures
        ({
            let t = crate::text::trimmed(name@);
            let none = NameOverrides {
                traveler_name: None,
                wanderer_name: None,
                manekin_name: None,
                manekina_name: None,
            };
            &&& with_overrides(names, none) == names
            &&& with_overrides(
                names,
                NameOverrides { traveler_name: Some(name), ..none },
            )[t] == "Traveler"@
            &&& with_overrides(
                names,
                NameOverrides { wanderer_name: Some(name), ..none },
            )[t] == "Wanderer"@
            &&& with_overrides(
                names,
                NameOverrides { manekin_name: Some(name), ..none },
            )[t] == "Manekin"@
            &&& with_overrides(
                names,
                NameOverrides { manekina_name: Some(name), ..none },
            )[t] == "Manekina"@
        }),
{
}

/// The last entry of a list counts for its name: characters, weapons and sets are
/// found by their Chinese names, the rarity of a set by its key; an entry without a
/// name or a rarity adds nothing. Characters with a constellation that raises a
/// talent are found by their keys.
pub proof fn later_entries_count(
    characters: Seq<CharacterEntry>,
    weapons: Seq<WeaponEntry>,
    sets: Seq<ArtifactSetEntry>,
    n: nat,
)
    ensures
        characters[n as int].zh matches Some(name) ==> character_names(characters, n + 1)
            == character_names(characters, n).insert(name@, characters[n as int].id@),
        characters[n as int].zh is None ==> character_names(characters, n + 1) == character_names(
            characters,
            n,
        ),
        weapons[n as int].zh matches Some(name) ==> weapon_names(weapons, n + 1) == weapon_names(
            weapons,
            n,
        ).insert(name@, weapons[n as int].id@),
        weapons[n as int].zh is None ==> weapon_names(weapons, n + 1) == weapon_names(weapons, n),
        sets[n as int].zh matches Some(name) ==> set_names(sets, n + 1) == set_names(
            sets,
            n,
        ).insert(name@, sets[n as int].id@),
        sets[n as int].zh is None ==> set_names(sets, n + 1) == set_names(sets, n),
        sets[n as int].rarity matches Some(r) ==> set_rarities(sets, n + 1) == set_rarities(
            sets,
            n,
        ).insert(sets[n as int].id@, r),
        sets[n as int].rarity is None ==> set_rarities(sets, n + 1) == set_rarities(sets, n),
        characters[n as int].c3 is Some || characters[n as int].c5 is Some ==> bonus_entries(
            characters,
            n + 1,
        ) == bonus_entries(characters, n).insert(characters[n as int].id@, n as int),
        characters[n as int].c3 is None && characters[n as int].c5 is None ==> bonus_entries(
            characters,
            n + 1,
        ) == bonus_entries(characters, n),
        character_names(characters, 0) == Map::<Seq<char>, Seq<char>>::empty(),
{
}

} // verus!
