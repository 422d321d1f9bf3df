//! Scanning all characters.
use crate::good_common::stat_parser::{ascension, level_to_ascension};
use crate::number::decimal_int_chars;
use crate::scanner::character::config::GoodCharacterScannerConfig;
use crate::scanner::character::level::{
    doubtful_level, impossible_level, is_level_suspicious,
};
use crate::scanner::character::name::{element_for, exported_element};
use crate::scanner::character::talents::{
    adjust_talents, adjusted_talents, max_talent_for_ascension, talent_limit,
};
use crate::scanner::common::debug_fields::{field, field_of, fields_of, nowhere, Field};
use crate::scanner::common::mappings::{ConstBonus, MappingManager};
use crate::scanner::common::models::{DebugOcrField, GoodCharacter, GoodTalent};
use crate::scanner::common::ocr::BaseRect;
use crate::text::{append, copy_of, joined, same_text, string_of, trim_text, truth};
use vstd::prelude::*;

verus! {

/// What is known of a scan beside the character.
#[derive(Debug, Clone, Copy, PartialEq, Eq, Structural)]
pub struct ScanMeta {
    /// A talent was too low to have the bonus of a constellation.
    pub talent_suspicious: bool,
    /// The skill level as it was shown.
    pub raw_skill: i32,
    /// The burst level as it was shown.
    pub raw_burst: i32,
}

/// What is read of a character, in the order of the tabs or in the reverse.
#[derive(Debug, Clone, Copy, PartialEq, Eq, Structural)]
pub enum Stage {
    Level,
    Constellation,
    Talents,
}

/// The stages of a scan: every other character is scanned from the last tab to
/// the first.
pub open spec fn stages(reverse: bool) -> Seq<Stage> {
    if reverse {
        seq![Stage::Talents, Stage::Constellation, Stage::Level]
    } else {
        seq![Stage::Level, Stage::Constellation, Stage::Talents]
    }
}

/// A stage of a scan.
pub fn stage(reverse: bool, i: usize) -> (s: Stage)
    requires
        i < 3,
    ensures
        s == stages(reverse)[i as int],
{
    if i == 1 {
        Stage::Constellation
    } else if (i == 0) == reverse {
        Stage::Talents
    } else {
        Stage::Level
    }
}

/// The character by what was read of it.
pub open spec fn character_is(
    c: GoodCharacter,
    meta: ScanMeta,
    name: Seq<char>,
    element: Option<Seq<char>>,
    level: int,
    ascended: bool,
    constellation: int,
    talents: (int, int, int),
    bonuses: Map<Seq<char>, ConstBonus>,
) -> bool {
    let t = adjusted_talents(talents.0, talents.1, talents.2, name, constellation, bonuses);
    &&& c.key@ == name
    &&& c.level == level
    &&& c.ascension == ascension(level, ascended)
    &&& c.constellation == constellation
    &&& c.talent.auto == t.0
    &&& c.talent.skill == t.1
    &&& c.talent.burst == t.2
    &&& crate::text::text_of(c.element) == exported_element(name, element)
    &&& meta.talent_suspicious == t.3
    &&& meta.raw_skill == talents.1
    &&& meta.raw_burst == talents.2
}

/// The character by what was read of it.
pub fn scan_single_character(
    name: String,
    element: &Option<String>,
    level_info: (i32, bool),
    constellation: i32,
    talents: (i32, i32, i32),
    mappings: &MappingManager,
) -> (r: (GoodCharacter, ScanMeta))
    ensures
        character_is(
            r.0,
            r.1,
            name@,
            crate::text::text_of(*element),
            level_info.0 as int,
            level_info.1,
            constellation as int,
            (talents.0 as int, talents.1 as int, talents.2 as int),
            mappings.character_const_bonus@,
        ),
{
    let (auto, skill, burst, low) = adjust_talents(
        talents.0,
        talents.1,
        talents.2,
        name.as_str(),
        constellation,
        &mappings.character_const_bonus,
    );
    let shown = element_for(name.as_str(), element);
    (
        GoodCharacter {
            key: name,
            level: level_info.0,
            constellation,
            ascension: level_to_ascension(level_info.0, level_info.1),
            talent: GoodTalent { auto, skill, burst },
            element: shown,
        },
        ScanMeta { talent_suspicious: low, raw_skill: talents.1, raw_burst: talents.2 },
    )
}

/// The result of a scan may be misread: its level, a shown talent of one from
/// level 40 on, talents above the limit of the ascension, or a talent that was
/// too low to have its bonus.
pub open spec fn doubtful(c: GoodCharacter, meta: Option<ScanMeta>) -> bool {
    let limit = talent_limit(c.ascension as int);
    ||| doubtful_level(c.level as int, false)
    ||| c.level >= 40 && meta is Some && (meta->0.raw_skill == 1 || meta->0.raw_burst == 1)
    ||| c.talent.auto > limit || c.talent.skill > limit || c.talent.burst > limit
    ||| meta is Some && meta->0.talent_suspicious
}

/// Whether the result of a scan may be misread.
pub fn is_character_suspicious(c: &GoodCharacter, meta: Option<ScanMeta>) -> (yes: bool)
    ensures
        yes == doubtful(*c, meta),
{
    if is_level_suspicious(c.level, false) {
        return true;
    }
    if c.level >= 40 {
        match meta {
            Some(m) => if m.raw_skill == 1 || m.raw_burst == 1 {
                return true;
            },
            None => {},
        }
    }
    let limit: i32 = max_talent_for_ascension(c.ascension);
    if c.talent.auto > limit || c.talent.skill > limit || c.talent.burst > limit {
        return true;
    }
    match meta {
        Some(m) => m.talent_suspicious,
        None => false,
    }
}

/// What came of showing one character.
#[derive(Debug)]
pub enum CharacterEvent {
    /// It was scanned.
    Scanned(GoodCharacter, ScanMeta),
    /// It was left out.
    Skipped,
    /// The first character is shown again.
    Repeat,
    /// The scan of it failed.
    Failed,
}

/// What to do after a character.
#[derive(Debug, Clone, Copy, PartialEq, Eq, Structural)]
pub enum Next {
    /// Show the next character.
    Continue,
    /// All characters were scanned.
    Complete,
    /// So many as wanted were scanned.
    Enough,
    /// A failure ends the scan.
    Failed,
    /// Nothing was recognised.
    NothingFound,
    /// Too many failures in a row.
    TooManyFailures,
}

/// How many failures in a row end a scan.
pub const MAX_FAILURES: usize = 5;

/// How many characters are shown without any result at most.
pub const MAX_VIEWED: u64 = 3;

/// No later character has the key of the first.
pub open spec fn first_comes_once(characters: Seq<GoodCharacter>) -> bool {
    forall|i: int| 0 < i < characters.len() ==> (#[trigger] characters[i]).key@ != characters[0].key@
}

/// The scan of all characters.
#[derive(Debug)]
pub struct CharacterScan {
    pub characters: Vec<GoodCharacter>,
    pub metas: Vec<ScanMeta>,
    /// The key of the first character.
    pub first_name: Option<String>,
    pub viewed: u64,
    pub failures: usize,
    /// Whether the next character is scanned from the last tab to the first.
    pub reverse: bool,
    pub max_count: usize,
    pub go_on: bool,
}

impl CharacterScan {
    /// The first name is that of the first character, there is a note for each
    /// character, and the scan has not ended by its failures.
    pub open spec fn valid(&self) -> bool {
        &&& self.characters@.len() == self.metas@.len()
        &&& self.failures < MAX_FAILURES
        &&& match self.first_name {
            Some(n) => self.characters@.len() > 0 && n@ == self.characters@[0].key@,
            None => self.characters@.len() == 0,
        }
        &&& first_comes_once(self.characters@)
    }

    /// The scan has come back to the first character.
    pub open spec fn came_round(&self, event: CharacterEvent) -> bool {
        match event {
            CharacterEvent::Repeat => true,
            CharacterEvent::Scanned(c, _) => crate::text::text_of(self.first_name) == Some(c.key@),
            _ => false,
        }
    }

    /// What to do once so many characters were shown.
    pub open spec fn verdict(found: int, viewed: int, failures: int, max_count: int) -> Next {
        if max_count > 0 && found >= max_count {
            Next::Enough
        } else if viewed > MAX_VIEWED && found == 0 {
            Next::NothingFound
        } else if failures >= MAX_FAILURES {
            Next::TooManyFailures
        } else {
            Next::Continue
        }
    }

    /// The scan after a character was shown, and what comes next. The next
    /// character is read in the other direction.
    pub open spec fn followed(&self, event: CharacterEvent, after: Self, next: Next) -> bool {
        if self.came_round(event) {
            after == *self && next is Complete
        } else {
            &&& after.reverse == if next is Continue {
                !self.reverse
            } else {
                self.reverse
            }
            &&& match event {
                CharacterEvent::Scanned(c, meta) => {
                    &&& after.characters@ == self.characters@.push(c)
                    &&& after.metas@ == self.metas@.push(meta)
                    &&& after.failures == 0
                    &&& after.first_name is Some
                    &&& after.first_name->0@ == if self.first_name is Some {
                        self.first_name->0@
                    } else {
                        c.key@
                    }
                },
                _ => {
                    &&& after.characters@ == self.characters@
                    &&& after.metas@ == self.metas@
                    &&& after.failures == self.failures + 1
                    &&& after.first_name == self.first_name
                },
            }
            &&& if event is Failed && !self.go_on {
                next is Failed && after.viewed == self.viewed
            } else {
                after.viewed == self.viewed + 1 && next == Self::verdict(
                    after.characters@.len() as int,
                    after.viewed as int,
                    after.failures as int,
                    self.max_count as int,
                )
            }
        }
    }

    /// A scan with its settings.
    pub fn new(config: &GoodCharacterScannerConfig) -> (s: Self)
        ensures
            s.valid(),
            s.characters@.len() == 0,
            s.metas@.len() == 0,
            s.first_name is None,
            s.viewed == 0,
            s.failures == 0,
            !s.reverse,
            s.max_count == config.max_count,
            s.go_on == config.continue_on_failure,
    {
        CharacterScan {
            characters: Vec::new(),
            metas: Vec::new(),
            first_name: None,
            viewed: 0,
            failures: 0,
            reverse: false,
            max_count: config.max_count,
            go_on: config.continue_on_failure,
        }
    }

    /// A character was shown. The first one shown again ends the scan, and is not
    /// kept a second time.
    pub fn after(&mut self, event: CharacterEvent) -> (next: Next)
        requires
            old(self).valid(),
            old(self).viewed < u64::MAX,
        ensures
            final(self).max_count == old(self).max_count,
            final(self).go_on == old(self).go_on,
            next is Continue ==> final(self).valid(),
            first_comes_once(final(self).characters@),
            old(self).followed(event, *final(self), next),
    {
        match event {
            CharacterEvent::Scanned(c, meta) => {
                if is_same_character(&self.first_name, &c) {
                    return Next::Complete;
                }
                if self.first_name.is_none() {
                    self.first_name = Some(copy_of(c.key.as_str()));
                }
                self.characters.push(c);
                self.metas.push(meta);
                self.failures = 0;
            },
            CharacterEvent::Skipped => {
                self.failures = self.failures + 1;
            },
            CharacterEvent::Repeat => {
                return Next::Complete;
            },
            CharacterEvent::Failed => {
                self.failures = self.failures + 1;
                if !self.go_on {
                    return Next::Failed;
                }
            },
        }
        self.viewed = self.viewed + 1;
        let found: usize = self.characters.len();
        if self.max_count > 0 && found >= self.max_count {
            return Next::Enough;
        }
        if self.viewed > MAX_VIEWED && found == 0 {
            return Next::NothingFound;
        }
        if self.failures >= MAX_FAILURES {
            return Next::TooManyFailures;
        }
        self.reverse = !self.reverse;
        Next::Continue
    }
}

/// The characters among the first `n` whose results may be misread.
pub open spec fn doubtful_among(
    characters: Seq<GoodCharacter>,
    metas: Seq<ScanMeta>,
    n: nat,
) -> Seq<usize>
    decreases n,
{
    if n == 0 {
        Seq::empty()
    } else {
        let earlier = doubtful_among(characters, metas, (n - 1) as nat);
        let i = n - 1;
        let meta = if i < metas.len() {
            Some(metas[i])
        } else {
            None
        };
        if doubtful(characters[i], meta) {
            earlier.push(i as usize)
        } else {
            earlier
        }
    }
}

/// The characters whose results may be misread.
pub fn suspicious_indices(characters: &Vec<GoodCharacter>, metas: &Vec<ScanMeta>) -> (list: Vec<
    usize,
>)
    ensures
        list@ == doubtful_among(characters@, metas@, characters@.len()),
        forall|k: int| 0 <= k < list@.len() ==> #[trigger] list@[k] < characters@.len(),
{
    let mut list: Vec<usize> = Vec::new();
    let mut i: usize = 0;
    while i < characters.len()
        invariant
            i <= characters@.len(),
            list@ == doubtful_among(characters@, metas@, i as nat),
            forall|k: int| 0 <= k < list@.len() ==> #[trigger] list@[k] < characters@.len(),
        decreases characters@.len() - i,
    {
        let meta = if i < metas.len() {
            Some(metas[i])
        } else {
            None
        };
        if is_character_suspicious(&characters[i], meta) {
            list.push(i);
        }
        i = i + 1;
    }
    list
}

/// How to come to a character in the second pass: whether the screen is opened
/// again first, and how often to go on to the next character.
pub open spec fn way_to(current: int, target: int) -> (bool, int) {
    if target >= current {
        (false, target - current)
    } else {
        (true, target)
    }
}

/// Whether the screen is opened again on the way to a character, and how often the
/// next character is gone to.
pub fn steps_to(current: usize, target: usize) -> (r: (bool, usize))
    ensures
        (r.0, r.1 as int) == way_to(current as int, target as int),
{
    if target >= current {
        (false, target - current)
    } else {
        (true, target)
    }
}

/// The name is that of the character.
pub fn is_same_character(name: &Option<String>, c: &GoodCharacter) -> (yes: bool)
    ensures
        yes == (crate::text::text_of(*name) == Some(c.key@)),
{
    match name {
        Some(n) => same_text(n.as_str(), c.key.as_str()),
        None => false,
    }
}

/// What was read of a character in the second pass; what could not be read is
/// missing.
#[derive(Debug, Clone, Copy)]
pub struct SecondReading {
    pub level: Option<(i32, bool)>,
    pub constellation: Option<i32>,
    pub talents: Option<(i32, i32, i32)>,
}

/// How many talents are at level one.
pub open spec fn ones(t: (int, int, int)) -> int {
    (if t.0 == 1 {
        1int
    } else {
        0
    }) + (if t.1 == 1 {
        1int
    } else {
        0
    }) + (if t.2 == 1 {
        1int
    } else {
        0
    })
}

/// The level of the second reading, or the old one.
pub open spec fn second_level(c: GoodCharacter, r: SecondReading) -> (int, bool) {
    match r.level {
        Some((level, ascended)) => (level as int, ascended),
        None => (c.level as int, false),
    }
}

/// The constellation of the second reading, or the old one.
pub open spec fn second_constellation(c: GoodCharacter, r: SecondReading) -> int {
    match r.constellation {
        Some(n) => n as int,
        None => c.constellation as int,
    }
}

/// The talents of the second reading without their bonuses, or the old ones.
pub open spec fn second_talents(
    c: GoodCharacter,
    r: SecondReading,
    bonuses: Map<Seq<char>, ConstBonus>,
) -> (int, int, int) {
    match r.talents {
        Some((auto, skill, burst)) => {
            let t = adjusted_talents(
                auto as int,
                skill as int,
                burst as int,
                c.key@,
                second_constellation(c, r),
                bonuses,
            );
            (t.0, t.1, t.2)
        },
        None => talents_of(c),
    }
}

/// The talents of a character.
pub open spec fn talents_of(c: GoodCharacter) -> (int, int, int) {
    (c.talent.auto as int, c.talent.skill as int, c.talent.burst as int)
}

/// A character after its second reading: a higher level counts, another
/// constellation counts, and the talents count with another constellation or
/// where fewer of them are at level one.
pub open spec fn reread(
    old_c: GoodCharacter,
    r: SecondReading,
    bonuses: Map<Seq<char>, ConstBonus>,
    c: GoodCharacter,
) -> bool {
    let level = second_level(old_c, r);
    let constellation = second_constellation(old_c, r);
    let talents = second_talents(old_c, r, bonuses);
    let higher = level.0 > old_c.level;
    let other = constellation != old_c.constellation;
    let fewer = ones(talents) < ones(talents_of(old_c));
    &&& c.key@ == old_c.key@
    &&& crate::text::text_of(c.element) == crate::text::text_of(old_c.element)
    &&& c.level == if higher {
        level.0
    } else {
        old_c.level as int
    }
    &&& c.ascension == if higher {
        ascension(level.0, level.1)
    } else {
        old_c.ascension as int
    }
    &&& c.constellation == constellation
    &&& talents_of(c) == if other || fewer {
        talents
    } else {
        talents_of(old_c)
    }
}

fn count_ones(a: i32, s: i32, b: i32) -> (n: usize)
    ensures
        n == ones((a as int, s as int, b as int)),
{
    let x: usize = if a == 1 {
        1
    } else {
        0
    };
    let y: usize = if s == 1 {
        1
    } else {
        0
    };
    let z: usize = if b == 1 {
        1
    } else {
        0
    };
    x + y + z
}

/// Takes the better parts of a second reading over, if the name that was read
/// with it is that of the character.
pub fn rescan_suspicious(
    characters: &mut Vec<GoodCharacter>,
    index: usize,
    name: &Option<String>,
    r: &SecondReading,
    mappings: &MappingManager,
)
    requires
        index < old(characters)@.len(),
    ensures
        final(characters)@.len() == old(characters)@.len(),
        if crate::text::text_of(*name) == Some(old(characters)@[index as int].key@) {
            reread(
                old(characters)@[index as int],
                *r,
                mappings.character_const_bonus@,
                final(characters)@[index as int],
            )
        } else {
            final(characters)@[index as int] == old(characters)@[index as int]
        },
        forall|i: int|
            0 <= i < final(characters)@.len() && i != index ==> #[trigger] final(characters)@[i]
                == old(characters)@[i],
{
    let c = &characters[index];
    if !is_same_character(name, c) {
        return;
    }
    let (level, ascended) = match r.level {
        Some(l) => l,
        None => (c.level, false),
    };
    let constellation: i32 = match r.constellation {
        Some(n) => n,
        None => c.constellation,
    };
    let (auto, skill, burst) = match r.talents {
        Some(raw) => {
            let t = adjust_talents(
                raw.0,
                raw.1,
                raw.2,
                c.key.as_str(),
                constellation,
                &mappings.character_const_bonus,
            );
            (t.0, t.1, t.2)
        },
        None => (c.talent.auto, c.talent.skill, c.talent.burst),
    };
    let higher = level > c.level;
    let other = constellation != c.constellation;
    let fewer = count_ones(auto, skill, burst) < count_ones(
        c.talent.auto,
        c.talent.skill,
        c.talent.burst,
    );
    let element = match &c.element {
        Some(e) => Some(copy_of(e.as_str())),
        None => None,
    };
    let fresh = GoodCharacter {
        key: copy_of(c.key.as_str()),
        level: if higher {
            level
        } else {
            c.level
        },
        constellation,
        ascension: if higher {
            level_to_ascension(level, ascended)
        } else {
            c.ascension
        },
        talent: if other || fewer {
            GoodTalent { auto, skill, burst }
        } else {
            c.talent
        },
        element,
    };
    characters.set(index, fresh);
}

/// A character with a level that exists: an impossible one is brought to the
/// level before it.
pub open spec fn sane(old_c: GoodCharacter, c: GoodCharacter) -> bool {
    let level = if 91 <= old_c.level <= 94 {
        90
    } else {
        95int
    };
    if impossible_level(old_c.level as int) {
        &&& c.key == old_c.key
        &&& c.level == level
        &&& c.ascension == ascension(level, false)
        &&& c.constellation == old_c.constellation
        &&& c.talent == old_c.talent
        &&& c.element == old_c.element
    } else {
        c == old_c
    }
}

/// Brings impossible levels to the level before them.
pub fn sanitize_levels(characters: &mut Vec<GoodCharacter>)
    ensures
        final(characters)@.len() == old(characters)@.len(),
        forall|i: int|
            0 <= i < final(characters)@.len() ==> sane(
                old(characters)@[i],
                #[trigger] final(characters)@[i],
            ) && !impossible_level(final(characters)@[i].level as int),
{
    let ghost before = characters@;
    let mut i: usize = 0;
    while i < characters.len()
        invariant
            i <= characters@.len(),
            before == old(characters)@,
            characters@.len() == before.len(),
            forall|k: int| i <= k < characters@.len() ==> #[trigger] characters@[k] == before[k],
            forall|k: int|
                0 <= k < i ==> sane(before[k], #[trigger] characters@[k]) && !impossible_level(
                    characters@[k].level as int,
                ),
        decreases characters@.len() - i,
    {
        let level: i32 = characters[i].level;
        assert(characters@[i as int] == before[i as int]);
        if 91 <= level && level <= 94 {
            characters[i].level = 90;
            characters[i].ascension = level_to_ascension(90, false);
        } else if 96 <= level && level <= 99 {
            characters[i].level = 95;
            characters[i].ascension = level_to_ascension(95, false);
        }
        i = i + 1;
    }
}

/// A second reading never lowers the level, and what could not be read again
/// stays as it was.
pub proof fn second_reading_never_lowers(
    old_c: GoodCharacter,
    r: SecondReading,
    bonuses: Map<Seq<char>, ConstBonus>,
    c: GoodCharacter,
)
    requires
        reread(old_c, r, bonuses, c),
    ensures
        c.level >= old_c.level,
        c.key@ == old_c.key@,
        c.constellation == old_c.constellation ==> ones(talents_of(c)) <= ones(talents_of(old_c)),
        r.level is None && r.constellation is None ==> c.level == old_c.level && c.ascension
            == old_c.ascension && c.constellation == old_c.constellation,
        r.talents is None ==> talents_of(c) == talents_of(old_c),
{
}

/// A second reading with no higher level, no other constellation and no fewer
/// talents at level one changes nothing, and each part of the character changes
/// only where its own reading counts.
pub proof fn a_reading_that_is_no_better_changes_nothing(
    old_c: GoodCharacter,
    r: SecondReading,
    bonuses: Map<Seq<char>, ConstBonus>,
    c: GoodCharacter,
)
    requires
        reread(old_c, r, bonuses, c),
    ensures
        c.key@ == old_c.key@,
        crate::text::text_of(c.element) == crate::text::text_of(old_c.element),
        second_level(old_c, r).0 <= old_c.level ==> c.level == old_c.level && c.ascension
            == old_c.ascension,
        second_constellation(old_c, r) == old_c.constellation ==> c.constellation
            == old_c.constellation,
        second_constellation(old_c, r) == old_c.constellation && ones(
            second_talents(old_c, r, bonuses),
        ) >= ones(talents_of(old_c)) ==> talents_of(c) == talents_of(old_c),
{
}

/// What to do after an attempt to open the character screen.
#[derive(Debug, Clone, Copy, PartialEq, Eq, Structural)]
pub enum ScreenStep {
    /// The screen is open.
    Opened,
    /// Return to the main view and try again.
    Retry,
    /// The attempts are used up.
    GiveUp,
}

/// What follows from an attempt, the first of them 0, and from the text in the
/// place of the name.
pub open spec fn screen_step(attempt: int, text: Seq<char>) -> ScreenStep {
    if crate::text::trimmed(text).len() > 0 {
        ScreenStep::Opened
    } else if attempt + 1 < OPEN_ATTEMPTS {
        ScreenStep::Retry
    } else {
        ScreenStep::GiveUp
    }
}

/// How often opening the character screen is tried.
pub const OPEN_ATTEMPTS: usize = 3;

/// What to do after an attempt, the first of them 0: the screen is open where a
/// text stands in the place of the name.
pub fn after_opening(attempt: usize, text: &str) -> (step: ScreenStep)
    ensures
        step == screen_step(attempt as int, text@),
{
    let bare = trim_text(text);
    if !bare.as_str().is_empty() {
        ScreenStep::Opened
    } else if attempt < OPEN_ATTEMPTS - 1 {
        ScreenStep::Retry
    } else {
        ScreenStep::GiveUp
    }
}

/// The delay between two steps when characters are passed over.
pub open spec fn passing_delay(next_delay: int) -> int {
    if next_delay / 2 > 100 {
        next_delay / 2
    } else {
        100
    }
}

/// The delay between two steps when characters are passed over.
pub fn skip_delay(next_delay: u64) -> (ms: u64)
    ensures
        ms == passing_delay(next_delay as int),
{
    if next_delay / 2 > 100 {
        next_delay / 2
    } else {
        100
    }
}

/// What a detailed scan of a character gave.
#[derive(Debug)]
pub struct CharacterReading {
    pub raw_name: String,
    /// The key, empty where the name is not known.
    pub key: String,
    pub element: Option<String>,
    pub level: i32,
    pub ascended: bool,
    pub constellation: i32,
    pub talents: GoodTalent,
}

/// The fields of a detailed scan.
pub open spec fn character_fields(
    r: CharacterReading,
    name_rect: BaseRect,
    level_rect: BaseRect,
) -> Seq<Field> {
    let none = Seq::<char>::empty();
    let element = match r.element {
        Some(e) => e@,
        None => "?"@,
    };
    seq![
        ("name"@, r.raw_name@, r.key@ + " ("@ + element + ")"@, name_rect),
        (
            "level"@,
            none,
            "lv="@ + crate::number::decimal_int(r.level as int) + " ascended="@
                + crate::text::truth_text(r.ascended) + " asc="@ + crate::number::decimal_int(
                ascension(r.level as int, r.ascended),
            ),
            level_rect,
        ),
        (
            "constellation"@,
            none,
            "C"@ + crate::number::decimal_int(r.constellation as int),
            nowhere(),
        ),
        (
            "talents"@,
            none,
            crate::number::decimal_int(r.talents.auto as int) + "/"@ + crate::number::decimal_int(
                r.talents.skill as int,
            ) + "/"@ + crate::number::decimal_int(r.talents.burst as int),
            nowhere(),
        ),
    ]
}

fn number_text(n: i32) -> (t: String)
    ensures
        t@ == crate::number::decimal_int(n as int),
{
    string_of(&decimal_int_chars(n as i64))
}

/// The character scanner.
#[derive(Debug)]
pub struct GoodCharacterScanner {
    pub config: GoodCharacterScannerConfig,
    /// The characters without a constellation.
    pub no_constellation: Vec<String>,
    /// The characters with a further talent before their burst.
    pub special_burst: Vec<String>,
}

impl GoodCharacterScanner {
    /// A scanner with its settings.
    pub fn new(
        config: GoodCharacterScannerConfig,
        no_constellation: Vec<String>,
        special_burst: Vec<String>,
    ) -> (s: Self)
        ensures
            s.config == config,
            s.no_constellation == no_constellation,
            s.special_burst == special_burst,
    {
        GoodCharacterScanner { config, no_constellation, special_burst }
    }

    /// A scan of all characters.
    pub fn scan(&self) -> (s: CharacterScan)
        ensures
            s.valid(),
            s.characters@.len() == 0,
            s.metas@.len() == 0,
            s.first_name is None,
            s.viewed == 0,
            s.failures == 0,
            !s.reverse,
            s.max_count == self.config.max_count,
            s.go_on == self.config.continue_on_failure,
    {
        CharacterScan::new(&self.config)
    }

    /// The fields of a detailed scan, and the character; its talents are left as
    /// they are shown.
    pub fn debug_scan_current(
        r: &CharacterReading,
        name_rect: BaseRect,
        level_rect: BaseRect,
    ) -> (out: (Vec<DebugOcrField>, GoodCharacter))
        ensures
            fields_of(out.0@) == character_fields(*r, name_rect, level_rect),
            out.1.key@ == r.key@,
            out.1.level == r.level,
            out.1.ascension == ascension(r.level as int, r.ascended),
            out.1.constellation == r.constellation,
            out.1.talent == r.talents,
            crate::text::text_of(out.1.element) == exported_element(
                r.key@,
                crate::text::text_of(r.element),
            ),
    {
        let phase: i32 = level_to_ascension(r.level, r.ascended);
        let mut name = joined(r.key.as_str(), " (");
        match &r.element {
            Some(e) => append(&mut name, e.as_str()),
            None => append(&mut name, "?"),
        }
        append(&mut name, ")");
        let mut level = joined("lv=", number_text(r.level).as_str());
        append(&mut level, " ascended=");
        append(&mut level, truth(r.ascended));
        append(&mut level, " asc=");
        append(&mut level, number_text(phase).as_str());
        let constellation = joined("C", number_text(r.constellation).as_str());
        let mut talents = joined(number_text(r.talents.auto).as_str(), "/");
        append(&mut talents, number_text(r.talents.skill).as_str());
        append(&mut talents, "/");
        append(&mut talents, number_text(r.talents.burst).as_str());
        let mut fields: Vec<DebugOcrField> = Vec::new();
        fields.push(field("name", r.raw_name.as_str(), name.as_str(), name_rect));
        fields.push(field("level", "", level.as_str(), level_rect));
        fields.push(field("constellation", "", constellation.as_str(), (0, 0, 0, 0)));
        fields.push(field("talents", "", talents.as_str(), (0, 0, 0, 0)));
        proof {
            reveal_strlit("");
            assert(""@ =~= Seq::<char>::empty());
            let expected = character_fields(*r, name_rect, level_rect);
            assert(field_of(fields@[0]) == expected[0]);
            assert(field_of(fields@[1]) == expected[1]);
            assert(field_of(fields@[2]) == expected[2]);
            assert(field_of(fields@[3]) == expected[3]);
            assert(fields_of(fields@) =~= expected);
        }
        let element = element_for(r.key.as_str(), &r.element);
        (
            fields,
            GoodCharacter {
                key: copy_of(r.key.as_str()),
                level: r.level,
                constellation: r.constellation,
                ascension: phase,
                talent: r.talents,
                element,
            },
        )
    }
}

/// A character is told by its key; its level, constellation and talents are those
/// that were read, the talents without their bonuses, and its phase goes with its
/// level. The talents that were read are kept beside it.
pub proof fn characters_are_what_was_read(
    c: GoodCharacter,
    meta: ScanMeta,
    name: Seq<char>,
    element: Option<Seq<char>>,
    level: int,
    ascended: bool,
    constellation: int,
    talents: (int, int, int),
    bonuses: Map<Seq<char>, ConstBonus>,
)
    requires
        character_is(
            c,
            meta,
            name,
            element,
            level,
            ascended,
            constellation,
            talents,
            bonuses,
        ),
    ensures
        c.key@ == name,
        c.level == level,
        c.constellation == constellation,
        c.ascension == crate::good_common::stat_laws::limits_passed(level) + if ascended && (level
            == 20 || level == 40 || level == 50 || level == 60 || level == 70 || level == 80) {
            1int
        } else {
            0int
        },
        !bonuses.contains_key(name) && name != "Traveler"@ && name != "Tartaglia"@ ==> talents_of(c)
            == talents && !meta.talent_suspicious,
        bonuses.contains_key(name) && name != "Tartaglia"@ ==> c.talent.auto
            == crate::scanner::character::talents::base_of(
            talents.0,
            crate::scanner::character::talents::times_raised(
                bonuses[name],
                constellation,
                "A"@,
            ),
        ) && c.talent.skill == crate::scanner::character::talents::base_of(
            talents.1,
            crate::scanner::character::talents::times_raised(
                bonuses[name],
                constellation,
                "E"@,
            ),
        ) && c.talent.burst == crate::scanner::character::talents::base_of(
            talents.2,
            crate::scanner::character::talents::times_raised(
                bonuses[name],
                constellation,
                "Q"@,
            ),
        ),
        meta.raw_skill == talents.1,
        meta.raw_burst == talents.2,
        name != "Traveler"@ && name != "Manekin"@ && name != "Manekina"@ ==> c.element is None,
{
    crate::good_common::stat_laws::phases_count_limits(level);
    if bonuses.contains_key(name) {
        crate::scanner::character::talents::bonuses_of_the_table_come_off(
            talents.0,
            talents.1,
            talents.2,
            name,
            constellation,
            bonuses,
        );
    }
}

/// A scan ends where as many characters were found as are wanted, where four were
/// shown and none was known, or after five failures in a row; else it goes on.
pub proof fn scans_end_for_three_reasons(
    found: int,
    viewed: int,
    failures: int,
    max_count: int,
)
    requires
        0 <= found,
        0 <= max_count,
    ensures
        CharacterScan::verdict(found, viewed, failures, max_count) is Enough <==> max_count > 0
            && found >= max_count,
        found == 0 && viewed >= 4 ==> CharacterScan::verdict(found, viewed, failures, max_count)
            is NothingFound,
        CharacterScan::verdict(found, viewed, failures, max_count) is NothingFound ==> found == 0
            && viewed >= 4,
        CharacterScan::verdict(found, viewed, failures, max_count) is TooManyFailures
            ==> failures >= 5,
        CharacterScan::verdict(found, viewed, failures, max_count) is Continue <==> (max_count == 0
            || found < max_count) && (found > 0 || viewed < 4) && failures < 5,
{
}

/// A character that was scanned is kept at the end with its readings, unless it is
/// the first one again, which ends the scan; one that was not known counts as a
/// failure, and a failure ends the scan at once unless it is to go on.
pub proof fn scanned_characters_are_kept(
    before: CharacterScan,
    event: CharacterEvent,
    after: CharacterScan,
    next: Next,
)
    requires
        before.valid(),
        before.followed(event, after, next),
    ensures
        event is Repeat ==> next is Complete && after == before,
        event matches CharacterEvent::Scanned(c, meta) ==> if before.characters@.len() > 0
            && before.characters@[0].key@ == c.key@ {
            next is Complete && after.characters@ == before.characters@
        } else {
            &&& after.characters@ == before.characters@.push(c)
            &&& after.metas@ == before.metas@.push(meta)
            &&& after.failures == 0
            &&& after.first_name matches Some(n) && n@ == after.characters@[0].key@
        },
        event is Skipped || event is Failed ==> after.characters@ == before.characters@
            && after.failures == before.failures + 1,
        event is Failed && !before.go_on ==> next is Failed,
        next is Continue ==> after.viewed == before.viewed + 1 && after.reverse != before.reverse,
{
}

/// Level, constellation and talents are read in this order, and for every second
/// character in the opposite one.
pub proof fn stages_turn_round(i: int)
    requires
        0 <= i < 3,
    ensures
        stages(false)[0] is Level,
        stages(false)[1] is Constellation,
        stages(false)[2] is Talents,
        stages(true)[i] == stages(false)[2 - i],
{
}

/// A character is looked at again where its level does not exist or has a single
/// digit other than 1, where its skill or burst was read as 1 from level 40 on,
/// where a talent is above what its phase allows, and where a talent was too low
/// to have its bonus.
pub proof fn doubtful_characters_are_looked_at_again(c: GoodCharacter, meta: ScanMeta)
    ensures
        2 <= c.level <= 9 || 91 <= c.level <= 94 || 96 <= c.level <= 99 || c.level < 1 || c.level
            > 100 ==> doubtful(c, Some(meta)) && doubtful(c, None),
        c.level >= 40 && (meta.raw_skill == 1 || meta.raw_burst == 1) ==> doubtful(c, Some(meta)),
        meta.talent_suspicious ==> doubtful(c, Some(meta)),
        2 <= c.ascension <= 6 && (c.talent.auto > 2 * c.ascension - 2 || c.talent.skill > 2
            * c.ascension - 2 || c.talent.burst > 2 * c.ascension - 2) ==> doubtful(c, Some(meta))
            && doubtful(c, None),
        (c.level == 1 || 10 <= c.level <= 90 || c.level == 95 || c.level == 100) && 2 <= c.ascension
            <= 6 && c.talent.auto <= 2 * c.ascension - 2 && c.talent.skill <= 2 * c.ascension - 2
            && c.talent.burst <= 2 * c.ascension - 2 ==> {
            &&& !doubtful(c, None)
            &&& !meta.talent_suspicious && (c.level < 40 || (meta.raw_skill != 1 && meta.raw_burst
                != 1)) ==> !doubtful(c, Some(meta))
        },
{
    if 2 <= c.ascension <= 6 {
        crate::scanner::character::talents::talent_limits_grow(c.ascension as int);
    }
    crate::scanner::common::level_laws::doubtful_levels(c.level as int, false);
}

/// The characters to look at again are all that are in doubt, in their order.
pub proof fn all_doubtful_characters_are_listed(
    characters: Seq<GoodCharacter>,
    metas: Seq<ScanMeta>,
    n: nat,
    i: int,
)
    requires
        n <= characters.len(),
        characters.len() == metas.len(),
        characters.len() <= usize::MAX,
        0 <= i < n,
    ensures
        doubtful_among(characters, metas, n).contains(i as usize) <==> doubtful(
            characters[i],
            Some(metas[i]),
        ),
        forall|k: int|
            0 <= k < doubtful_among(characters, metas, n).len() ==> #[trigger] doubtful_among(
                characters,
                metas,
                n,
            )[k] < n,
    decreases n,
{
    let earlier = doubtful_among(characters, metas, (n - 1) as nat);
    let here = doubtful_among(characters, metas, n);
    if n > 1 {
        all_doubtful_characters_are_listed(
            characters,
            metas,
            (n - 1) as nat,
            if i < n - 1 {
                i
            } else {
                0
            },
        );
    } else {
        assert(earlier.len() == 0);
    }
    if doubtful(characters[n - 1], Some(metas[n - 1])) {
        assert(here[here.len() - 1] == (n - 1) as usize);
    }
    if i < n - 1 {
        if earlier.contains(i as usize) {
            let k = choose|k: int| 0 <= k < earlier.len() && earlier[k] == i as usize;
            assert(here[k] == i as usize);
        }
        if here.contains(i as usize) {
            let k = choose|k: int| 0 <= k < here.len() && here[k] == i as usize;
            assert(earlier[k] == i as usize);
        }
    } else if here.contains(i as usize) && !doubtful(characters[i], Some(metas[i])) {
        let k = choose|k: int| 0 <= k < here.len() && here[k] == i as usize;
        assert(earlier[k] < n - 1);
    }
}

/// To a later character one goes on step by step; to an earlier one the screen is
/// opened again, which shows the first character.
pub proof fn ways_lead_to_characters(current: int, target: int)
    requires
        0 <= current,
        0 <= target,
    ensures
        !way_to(current, target).0 ==> current + way_to(current, target).1 == target,
        way_to(current, target).0 ==> way_to(current, target).1 == target,
        way_to(current, target).0 <==> target < current,
        0 <= way_to(current, target).1,
{
}

/// The screen is open where a name stands in its place, and it is opened at most
/// three times.
pub proof fn screens_are_opened_three_times(attempt: int, text: Seq<char>)
    requires
        0 <= attempt,
    ensures
        screen_step(attempt, text) is Opened <==> crate::text::trimmed(text).len() > 0,
        crate::text::trimmed(text).len() == 0 ==> (screen_step(attempt, text) is Retry <==> attempt
            == 0 || attempt == 1),
{
}

/// Characters are passed over in half the time, but in a tenth of a second at
/// least.
pub proof fn passing_takes_half_the_time(delay: int)
    requires
        0 <= delay,
    ensures
        delay >= 200 ==> 2 * passing_delay(delay) <= delay < 2 * passing_delay(delay) + 2,
        delay < 200 ==> passing_delay(delay) == 100,
{
}

/// A level that does not exist is brought down to 90 or 95, the last one below it
/// that does, with its phase; nothing else of any character changes.
pub proof fn impossible_levels_are_brought_down(old_c: GoodCharacter, c: GoodCharacter)
    requires
        sane(old_c, c),
    ensures
        c.level == if 91 <= old_c.level <= 94 {
            90
        } else if 96 <= old_c.level <= 99 {
            95
        } else {
            old_c.level as int
        },
        c.key == old_c.key,
        c.constellation == old_c.constellation,
        c.talent == old_c.talent,
        c.element == old_c.element,
        c.level == old_c.level ==> c == old_c,
        c.level != old_c.level ==> c.ascension == 6,
        !(91 <= c.level <= 94) && !(96 <= c.level <= 99),
{
}

/// Talents at level one are counted.
pub proof fn ones_are_counted(a: int, b: int, c: int)
    ensures
        0 <= ones((a, b, c)) <= 3,
        ones((a, b, c)) == 0 <==> a != 1 && b != 1 && c != 1,
        ones((a, b, c)) == 3 <==> a == 1 && b == 1 && c == 1,
        ones((a, b, c)) == ones((b, a, c)),
        ones((a, b, c)) == ones((a, c, b)),
        b != 1 && c != 1 ==> (ones((a, b, c)) == 1 <==> a == 1),
{
}

/// A second reading that is better counts: a higher level with its phase, another
/// constellation, and the talents with it or where fewer of them are at level one.
pub proof fn better_readings_count(
    old_c: GoodCharacter,
    r: SecondReading,
    bonuses: Map<Seq<char>, ConstBonus>,
    c: GoodCharacter,
)
    requires
        reread(old_c, r, bonuses, c),
    ensures
        r.level matches Some(read) ==> (read.0 > old_c.level ==> c.level == read.0 && c.ascension
            == ascension(read.0 as int, read.1)),
        r.constellation matches Some(n) ==> c.constellation == n,
        r.talents matches Some(t) ==> (!bonuses.contains_key(old_c.key@) && old_c.key@
            != "Traveler"@ && old_c.key@ != "Tartaglia"@ && (c.constellation
            != old_c.constellation || ones((t.0 as int, t.1 as int, t.2 as int)) < ones(
            talents_of(old_c),
        )) ==> talents_of(c) == (t.0 as int, t.1 as int, t.2 as int)),
        c.key@ == old_c.key@,
        old_c.level <= c.level,
        c.constellation == old_c.constellation ==> ones(talents_of(c)) <= ones(talents_of(old_c)),
        r.level is None && r.constellation is None && r.talents is None ==> c.level == old_c.level
            && c.ascension == old_c.ascension && c.constellation == old_c.constellation
            && talents_of(c) == talents_of(old_c),
{
}

/// The fields of a detailed scan come in a fixed order, each with what was read.
pub proof fn character_fields_tell_what_was_read(
    r: CharacterReading,
    name_rect: BaseRect,
    level_rect: BaseRect,
)
    ensures
        ({
            let f = character_fields(r, name_rect, level_rect);
            let number = |n: int| crate::number::decimal_int(n);
            &&& f.len() == 4
            &&& f[0].0 == "name"@ && f[0].1 == r.raw_name@ && f[0].3 == name_rect
            &&& r.element matches Some(e) ==> f[0].2 == r.key@ + " ("@ + e@ + ")"@
            &&& r.element is None ==> f[0].2 == r.key@ + " ("@ + "?"@ + ")"@
            &&& f[1].0 == "level"@ && f[1].3 == level_rect
            &&& f[1].2 == "lv="@ + number(r.level as int) + " ascended="@ + crate::text::truth_text(
                r.ascended,
            ) + " asc="@ + number(ascension(r.level as int, r.ascended))
            &&& f[2].0 == "constellation"@ && f[2].2 == "C"@ + number(r.constellation as int)
            &&& f[3].0 == "talents"@ && f[3].2 == number(r.talents.auto as int) + "/"@ + number(
                r.talents.skill as int,
            ) + "/"@ + number(r.talents.burst as int)
        }),
{
}

} // verus!
