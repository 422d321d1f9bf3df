//! The talents of a character.
use crate::good_common::navigation::{group_i32, group_number};
use crate::name_map::NameMap;
use crate::patterns::captures;
use crate::scanner::common::mappings::ConstBonus;
use crate::text::{chars_of, same_text, string_of};
use vstd::prelude::*;

verus! {

/// A talent level behind the letters for it, which may be misread.
pub const OVERVIEW_PATTERN: &'static str = "(?i)[Ll][VvYy][.:．]?\\s*(\\d{1,2})";

/// A talent level behind the letters for it.
pub const DETAIL_PATTERN: &'static str = "[Ll][Vv]\\.?\\s*(\\d{1,2})";

/// One or two digits.
pub const SHORT_NUMBER_PATTERN: &'static str = "(\\d{1,2})";

/// The highest shown talent level.
pub const TOP_TALENT: i32 = 15;

/// The character whose attack talent is shown one too high.
pub const TARTAGLIA_KEY: &'static str = "Tartaglia";

/// The character is a space between two digits.
pub open spec fn gap_between_digits(text: Seq<char>, i: int) -> bool {
    &&& text[i] == ' '
    &&& 0 < i < text.len() - 1
    &&& crate::number::is_digit(text[i - 1])
    &&& crate::number::is_digit(text[i + 1])
}

/// The first `n` characters without spaces between digits.
pub open spec fn without_gaps(text: Seq<char>, n: nat) -> Seq<char>
    decreases n,
{
    if n == 0 {
        Seq::empty()
    } else if gap_between_digits(text, n - 1) {
        without_gaps(text, (n - 1) as nat)
    } else {
        without_gaps(text, (n - 1) as nat).push(text[n - 1])
    }
}

fn is_ascii_digit(c: char) -> (yes: bool)
    ensures
        yes == crate::number::is_digit(c),
{
    '0' <= c && c <= '9'
}

/// The text without spaces between digits.
pub fn close_gaps(text: &str) -> (out: String)
    ensures
        out@ == without_gaps(text@, text@.len()),
{
    let chars = chars_of(text);
    let len: usize = chars.len();
    let mut out: Vec<char> = Vec::new();
    let mut i: usize = 0;
    while i < len
        invariant
            len == chars@.len(),
            i <= len,
            out@ == without_gaps(chars@, i as nat),
        decreases len - i,
    {
        let gap = chars[i] == ' ' && i > 0 && i < len - 1 && is_ascii_digit(chars[i - 1])
            && is_ascii_digit(chars[i + 1]);
        if !gap {
            out.push(chars[i]);
        }
        i = i + 1;
    }
    string_of(&out)
}

/// A talent level that can be shown, else nothing.
pub open spec fn shown_talent(level: int) -> Option<int> {
    if 1 <= level <= TOP_TALENT {
        Some(level)
    } else {
        None
    }
}

/// The talent level in a match.
pub open spec fn talent_in(found: Option<Seq<Option<Seq<char>>>>, default: int) -> Option<int> {
    match found {
        Some(groups) => shown_talent(group_number(groups, 1, default)),
        None => None,
    }
}

/// The talent level in a text of the overview, 0 where there is none.
pub open spec fn overview_level(text: Seq<char>) -> int {
    if text.len() == 0 {
        0
    } else {
        let clean = without_gaps(text, text.len());
        match talent_in(crate::patterns::first_match(OVERVIEW_PATTERN@, clean), 0) {
            Some(level) => level,
            None => match talent_in(
                crate::patterns::first_match(SHORT_NUMBER_PATTERN@, clean),
                0,
            ) {
                Some(level) => level,
                None => 0,
            },
        }
    }
}

fn find_talent(pattern: &str, text: &str, default: i32) -> (level: Option<i32>)
    ensures
        match level {
            Some(l) => talent_in(
                crate::patterns::first_match(pattern@, text@),
                default as int,
            ) == Some(l as int),
            None => talent_in(
                crate::patterns::first_match(pattern@, text@),
                default as int,
            ) is None,
        },
{
    match captures(pattern, text) {
        Some(groups) => {
            let level: i32 = group_i32(&groups, 1, default);
            if 1 <= level && level <= TOP_TALENT {
                Some(level)
            } else {
                None
            }
        },
        None => None,
    }
}

/// The talent level in a text of the overview, 0 where there is none.
pub fn parse_lv_text(text: &str) -> (level: i32)
    ensures
        level == overview_level(text@),
        0 <= level <= TOP_TALENT,
{
    if text.is_empty() {
        return 0;
    }
    let clean = close_gaps(text);
    match find_talent(OVERVIEW_PATTERN, clean.as_str(), 0) {
        Some(level) => {
            return level;
        },
        None => {},
    }
    match find_talent(SHORT_NUMBER_PATTERN, clean.as_str(), 0) {
        Some(level) => level,
        None => 0,
    }
}

/// The talent level in a text of the detail view, 1 where there is none.
pub open spec fn detail_level(text: Seq<char>) -> int {
    match talent_in(crate::patterns::first_match(DETAIL_PATTERN@, text), 1) {
        Some(level) => level,
        None => match talent_in(crate::patterns::first_match(SHORT_NUMBER_PATTERN@, text), 1) {
            Some(level) => level,
            None => 1,
        },
    }
}

/// The talent level in a text of the detail view, 1 where there is none.
pub fn parse_talent_detail(text: &str) -> (level: i32)
    ensures
        level == detail_level(text@),
        1 <= level <= TOP_TALENT,
{
    match find_talent(DETAIL_PATTERN, text, 1) {
        Some(level) => {
            return level;
        },
        None => {},
    }
    match find_talent(SHORT_NUMBER_PATTERN, text, 1) {
        Some(level) => level,
        None => 1,
    }
}

/// The talents that the overview does not show, in the order in which their
/// details are looked at: attack, skill, and burst, which comes one later where
/// a character has a further talent before it.
pub open spec fn missing_talents(auto: int, skill: int, burst: int, special: bool) -> Seq<usize> {
    let a = if auto == 0 {
        seq![0usize]
    } else {
        Seq::empty()
    };
    let b = if skill == 0 {
        a.push(1usize)
    } else {
        a
    };
    if burst == 0 {
        b.push(if special {
            3usize
        } else {
            2usize
        })
    } else {
        b
    }
}

/// The talents that the overview does not show.
pub fn talents_to_click(auto: i32, skill: i32, burst: i32, special: bool) -> (list: Vec<usize>)
    ensures
        list@ == missing_talents(auto as int, skill as int, burst as int, special),
{
    let mut list: Vec<usize> = Vec::new();
    if auto == 0 {
        list.push(0);
    }
    if skill == 0 {
        list.push(1);
    }
    if burst == 0 {
        list.push(
            if special {
                3
            } else {
                2
            },
        );
    }
    list
}

/// The talents: what the overview shows, else what the details gave in order.
pub open spec fn combined_talents(
    auto: int,
    skill: int,
    burst: int,
    details: Seq<i32>,
) -> (int, int, int) {
    let second = if auto == 0 {
        1
    } else {
        0int
    };
    let third = second + if skill == 0 {
        1int
    } else {
        0int
    };
    (
        if auto == 0 {
            details[0] as int
        } else {
            auto
        },
        if skill == 0 {
            details[second] as int
        } else {
            skill
        },
        if burst == 0 {
            details[third] as int
        } else {
            burst
        },
    )
}

/// The talents: what the overview shows, else what the details gave in order.
pub fn read_talent_levels(auto: i32, skill: i32, burst: i32, details: &Vec<i32>) -> (t: (
    i32,
    i32,
    i32,
))
    requires
        details@.len() == missing_talents(auto as int, skill as int, burst as int, false).len(),
    ensures
        (t.0 as int, t.1 as int, t.2 as int) == combined_talents(
            auto as int,
            skill as int,
            burst as int,
            details@,
        ),
{
    let mut next: usize = 0;
    let a: i32 = if auto == 0 {
        next = 1;
        details[0]
    } else {
        auto
    };
    let s: i32 = if skill == 0 {
        let at: usize = next;
        next = next + 1;
        details[at]
    } else {
        skill
    };
    let b: i32 = if burst == 0 {
        details[next]
    } else {
        burst
    };
    (a, s, b)
}

/// A level lowered by a bonus, but to one at least.
pub open spec fn lowered(level: int, bonus: int) -> int {
    if level - bonus < 1 {
        1
    } else {
        level - bonus
    }
}

fn lower(level: i32, bonus: i32) -> (l: i32)
    requires
        bonus == 1 || bonus == 3,
    ensures
        l == lowered(level as int, bonus as int),
{
    if level <= bonus {
        1
    } else {
        level - bonus
    }
}

/// Talents while bonuses are taken off: attack, skill, burst, and whether one
/// was too low to have the bonus.
pub type Talents = (int, int, int, bool);

/// The bonus of a constellation taken off the talent that it raises.
pub open spec fn without_bonus(t: Talents, kind: Option<Seq<char>>) -> Talents {
    match kind {
        Some(k) => if k == "A"@ {
            (lowered(t.0, 3), t.1, t.2, t.3 || t.0 < 4)
        } else if k == "E"@ {
            (t.0, lowered(t.1, 3), t.2, t.3 || t.1 < 4)
        } else if k == "Q"@ {
            (t.0, t.1, lowered(t.2, 3), t.3 || t.2 < 4)
        } else {
            t
        },
        None => t,
    }
}

/// The talents without the bonuses of constellations: by the table where the
/// character is in it. The traveler is not: from the fifth constellation on
/// skill and burst have the bonus, before that where they are above ten.
pub open spec fn base_talents(
    t: Talents,
    name: Seq<char>,
    constellation: int,
    bonuses: Map<Seq<char>, ConstBonus>,
) -> Talents {
    if bonuses.contains_key(name) {
        let bonus = bonuses[name];
        let a = if constellation >= 3 {
            without_bonus(t, crate::text::text_of(bonus.c3))
        } else {
            t
        };
        if constellation >= 5 {
            without_bonus(a, crate::text::text_of(bonus.c5))
        } else {
            a
        }
    } else if name == "Traveler"@ {
        let a = if constellation >= 5 || t.1 > 10 {
            without_bonus(t, Some("E"@))
        } else {
            t
        };
        if constellation >= 5 || t.2 > 10 {
            without_bonus(a, Some("Q"@))
        } else {
            a
        }
    } else {
        t
    }
}

/// The shown talents without all bonuses.
pub open spec fn adjusted_talents(
    auto: int,
    skill: int,
    burst: int,
    name: Seq<char>,
    constellation: int,
    bonuses: Map<Seq<char>, ConstBonus>,
) -> Talents {
    let own = if name == TARTAGLIA_KEY@ {
        lowered(auto, 1)
    } else {
        auto
    };
    base_talents((own, skill, burst, false), name, constellation, bonuses)
}

fn take_bonus(t: (i32, i32, i32, bool), kind: &Option<String>) -> (out: (i32, i32, i32, bool))
    ensures
        (out.0 as int, out.1 as int, out.2 as int, out.3) == without_bonus(
            (t.0 as int, t.1 as int, t.2 as int, t.3),
            crate::text::text_of(*kind),
        ),
{
    match kind {
        Some(k) => {
            if same_text(k.as_str(), "A") {
                (lower(t.0, 3), t.1, t.2, t.3 || t.0 < 4)
            } else if same_text(k.as_str(), "E") {
                (t.0, lower(t.1, 3), t.2, t.3 || t.1 < 4)
            } else if same_text(k.as_str(), "Q") {
                (t.0, t.1, lower(t.2, 3), t.3 || t.2 < 4)
            } else {
                t
            }
        },
        None => t,
    }
}

/// The shown talents without all bonuses, and whether one was too low to have
/// its bonus.
pub fn adjust_talents(
    raw_auto: i32,
    raw_skill: i32,
    raw_burst: i32,
    name: &str,
    constellation: i32,
    bonuses: &NameMap<ConstBonus>,
) -> (out: (i32, i32, i32, bool))
    ensures
        (out.0 as int, out.1 as int, out.2 as int, out.3) == adjusted_talents(
            raw_auto as int,
            raw_skill as int,
            raw_burst as int,
            name@,
            constellation as int,
            bonuses@,
        ),
{
    let own: i32 = if same_text(name, TARTAGLIA_KEY) {
        lower(raw_auto, 1)
    } else {
        raw_auto
    };
    let t = (own, raw_skill, raw_burst, false);
    match bonuses.get(name) {
        Some(bonus) => {
            let a = if constellation >= 3 {
                take_bonus(t, &bonus.c3)
            } else {
                t
            };
            if constellation >= 5 {
                take_bonus(a, &bonus.c5)
            } else {
                a
            }
        },
        None => {
            if same_text(name, "Traveler") {
                proof {
                    reveal_strlit("A");
                    reveal_strlit("E");
                    reveal_strlit("Q");
                }
                assert("A"@[0] == 'A' && "E"@[0] == 'E' && "Q"@[0] == 'Q');
                let a = if constellation >= 5 || raw_skill > 10 {
                    (t.0, lower(t.1, 3), t.2, t.1 < 4)
                } else {
                    t
                };
                if constellation >= 5 || raw_burst > 10 {
                    (a.0, a.1, lower(a.2, 3), a.3 || a.2 < 4)
                } else {
                    a
                }
            } else {
                t
            }
        },
    }
}

/// The highest base talent of an ascension phase.
pub open spec fn talent_limit(ascension: int) -> int {
    if ascension == 0 || ascension == 1 {
        1
    } else if ascension == 2 {
        2
    } else if ascension == 3 {
        4
    } else if ascension == 4 {
        6
    } else if ascension == 5 {
        8
    } else {
        10
    }
}

/// The highest base talent of an ascension phase.
pub fn max_talent_for_ascension(ascension: i32) -> (limit: i32)
    ensures
        limit == talent_limit(ascension as int),
{
    if ascension == 0 || ascension == 1 {
        1
    } else if ascension == 2 {
        2
    } else if ascension == 3 {
        4
    } else if ascension == 4 {
        6
    } else if ascension == 5 {
        8
    } else {
        10
    }
}

/// Base talents are at least one where the shown ones are, and no higher than
/// these; a talent that had its bonus gets the bonus off exactly where none was
/// too low.
pub proof fn bonuses_come_off(
    auto: int,
    skill: int,
    burst: int,
    name: Seq<char>,
    constellation: int,
    bonuses: Map<Seq<char>, ConstBonus>,
)
    requires
        auto >= 1,
        skill >= 1,
        burst >= 1,
    ensures
        ({
            let t = adjusted_talents(auto, skill, burst, name, constellation, bonuses);
            &&& 1 <= t.0 <= auto
            &&& 1 <= t.1 <= skill
            &&& 1 <= t.2 <= burst
            &&& !t.3 && name != TARTAGLIA_KEY@ ==> {
                let off = (auto - t.0) + (skill - t.1) + (burst - t.2);
                off == 0 || off == 3 || off == 6
            }
        }),
{
}

/// A level three lower, but one at least.
pub open spec fn three_lower(level: int) -> int {
    if level > 3 {
        level - 3
    } else {
        1
    }
}

/// How often a constellation raises a talent, of the third and the fifth one
/// that are reached.
pub open spec fn times_raised(bonus: ConstBonus, constellation: int, talent: Seq<char>) -> int {
    (if constellation >= 3 && crate::text::text_of(bonus.c3) == Some(talent) {
        1int
    } else {
        0
    }) + (if constellation >= 5 && crate::text::text_of(bonus.c5) == Some(talent) {
        1int
    } else {
        0
    })
}

/// A shown level with the bonuses of three levels off that raise it.
pub open spec fn base_of(level: int, times: int) -> int {
    if times == 0 {
        level
    } else if times == 1 {
        three_lower(level)
    } else {
        three_lower(three_lower(level))
    }
}

/// A shown level is too low to have been raised so often: below four for one
/// bonus of three levels, below seven for two.
pub open spec fn too_low(level: int, times: int) -> bool {
    (times >= 1 && level < 4) || (times == 2 && level < 7)
}

proof fn lemma_talent_letters()
    ensures
        "A"@ != "E"@,
        "A"@ != "Q"@,
        "E"@ != "Q"@,
{
    reveal_strlit("A");
    reveal_strlit("E");
    reveal_strlit("Q");
    assert("A"@[0] == 'A' && "E"@[0] == 'E' && "Q"@[0] == 'Q');
}

/// For a character of the table each talent comes out three levels lower for each
/// constellation that is reached and raises it, the third and the fifth ones; the
/// attack of Tartaglia is shown one too high besides.
pub proof fn bonuses_of_the_table_come_off(
    auto: int,
    skill: int,
    burst: int,
    name: Seq<char>,
    constellation: int,
    bonuses: Map<Seq<char>, ConstBonus>,
)
    requires
        bonuses.contains_key(name),
    ensures
        ({
            let t = adjusted_talents(auto, skill, burst, name, constellation, bonuses);
            let bonus = bonuses[name];
            let own = if name == "Tartaglia"@ {
                if auto > 1 {
                    auto - 1
                } else {
                    1
                }
            } else {
                auto
            };
            &&& t.0 == base_of(own, times_raised(bonus, constellation, "A"@))
            &&& t.1 == base_of(skill, times_raised(bonus, constellation, "E"@))
            &&& t.2 == base_of(burst, times_raised(bonus, constellation, "Q"@))
            &&& t.3 == (too_low(own, times_raised(bonus, constellation, "A"@)) || too_low(
                skill,
                times_raised(bonus, constellation, "E"@),
            ) || too_low(burst, times_raised(bonus, constellation, "Q"@)))
        }),
{
    lemma_talent_letters();
}

/// The constellations below the third change nothing, the third and the fourth
/// are alike, and so are the fifth and the sixth.
pub proof fn only_two_constellations_raise_talents(
    auto: int,
    skill: int,
    burst: int,
    name: Seq<char>,
    bonuses: Map<Seq<char>, ConstBonus>,
)
    requires
        name != "Traveler"@ || bonuses.contains_key(name),
    ensures
        forall|c: int|
            c < 3 ==> #[trigger] adjusted_talents(auto, skill, burst, name, c, bonuses) == (
                if name == "Tartaglia"@ {
                    if auto > 1 {
                        auto - 1
                    } else {
                        1
                    }
                } else {
                    auto
                },
                skill,
                burst,
                false,
            ),
        adjusted_talents(auto, skill, burst, name, 4, bonuses) == adjusted_talents(
            auto,
            skill,
            burst,
            name,
            3,
            bonuses,
        ),
        adjusted_talents(auto, skill, burst, name, 6, bonuses) == adjusted_talents(
            auto,
            skill,
            burst,
            name,
            5,
            bonuses,
        ),
        !bonuses.contains_key(name) ==> forall|c: int|
            adjusted_talents(auto, skill, burst, name, 0, bonuses) == #[trigger] adjusted_talents(
                auto,
                skill,
                burst,
                name,
                c,
                bonuses,
            ),
{
}

/// The traveler is in no table: skill and burst each have their bonus of three
/// levels from the fifth constellation on, and before that where they are shown
/// above ten, the highest base talent.
pub proof fn the_traveler_is_told_by_the_talents(
    auto: int,
    skill: int,
    burst: int,
    constellation: int,
    bonuses: Map<Seq<char>, ConstBonus>,
)
    requires
        !bonuses.contains_key("Traveler"@),
    ensures
        ({
            let t = adjusted_talents(auto, skill, burst, "Traveler"@, constellation, bonuses);
            &&& t.0 == auto
            &&& t.1 == if constellation >= 5 || skill > 10 {
                three_lower(skill)
            } else {
                skill
            }
            &&& t.2 == if constellation >= 5 || burst > 10 {
                three_lower(burst)
            } else {
                burst
            }
            &&& t.3 == (constellation >= 5 && (skill < 4 || burst < 4))
        }),
{
    lemma_talent_letters();
    reveal_strlit("Traveler");
    reveal_strlit("Tartaglia");
    assert("Traveler"@.len() == 8 && "Tartaglia"@.len() == 9);
}

/// Base talents are at most one in the first two phases, and from the second
/// phase on twice the phase less two, up to ten; every phase but the first allows
/// no less than the one before.
pub proof fn talent_limits_grow(phase: int)
    requires
        0 <= phase <= 6,
    ensures
        phase >= 2 ==> talent_limit(phase) == 2 * phase - 2,
        phase < 2 ==> talent_limit(phase) == 1,
{
}

/// A talent level counts where it is from 1 to 15.
pub proof fn talent_levels_reach_fifteen(level: int)
    ensures
        shown_talent(level) == if level < 1 || level > 15 {
            None
        } else {
            Some(level)
        },
{
}

/// What the overview shows counts, and what it does not show comes from the
/// details, in the order of attack, skill and burst; there is one detail for each
/// talent that is missing, and the burst of a character with a further talent
/// stands one place later.
pub proof fn missing_talents_come_from_details(
    auto: int,
    skill: int,
    burst: int,
    special: bool,
    details: Seq<i32>,
)
    requires
        details.len() == missing_talents(auto, skill, burst, special).len(),
    ensures
        ({
            let places = missing_talents(auto, skill, burst, special);
            let t = combined_talents(auto, skill, burst, details);
            &&& places.contains(0) <==> auto == 0
            &&& places.contains(1) <==> skill == 0
            &&& places.contains(2) <==> burst == 0 && !special
            &&& places.contains(3) <==> burst == 0 && special
            &&& forall|i: int, j: int| 0 <= i < j < places.len() ==> places[i] < places[j]
            &&& forall|i: int|
                0 <= i < places.len() ==> {
                    &&& #[trigger] places[i] == 0 ==> t.0 == details[i]
                    &&& places[i] == 1 ==> t.1 == details[i]
                    &&& places[i] >= 2 ==> t.2 == details[i] && places[i] <= 3
                }
            &&& auto != 0 ==> t.0 == auto
            &&& skill != 0 ==> t.1 == skill
            &&& burst != 0 ==> t.2 == burst
        }),
{
    let places = missing_talents(auto, skill, burst, special);
    let a = if auto == 0 {
        1int
    } else {
        0
    };
    let b = a + if skill == 0 {
        1int
    } else {
        0int
    };
    if auto == 0 {
        assert(places[0] == 0);
    }
    if skill == 0 {
        assert(places[a] == 1);
    }
    if burst == 0 {
        assert(places[b] == if special {
            3usize
        } else {
            2usize
        });
    }
}

/// Only single spaces between two digits go: all other characters stay in their
/// order, and the characters that are no spaces are those of the text.
pub proof fn only_gaps_are_closed(text: Seq<char>, n: nat)
    requires
        n <= text.len(),
    ensures
        without_gaps(text, n).len() <= n,
        (forall|i: int|
            0 < i < text.len() - 1 && #[trigger] text[i] == ' ' ==> !('0' <= text[i - 1] <= '9')
                || !('0' <= text[i + 1] <= '9')) ==> without_gaps(text, n) == text.take(n as int),
        0 < n < text.len() - 1 && text[n as int] == ' ' && '0' <= text[n - 1] <= '9' && '0'
            <= text[n as int + 1] <= '9' ==> without_gaps(text, n + 1) == without_gaps(text, n),
        n < text.len() && text[n as int] != ' ' ==> without_gaps(text, n + 1) == without_gaps(
            text,
            n,
        ).push(text[n as int]),
    decreases n,
{
    if n > 0 {
        only_gaps_are_closed(text, (n - 1) as nat);
        assert(text.take(n as int) =~= text.take(n - 1).push(text[n - 1]));
    }
}

/// On the overview a talent level stands behind its mark, spaces between digits
/// left out; else it is the first number of one or two digits, where that is a
/// level. Nothing read is 0.
pub proof fn overview_levels_stand_behind_the_mark(
    text: Seq<char>,
    groups: Seq<Option<Seq<char>>>,
    n: int,
)
    requires
        text.len() > 0,
        groups.len() > 1,
        groups[1] is Some,
        crate::number::i32_of(groups[1]->0) == Some(n),
        1 <= n <= 15,
    ensures
        ({
            let clean = without_gaps(text, text.len());
            let marked = crate::patterns::first_match(
                "(?i)[Ll][VvYy][.:．]?\\s*(\\d{1,2})"@,
                clean,
            );
            let number = crate::patterns::first_match("(\\d{1,2})"@, clean);
            &&& marked == Some(groups) ==> overview_level(text) == n
            &&& marked is None && number == Some(groups) ==> overview_level(text) == n
            &&& marked is None && number is None ==> overview_level(text) == 0
        }),
        overview_level(Seq::empty()) == 0,
        0 <= overview_level(text) <= 15,
{
}

/// On the page of a talent its level stands behind its mark; else it is the first
/// number of one or two digits, where that is a level. Nothing read is 1.
pub proof fn detail_levels_stand_behind_the_mark(
    text: Seq<char>,
    groups: Seq<Option<Seq<char>>>,
    n: int,
)
    requires
        groups.len() > 1,
        groups[1] is Some,
        crate::number::i32_of(groups[1]->0) == Some(n),
        1 <= n <= 15,
    ensures
        ({
            let marked = crate::patterns::first_match("[Ll][Vv]\\.?\\s*(\\d{1,2})"@, text);
            let number = crate::patterns::first_match("(\\d{1,2})"@, text);
            &&& marked == Some(groups) ==> detail_level(text) == n
            &&& marked is None && number == Some(groups) ==> detail_level(text) == n
            &&& marked is None && number is None ==> detail_level(text) == 1
        }),
        1 <= detail_level(text) <= 15,
{
}

} // verus!
