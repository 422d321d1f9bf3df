//! The name and the element of a character.
use crate::name_map::NameMap;
use crate::scanner::common::fuzzy_match::{
    cleaned, fuzzy_match_map, keep_name_chars, matched, name_chars,
};
use crate::text::{chars_of, copy_of, same_text, string_of, trim_chars, trim_text};
use vstd::prelude::*;

verus! {

/// The key of an element by its Chinese name.
pub open spec fn element_key(name: Seq<char>) -> Option<Seq<char>> {
    let zh = crate::text::trimmed(name);
    if zh == "火"@ {
        Some("Pyro"@)
    } else if zh == "水"@ {
        Some("Hydro"@)
    } else if zh == "雷"@ {
        Some("Electro"@)
    } else if zh == "冰"@ {
        Some("Cryo"@)
    } else if zh == "风"@ {
        Some("Anemo"@)
    } else if zh == "岩"@ {
        Some("Geo"@)
    } else if zh == "草"@ {
        Some("Dendro"@)
    } else {
        None
    }
}

/// The key of an element by its Chinese name.
pub fn zh_element_to_good(zh: &str) -> (key: Option<String>)
    ensures
        crate::text::text_of(key) == element_key(zh@),
{
    let name = trim_text(zh);
    let key = if same_text(name.as_str(), "火") {
        "Pyro"
    } else if same_text(name.as_str(), "水") {
        "Hydro"
    } else if same_text(name.as_str(), "雷") {
        "Electro"
    } else if same_text(name.as_str(), "冰") {
        "Cryo"
    } else if same_text(name.as_str(), "风") {
        "Anemo"
    } else if same_text(name.as_str(), "岩") {
        "Geo"
    } else if same_text(name.as_str(), "草") {
        "Dendro"
    } else {
        return None;
    };
    Some(copy_of(key))
}

/// The place of the slash between element and name: of the plain one if there
/// is one, else of the full-width one.
pub open spec fn slash_at(text: Seq<char>) -> Option<int> {
    if text.contains('/') {
        Some(text.index_of_first('/')->0)
    } else if text.contains('／') {
        Some(text.index_of_first('／')->0)
    } else {
        None
    }
}

fn first_of_char(text: &Vec<char>, c: char) -> (at: Option<usize>)
    ensures
        match at {
            Some(i) => i < text@.len() && text@.contains(c) && text@.index_of_first(c) == Some(
                i as int,
            ),
            None => !text@.contains(c),
        },
{
    let mut i: usize = 0;
    while i < text.len()
        invariant
            i <= text@.len(),
            forall|k: int| 0 <= k < i ==> text@[k] != c,
        decreases text@.len() - i,
    {
        if text[i] == c {
            proof {
                assert(text@[i as int] == c);
                text@.index_of_first_ensures(c);
            }
            return Some(i);
        }
        i = i + 1;
    }
    None
}

/// The name key and the element that a text gives: the element before a slash
/// and the name behind it, or the name alone.
pub open spec fn name_and_element(
    text: Seq<char>,
    names: Map<Seq<char>, String>,
    name: Option<Seq<char>>,
    element: Option<Seq<char>>,
) -> bool {
    if text.len() == 0 {
        name is None && element is None
    } else {
        match slash_at(text) {
            Some(i) => {
                &&& element == Some(crate::text::trimmed(text.take(i)))
                &&& matched(cleaned(name_chars(text.skip(i + 1))), names, name)
            },
            None => element is None && matched(cleaned(text), names, name),
        }
    }
}

fn piece(text: &Vec<char>, from: usize, to: usize) -> (out: Vec<char>)
    requires
        from <= to <= text@.len(),
    ensures
        out@ == text@.subrange(from as int, to as int),
{
    let mut out: Vec<char> = Vec::new();
    let mut i: usize = from;
    while i < to
        invariant
            from <= i <= to <= text@.len(),
            out@ == text@.subrange(from as int, i as int),
        decreases to - i,
    {
        out.push(text[i]);
        i = i + 1;
        assert(text@.subrange(from as int, i as int) =~= text@.subrange(from as int, i - 1).push(
            text@[i - 1],
        ));
    }
    out
}

/// The name key and the element that a text gives.
pub fn parse_name_and_element(text: &str, names: &NameMap<String>) -> (r: (
    Option<String>,
    Option<String>,
))
    ensures
        name_and_element(
            text@,
            names@,
            crate::text::text_of(r.0),
            crate::text::text_of(r.1),
        ),
{
    let chars = chars_of(text);
    let len: usize = chars.len();
    if len == 0 {
        return (None, None);
    }
    let slash = match first_of_char(&chars, '/') {
        Some(i) => Some(i),
        None => first_of_char(&chars, '／'),
    };
    match slash {
        Some(i) => {
            let element = piece(&chars, 0, i);
            let rest = piece(&chars, i + 1, len);
            assert(element@ =~= text@.take(i as int));
            assert(rest@ =~= text@.skip(i + 1));
            let name = string_of(&keep_name_chars(&rest));
            (
                fuzzy_match_map(name.as_str(), names),
                Some(string_of(&trim_chars(&element))),
            )
        },
        None => (fuzzy_match_map(text, names), None),
    }
}

/// The character has more than one element.
pub open spec fn has_elements(key: Seq<char>) -> bool {
    key == "Traveler"@ || key == "Manekin"@ || key == "Manekina"@
}

/// The element of a character in the export: only of those with more than one.
pub open spec fn exported_element(key: Seq<char>, element: Option<Seq<char>>) -> Option<Seq<char>> {
    match element {
        Some(zh) => if has_elements(key) {
            element_key(zh)
        } else {
            None
        },
        None => None,
    }
}

/// The element of a character in the export.
pub fn element_for(key: &str, element: &Option<String>) -> (out: Option<String>)
    ensures
        crate::text::text_of(out) == exported_element(key@, crate::text::text_of(*element)),
{
    match element {
        Some(zh) => if same_text(key, "Traveler") || same_text(key, "Manekin") || same_text(
            key,
            "Manekina",
        ) {
            zh_element_to_good(zh.as_str())
        } else {
            None
        },
        None => None,
    }
}

/// What to do next to read a name.
#[derive(Debug, Clone, Copy, PartialEq, Eq, Structural)]
pub enum NameAction {
    /// Ask the engine that knows more names.
    AskNames,
    /// Ask the general engine.
    AskGeneral,
    /// Wait a second.
    Wait,
    /// Take what was read.
    Done,
}

/// What is done to read a name, in order: both engines are asked, and once more
/// after a second; without the first engine only the second.
pub open spec fn name_actions(names_engine: bool) -> Seq<NameAction> {
    if names_engine {
        seq![
            NameAction::AskNames,
            NameAction::AskGeneral,
            NameAction::Wait,
            NameAction::AskNames,
            NameAction::AskGeneral,
        ]
    } else {
        seq![NameAction::AskGeneral, NameAction::Wait, NameAction::AskGeneral]
    }
}

/// The reading of a name.
#[derive(Debug, Clone, Copy)]
pub struct NameReader {
    names_engine: bool,
    step: usize,
}

impl NameReader {
    /// How many steps are done.
    pub closed spec fn steps(&self) -> nat {
        self.step as nat
    }

    /// Whether there is an engine that knows more names.
    pub closed spec fn names_engine(&self) -> bool {
        self.names_engine
    }

    /// At the first step.
    pub fn new(names_engine: bool) -> (r: Self)
        ensures
            r.steps() == 0,
            r.names_engine() == names_engine,
    {
        NameReader { names_engine, step: 0 }
    }

    /// What to do next.
    pub fn action(&self) -> (action: NameAction)
        ensures
            action == if self.steps() < name_actions(self.names_engine()).len() {
                name_actions(self.names_engine())[self.steps() as int]
            } else {
                NameAction::Done
            },
    {
        if self.names_engine {
            if self.step == 0 || self.step == 3 {
                NameAction::AskNames
            } else if self.step == 1 || self.step == 4 {
                NameAction::AskGeneral
            } else if self.step == 2 {
                NameAction::Wait
            } else {
                NameAction::Done
            }
        } else {
            if self.step == 0 || self.step == 2 {
                NameAction::AskGeneral
            } else if self.step == 1 {
                NameAction::Wait
            } else {
                NameAction::Done
            }
        }
    }

    /// A step was done; a name that was recognised ends the reading.
    pub fn done(&mut self, recognised: bool)
        ensures
            final(self).names_engine() == old(self).names_engine(),
            final(self).steps() == if recognised {
                name_actions(old(self).names_engine()).len()
            } else if old(self).steps() < name_actions(old(self).names_engine()).len() {
                old(self).steps() + 1
            } else {
                old(self).steps()
            },
    {
        let all: usize = if self.names_engine {
            5
        } else {
            3
        };
        if recognised {
            self.step = all;
        } else if self.step < all {
            self.step = self.step + 1;
        }
    }
}

/// What follows from the name of a character.
#[derive(Debug)]
pub enum NameVerdict {
    /// Scan the character.
    Scan(String),
    /// The first character is shown again.
    Repeat,
    /// Leave the character out.
    Skip,
    /// Fail with the text that was read.
    Fail(String),
}

/// What follows from the name of a character: without one it is left out or the
/// scan fails, and the name of the first character ends the scan.
pub open spec fn name_verdict(
    name: Option<Seq<char>>,
    first: Option<Seq<char>>,
    go_on: bool,
    text: Seq<char>,
    verdict: NameVerdict,
) -> bool {
    match name {
        None => if go_on {
            verdict is Skip
        } else {
            verdict matches NameVerdict::Fail(t) && t@ == text
        },
        Some(n) => if first == Some(n) {
            verdict is Repeat
        } else {
            verdict matches NameVerdict::Scan(t) && t@ == n
        },
    }
}

/// What follows from the name of a character.
pub fn judge_name(
    name: Option<String>,
    first: &Option<String>,
    go_on: bool,
    text: String,
) -> (verdict: NameVerdict)
    ensures
        name_verdict(
            crate::text::text_of(name),
            crate::text::text_of(*first),
            go_on,
            text@,
            verdict,
        ),
{
    match name {
        None => if go_on {
            NameVerdict::Skip
        } else {
            NameVerdict::Fail(text)
        },
        Some(n) => {
            match first {
                Some(f) => if same_text(f.as_str(), n.as_str()) {
                    return NameVerdict::Repeat;
                },
                None => {},
            }
            NameVerdict::Scan(n)
        },
    }
}

/// The seven elements have seven keys, and white space around an element does not
/// matter.
pub proof fn elements_have_their_keys(name: Seq<char>)
    ensures
        element_key(name) == Some("Pyro"@) <==> crate::text::trimmed(name) == "火"@,
        element_key(name) == Some("Hydro"@) <==> crate::text::trimmed(name) == "水"@,
        element_key(name) == Some("Electro"@) <==> crate::text::trimmed(name) == "雷"@,
        element_key(name) == Some("Cryo"@) <==> crate::text::trimmed(name) == "冰"@,
        element_key(name) == Some("Anemo"@) <==> crate::text::trimmed(name) == "风"@,
        element_key(name) == Some("Geo"@) <==> crate::text::trimmed(name) == "岩"@,
        element_key(name) == Some("Dendro"@) <==> crate::text::trimmed(name) == "草"@,
        element_key(name) matches Some(k) ==> k == "Pyro"@ || k == "Hydro"@ || k == "Electro"@ || k
            == "Cryo"@ || k == "Anemo"@ || k == "Geo"@ || k == "Dendro"@,
{
    reveal_strlit("火");
    reveal_strlit("水");
    reveal_strlit("雷");
    reveal_strlit("冰");
    reveal_strlit("风");
    reveal_strlit("岩");
    reveal_strlit("草");
    assert("火"@[0] == '火' && "水"@[0] == '水' && "雷"@[0] == '雷' && "冰"@[0] == '冰' && "风"@[0]
        == '风' && "岩"@[0] == '岩' && "草"@[0] == '草');
    reveal_strlit("Pyro");
    reveal_strlit("Hydro");
    reveal_strlit("Electro");
    reveal_strlit("Cryo");
    reveal_strlit("Anemo");
    reveal_strlit("Geo");
    reveal_strlit("Dendro");
    assert("Pyro"@[0] == 'P' && "Hydro"@[0] == 'H' && "Electro"@[0] == 'E' && "Cryo"@[0] == 'C'
        && "Anemo"@[0] == 'A' && "Geo"@[0] == 'G' && "Dendro"@[0] == 'D');
}

/// Only the traveler and the two mannequins, who can have any element, are
/// exported with one.
pub proof fn few_characters_have_an_element(key: Seq<char>, element: Option<Seq<char>>)
    ensures
        key == "Traveler"@ || key == "Manekin"@ || key == "Manekina"@ ==> exported_element(
            key,
            element,
        ) == match element {
            Some(zh) => element_key(zh),
            None => None,
        },
        key != "Traveler"@ && key != "Manekin"@ && key != "Manekina"@ ==> exported_element(
            key,
            element,
        ) is None,
{
}

/// In a text with a slash the element stands before the first one and the name
/// behind it, where a full-width slash counts only if there is no other.
pub proof fn the_element_stands_before_the_slash(
    element: Seq<char>,
    name: Seq<char>,
    slash: char,
    names: Map<Seq<char>, String>,
    found: Option<Seq<char>>,
    zh: Option<Seq<char>>,
)
    requires
        slash == '/' || (slash == '／' && !name.contains('/')),
        !element.contains('/'),
        !element.contains('／'),
        name_and_element(element.push(slash) + name, names, found, zh),
    ensures
        zh == Some(crate::text::trimmed(element)),
        matched(cleaned(name_chars(name)), names, found),
{
    let text = element.push(slash) + name;
    let n = element.len() as int;
    assert(text[n] == slash);
    assert(text.take(n) =~= element);
    assert(text.skip(n + 1) =~= name);
    assert(text.contains(slash));
    assert forall|i: int| 0 <= i < n implies text[i] != '/' && text[i] != '／' by {
        assert(text[i] == element[i]);
        assert(element.contains(element[i]));
    }
    if slash == '／' {
        assert(!text.contains('/')) by {
            if text.contains('/') {
                let i = choose|i: int| 0 <= i < text.len() && text[i] == '/';
                if i > n {
                    assert(name[i - n - 1] == '/');
                }
            }
        }
    }
    text.index_of_first_ensures(slash);
    let i = text.index_of_first(slash)->0;
    assert(i == n);
}

/// A text without a slash names no element.
pub proof fn without_a_slash_there_is_no_element(
    text: Seq<char>,
    names: Map<Seq<char>, String>,
    found: Option<Seq<char>>,
    zh: Option<Seq<char>>,
)
    requires
        !text.contains('/'),
        !text.contains('／'),
        name_and_element(text, names, found, zh),
    ensures
        zh is None,
        text.len() > 0 ==> matched(cleaned(text), names, found),
        text.len() == 0 ==> found is None,
{
}

/// A name is looked for twice, with a pause between: by the engine for names
/// first where there is one, and by the general engine in any case.
pub proof fn names_are_looked_for_twice(names_engine: bool)
    ensures
        ({
            let actions = name_actions(names_engine);
            let half = if names_engine {
                2int
            } else {
                1
            };
            &&& actions.len() == 2 * half + 1
            &&& actions[half] is Wait
            &&& actions[half - 1] is AskGeneral && actions[2 * half] is AskGeneral
            &&& names_engine ==> actions[0] is AskNames && actions[3] is AskNames
        }),
{
}

/// A name that was found is scanned, unless it is the first one again; without a
/// name the character is passed over, or is a failure that tells its text.
pub proof fn names_are_scanned_once(
    name: Seq<char>,
    first: Option<Seq<char>>,
    go_on: bool,
    text: Seq<char>,
    verdict: NameVerdict,
)
    ensures
        name_verdict(Some(name), first, go_on, text, verdict) ==> {
            &&& first == Some(name) ==> verdict is Repeat
            &&& first != Some(name) ==> (verdict matches NameVerdict::Scan(t) && t@ == name)
        },
        name_verdict(None, first, go_on, text, verdict) ==> {
            &&& go_on ==> verdict is Skip
            &&& !go_on ==> (verdict matches NameVerdict::Fail(t) && t@ == text)
        },
{
}

} // verus!
