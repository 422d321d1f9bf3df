//! Which web pages may talk to the server.
use crate::text::{
    chars_of, copy_of, matches_at, same_text, string_of, strip_end, stripped_end, trim_text,
};
use vstd::prelude::*;

verus! {

/// The text starts with the pattern.
pub open spec fn begins(text: Seq<char>, pat: Seq<char>) -> bool {
    crate::text::occurs_at(text, pat, 0)
}

/// Whether the text starts with the pattern.
pub fn begins_with(text: &str, pat: &str) -> (yes: bool)
    ensures
        yes == begins(text@, pat@),
{
    matches_at(&chars_of(text), &chars_of(pat), 0)
}

/// An origin without the slashes at its end.
pub open spec fn bare_origin(origin: Seq<char>) -> Seq<char> {
    stripped_end(origin, '/')
}

/// A page of this origin may talk to the server: the artifact site, or a page of
/// this computer at any port.
pub open spec fn origin_allowed(origin: Seq<char>) -> bool {
    let o = bare_origin(origin);
    ||| o == "https://ggartifact.com"@
    ||| o == "http://ggartifact.com"@
    ||| o == "http://localhost"@
    ||| begins(o, "http://localhost:"@)
    ||| o == "http://127.0.0.1"@
    ||| begins(o, "http://127.0.0.1:"@)
}

fn strip_slashes(origin: &str) -> (o: String)
    ensures
        o@ == bare_origin(origin@),
{
    string_of(&strip_end(&chars_of(origin), '/'))
}

/// Whether a page of this origin may talk to the server.
pub fn is_origin_allowed(origin: &str) -> (yes: bool)
    ensures
        yes == origin_allowed(origin@),
{
    let bare = strip_slashes(origin);
    let o = bare.as_str();
    same_text(o, "https://ggartifact.com") || same_text(o, "http://ggartifact.com") || same_text(
        o,
        "http://localhost",
    ) || begins_with(o, "http://localhost:") || same_text(o, "http://127.0.0.1") || begins_with(
        o,
        "http://127.0.0.1:",
    )
}

/// What follows from the origin of a request.
#[derive(Debug)]
pub enum OriginCheck {
    /// No page sent the request.
    NoPage,
    /// A page of this origin may have the answer.
    Allowed(String),
    /// The request is refused.
    Refused,
}

/// What follows from the origin of a request.
pub fn check_origin(origin: &Option<String>) -> (check: OriginCheck)
    ensures
        match *origin {
            None => check is NoPage,
            Some(o) => if origin_allowed(o@) {
                check matches OriginCheck::Allowed(a) && a@ == bare_origin(o@)
            } else {
                check is Refused
            },
        },
{
    match origin {
        None => OriginCheck::NoPage,
        Some(o) => if is_origin_allowed(o.as_str()) {
            OriginCheck::Allowed(strip_slashes(o.as_str()))
        } else {
            OriginCheck::Refused
        },
    }
}

/// A letter in lower case, where it is an ASCII letter.
pub open spec fn lower_ascii(c: char) -> char {
    if 'A' <= c <= 'Z' {
        ((c as int) + 32) as char
    } else {
        c
    }
}

fn to_lower_ascii(c: char) -> (l: char)
    ensures
        l == lower_ascii(c),
{
    if 'A' <= c && c <= 'Z' {
        let code: u8 = (c as u32 + 32) as u8;
        code as char
    } else {
        c
    }
}

/// Two texts are the same but for the case of ASCII letters.
pub open spec fn same_but_case(a: Seq<char>, b: Seq<char>) -> bool {
    a.len() == b.len() && forall|i: int|
        0 <= i < a.len() ==> lower_ascii(#[trigger] a[i]) == lower_ascii(b[i])
}

/// Whether two texts are the same but for the case of ASCII letters.
pub fn eq_ignore_case(a: &str, b: &str) -> (yes: bool)
    ensures
        yes == same_but_case(a@, b@),
{
    let x = chars_of(a);
    let y = chars_of(b);
    if x.len() != y.len() {
        return false;
    }
    let mut i: usize = 0;
    while i < x.len()
        invariant
            i <= x@.len(),
            x@ == a@,
            y@ == b@,
            x@.len() == y@.len(),
            forall|k: int| 0 <= k < i ==> lower_ascii(#[trigger] x@[k]) == lower_ascii(y@[k]),
        decreases x@.len() - i,
    {
        if to_lower_ascii(x[i]) != to_lower_ascii(y[i]) {
            return false;
        }
        i = i + 1;
    }
    true
}

/// A header of a request: its name and its value.
pub type HeaderLine = (String, String);

/// The value of the first header with the name of the origin, from `i` on.
pub open spec fn origin_in(headers: Seq<HeaderLine>, i: int) -> Option<Seq<char>>
    decreases headers.len() - i,
{
    if i < 0 || i >= headers.len() {
        None
    } else if same_but_case(headers[i].0@, "origin"@) {
        Some(headers[i].1@)
    } else {
        origin_in(headers, i + 1)
    }
}

/// The origin of a request.
pub fn get_origin(headers: &Vec<HeaderLine>) -> (origin: Option<String>)
    ensures
        crate::text::text_of(origin) == origin_in(headers@, 0),
{
    let mut i: usize = 0;
    while i < headers.len()
        invariant
            i <= headers@.len(),
            origin_in(headers@, 0) == origin_in(headers@, i as int),
        decreases headers@.len() - i,
    {
        if eq_ignore_case(headers[i].0.as_str(), "origin") {
            return Some(copy_of(headers[i].1.as_str()));
        }
        i = i + 1;
    }
    None
}

/// The headers of an answer: for a page those that let it read the answer, and
/// always that of the format.
pub open spec fn answer_headers(origin: Option<Seq<char>>) -> Seq<(Seq<char>, Seq<char>)> {
    let format = ("Content-Type"@, "application/json; charset=utf-8"@);
    match origin {
        Some(o) => seq![
            ("Access-Control-Allow-Origin"@, o),
            ("Access-Control-Allow-Methods"@, "GET, POST, OPTIONS"@),
            ("Access-Control-Allow-Headers"@, "Content-Type"@),
            ("Access-Control-Allow-Private-Network"@, "true"@),
            format,
        ],
        None => seq![format],
    }
}

/// The headers by their texts.
pub open spec fn header_texts(headers: Seq<HeaderLine>) -> Seq<(Seq<char>, Seq<char>)> {
    Seq::new(headers.len(), |i: int| (headers[i].0@, headers[i].1@))
}

/// The headers of an answer.
pub fn cors_headers(origin: &Option<String>) -> (headers: Vec<HeaderLine>)
    ensures
        header_texts(headers@) == answer_headers(crate::text::text_of(*origin)),
{
    let mut headers: Vec<HeaderLine> = Vec::new();
    match origin {
        Some(o) => {
            headers.push((copy_of("Access-Control-Allow-Origin"), copy_of(o.as_str())));
            headers.push(
                (copy_of("Access-Control-Allow-Methods"), copy_of("GET, POST, OPTIONS")),
            );
            headers.push((copy_of("Access-Control-Allow-Headers"), copy_of("Content-Type")));
            headers.push((copy_of("Access-Control-Allow-Private-Network"), copy_of("true")));
        },
        None => {},
    }
    headers.push((copy_of("Content-Type"), copy_of("application/json; charset=utf-8")));
    assert(header_texts(headers@) =~= answer_headers(crate::text::text_of(*origin)));
    headers
}

/// The title is that of the game window.
pub open spec fn game_title(title: Seq<char>) -> bool {
    crate::text::trimmed(title) == "原神"@ || crate::text::trimmed(title) == "Genshin Impact"@
}

/// Whether one of the windows is that of the game.
pub fn is_game_window_alive(titles: &Vec<String>) -> (yes: bool)
    ensures
        yes == exists|i: int| 0 <= i < titles@.len() && game_title((#[trigger] titles@[i])@),
{
    let mut i: usize = 0;
    while i < titles.len()
        invariant
            i <= titles@.len(),
            forall|k: int| 0 <= k < i ==> !game_title((#[trigger] titles@[k])@),
        decreases titles@.len() - i,
    {
        let title = trim_text(titles[i].as_str());
        if same_text(title.as_str(), "原神") || same_text(title.as_str(), "Genshin Impact") {
            assert(game_title(titles@[i as int]@));
            return true;
        }
        i = i + 1;
    }
    false
}

/// Slashes at the end of an origin make no difference.
pub proof fn trailing_slashes_do_not_matter(origin: Seq<char>)
    ensures
        bare_origin(origin.push('/')) == bare_origin(origin),
        origin_allowed(origin.push('/')) == origin_allowed(origin),
{
    assert(origin.push('/').drop_last() =~= origin);
}

} // verus!
