//! The language of messages.
use crate::text::{chars_of, find_chars, same_text, string_of};
use vstd::prelude::*;

verus! {

/// The language that messages are shown in, Chinese unless English was chosen.
#[derive(Debug, Clone, Copy)]
pub struct Lang {
    pub english: bool,
}

impl Default for Lang {
    fn default() -> (lang: Self)
        ensures
            !lang.english,
    {
        Lang { english: false }
    }
}

/// Chooses the language: `"en"` is English, anything else Chinese.
pub fn set_lang(lang: &mut Lang, name: &str)
    ensures
        final(lang).english == (name@ == "en"@),
{
    lang.english = same_text(name, "en");
}

/// The name of the language.
pub fn get_lang(lang: &Lang) -> (name: &'static str)
    ensures
        name@ == if lang.english {
            "en"@
        } else {
            "zh"@
        },
{
    if lang.english {
        "en"
    } else {
        "zh"
    }
}

/// Whether the language is English.
pub fn is_en(lang: &Lang) -> (yes: bool)
    ensures
        yes == lang.english,
{
    lang.english
}

/// What stands between the two halves of a message.
pub open spec fn halves_mark() -> Seq<char> {
    " / "@
}

/// The half of a message in the language: what stands before or behind the
/// first mark, and the whole message where there is no mark.
pub open spec fn localized(msg: Seq<char>, english: bool, out: Seq<char>) -> bool {
    if crate::text::occurs_in(msg, halves_mark()) {
        exists|i: int| #[trigger]
            crate::text::first_at(msg, halves_mark(), i) && out == if english {
                msg.skip(i + halves_mark().len())
            } else {
                msg.take(i)
            }
    } else {
        out == msg
    }
}

/// Picks the half of a `"Chinese / English"` message.
pub fn localize(lang: &Lang, msg: &str) -> (out: String)
    ensures
        localized(msg@, lang.english, out@),
{
    let chars = chars_of(msg);
    let mark = chars_of(" / ");
    match find_chars(&chars, &mark) {
        Some(i) => {
            let len: usize = chars.len();
            let (from, to): (usize, usize) = if lang.english {
                (i + mark.len(), len)
            } else {
                (0, i)
            };
            let mut half: Vec<char> = Vec::new();
            let mut k: usize = from;
            while k < to
                invariant
                    from <= k <= to <= chars@.len(),
                    half@ == chars@.subrange(from as int, k as int),
                decreases to - k,
            {
                half.push(chars[k]);
                k = k + 1;
            }
            assert(half@ == if lang.english {
                msg@.skip(i + halves_mark().len())
            } else {
                msg@.take(i as int)
            });
            assert(crate::text::occurs_in(msg@, halves_mark()));
            string_of(&half)
        },
        None => string_of(&chars),
    }
}

/// The half of a message does not depend on how it was found: two halves of the
/// same message in the same language are equal.
pub proof fn localized_is_unique(msg: Seq<char>, english: bool, a: Seq<char>, b: Seq<char>)
    requires
        localized(msg, english, a),
        localized(msg, english, b),
    ensures
        a == b,
{
    if crate::text::occurs_in(msg, halves_mark()) {
        let i = choose|i: int| #[trigger]
            crate::text::first_at(msg, halves_mark(), i) && a == if english {
                msg.skip(i + halves_mark().len())
            } else {
                msg.take(i)
            };
        let j = choose|i: int| #[trigger]
            crate::text::first_at(msg, halves_mark(), i) && b == if english {
                msg.skip(i + halves_mark().len())
            } else {
                msg.take(i)
            };
        assert(i == j);
    }
}

/// Of a message in two halves the first is Chinese and the second English; a
/// message without halves is the same in both languages.
pub proof fn the_second_half_is_english(zh: Seq<char>, en: Seq<char>, out: Seq<char>)
    requires
        forall|i: int| 0 <= i < zh.len() ==> !#[trigger] crate::text::occurs_at(
            zh + " / "@ + en,
            " / "@,
            i,
        ),
    ensures
        localized(zh + " / "@ + en, true, out) ==> out == en,
        localized(zh + " / "@ + en, false, out) ==> out == zh,
{
    reveal_strlit(" / ");
    let mark = " / "@;
    let msg = zh + mark + en;
    let n = zh.len() as int;
    assert(msg.subrange(n, n + 3) =~= mark);
    assert(crate::text::occurs_at(msg, mark, n));
    assert(crate::text::first_at(msg, mark, n));
    assert(msg.skip(n + 3) =~= en);
    assert(msg.take(n) =~= zh);
    localized_is(msg, n);
}

proof fn localized_is(msg: Seq<char>, n: int)
    requires
        crate::text::first_at(msg, " / "@, n),
    ensures
        forall|english: bool, out: Seq<char>| #[trigger]
            localized(msg, english, out) ==> out == if english {
                msg.skip(n + " / "@.len())
            } else {
                msg.take(n)
            },
{
    assert forall|english: bool, out: Seq<char>| #[trigger] localized(msg, english, out) implies out
        == if english {
        msg.skip(n + " / "@.len())
    } else {
        msg.take(n)
    } by {
        assert(crate::text::occurs_in(msg, halves_mark()));
        let i = choose|i: int| #[trigger]
            crate::text::first_at(msg, halves_mark(), i) && out == if english {
                msg.skip(i + halves_mark().len())
            } else {
                msg.take(i)
            };
        assert(i == n);
    }
}

/// A message without halves is told as it is.
pub proof fn single_messages_are_told_as_they_are(msg: Seq<char>, english: bool, out: Seq<char>)
    requires
        !crate::text::occurs_in(msg, " / "@),
        localized(msg, english, out),
    ensures
        out == msg,
{
}

} // verus!
