//! Strings as sequences of characters: searching, replacing, trimming and
//! splitting.
use vstd::prelude::*;

verus! {

/// `String::push` appends one character.
pub assume_specification[ String::push ](s: &mut String, ch: char)
    ensures
        final(s)@ == old(s)@.push(ch),
;

/// The text that may be there.
pub open spec fn text_of(s: Option<String>) -> Option<Seq<char>> {
    match s {
        Some(t) => Some(t@),
        None => None,
    }
}

/// The pattern stands in the text at position `i`.
pub open spec fn occurs_at(text: Seq<char>, pat: Seq<char>, i: int) -> bool {
    0 <= i && i + pat.len() <= text.len() && text.subrange(i, i + pat.len()) == pat
}

/// The pattern stands somewhere in the text.
pub open spec fn occurs_in(text: Seq<char>, pat: Seq<char>) -> bool {
    exists|i: int| occurs_at(text, pat, i)
}

/// The first place where the pattern stands is `i`.
pub open spec fn first_at(text: Seq<char>, pat: Seq<char>, i: int) -> bool {
    occurs_at(text, pat, i) && forall|j: int| 0 <= j < i ==> !occurs_at(text, pat, j)
}

/// The text with every occurrence of a non-empty pattern replaced, from left to
/// right and without overlaps.
pub open spec fn replaced(text: Seq<char>, pat: Seq<char>, with: Seq<char>) -> Seq<char>
    decreases text.len(),
{
    if text.len() == 0 || pat.len() == 0 {
        text
    } else if occurs_at(text, pat, 0) {
        with + replaced(text.skip(pat.len() as int), pat, with)
    } else {
        seq![text[0]] + replaced(text.skip(1), pat, with)
    }
}

/// Unicode's `White_Space` property.
pub open spec fn is_white(c: char) -> bool {
    ||| 0x9 <= c as int <= 0xD
    ||| c as int == 0x20
    ||| c as int == 0x85
    ||| c as int == 0xA0
    ||| c as int == 0x1680
    ||| 0x2000 <= c as int <= 0x200A
    ||| c as int == 0x2028
    ||| c as int == 0x2029
    ||| c as int == 0x202F
    ||| c as int == 0x205F
    ||| c as int == 0x3000
}

/// The text without the white space at its end.
pub open spec fn trimmed_end(text: Seq<char>) -> Seq<char>
    decreases text.len(),
{
    if text.len() > 0 && is_white(text.last()) {
        trimmed_end(text.drop_last())
    } else {
        text
    }
}

/// The text without the white space at its start.
pub open spec fn trimmed_start(text: Seq<char>) -> Seq<char>
    decreases text.len(),
{
    if text.len() > 0 && is_white(text[0]) {
        trimmed_start(text.skip(1))
    } else {
        text
    }
}

/// The text without the white space at both of its ends.
pub open spec fn trimmed(text: Seq<char>) -> Seq<char> {
    trimmed_end(trimmed_start(text))
}

/// The pieces of the text between the separators.
pub open spec fn pieces(text: Seq<char>, sep: char) -> Seq<Seq<char>>
    decreases text.len(),
{
    if text.len() == 0 {
        seq![Seq::empty()]
    } else {
        let rest = pieces(text.skip(1), sep);
        if text[0] == sep {
            seq![Seq::empty()] + rest
        } else {
            rest.update(0, seq![text[0]] + rest[0])
        }
    }
}

/// The characters of a string.
pub fn chars_of(s: &str) -> (chars: Vec<char>)
    ensures
        chars@ == s@,
{
    let mut chars: Vec<char> = Vec::new();
    for c in it: s.chars()
        invariant
            chars@ == it.seq().take(it.index() as int),
            it.seq() == s@,
    {
        chars.push(c);
    }
    assert(chars@ == s@);
    chars
}

/// The string made of the given characters.
pub fn string_of(chars: &[char]) -> (s: String)
    ensures
        s@ == chars@,
{
    let mut s = String::new();
    let mut i: usize = 0;
    while i < chars.len()
        invariant
            i <= chars@.len(),
            s@ == chars@.take(i as int),
        decreases chars@.len() - i,
    {
        s.push(chars[i]);
        i = i + 1;
        assert(chars@.take(i as int) == chars@.take(i - 1).push(chars@[i - 1]));
    }
    assert(chars@.take(i as int) == chars@);
    s
}

/// Whether two character sequences are the same.
pub fn same_chars(a: &[char], b: &[char]) -> (same: bool)
    ensures
        same == (a@ == b@),
{
    if a.len() != b.len() {
        return false;
    }
    let mut i: usize = 0;
    while i < a.len()
        invariant
            i <= a@.len(),
            a@.len() == b@.len(),
            forall|j: int| 0 <= j < i ==> a@[j] == b@[j],
        decreases a@.len() - i,
    {
        if a[i] != b[i] {
            return false;
        }
        i = i + 1;
    }
    assert(a@ == b@);
    true
}

/// Whether two strings are the same.
pub fn same_text(a: &str, b: &str) -> (same: bool)
    ensures
        same == (a@ == b@),
{
    let a = chars_of(a);
    let b = chars_of(b);
    same_chars(&a, &b)
}

/// A copy of a string.
pub fn copy_of(s: &str) -> (copy: String)
    ensures
        copy@ == s@,
{
    s.to_owned()
}

/// The text without a character at its end, however often it stands there.
pub open spec fn stripped_end(text: Seq<char>, c: char) -> Seq<char>
    decreases text.len(),
{
    if text.len() > 0 && text.last() == c {
        stripped_end(text.drop_last(), c)
    } else {
        text
    }
}

/// The text without a character at its end, however often it stands there.
pub fn strip_end(text: &Vec<char>, c: char) -> (out: Vec<char>)
    ensures
        out@ == stripped_end(text@, c),
{
    let mut n: usize = text.len();
    assert(text@.take(n as int) == text@);
    while n > 0 && text[n - 1] == c
        invariant
            n <= text@.len(),
            stripped_end(text@.take(n as int), c) == stripped_end(text@, c),
        decreases n,
    {
        assert(text@.take(n as int).drop_last() == text@.take(n - 1));
        n = n - 1;
    }
    let mut out: Vec<char> = Vec::new();
    let mut i: usize = 0;
    while i < n
        invariant
            i <= n <= text@.len(),
            out@ == text@.take(i as int),
        decreases n - i,
    {
        out.push(text[i]);
        i = i + 1;
        assert(text@.take(i as int) =~= text@.take(i - 1).push(text@[i - 1]));
    }
    out
}

/// Appends a text.
pub fn append(out: &mut String, more: &str)
    ensures
        final(out)@ == old(out)@ + more@,
{
    let chars = chars_of(more);
    let ghost start = out@;
    let mut i: usize = 0;
    while i < chars.len()
        invariant
            i <= chars@.len(),
            start == old(out)@,
            out@ == start + chars@.take(i as int),
        decreases chars@.len() - i,
    {
        out.push(chars[i]);
        i = i + 1;
        assert(chars@.take(i as int) =~= chars@.take(i - 1).push(chars@[i - 1]));
        assert(out@ =~= start + chars@.take(i as int));
    }
    assert(chars@.take(i as int) =~= chars@);
}

/// Two texts, one behind the other.
pub fn joined(a: &str, b: &str) -> (out: String)
    ensures
        out@ == a@ + b@,
{
    let mut out = copy_of(a);
    append(&mut out, b);
    out
}

/// The texts of a list, with a separator between each two, up to the `n`-th.
pub open spec fn list_text(list: Seq<Seq<char>>, sep: Seq<char>, n: nat) -> Seq<char>
    decreases n,
{
    if n == 0 {
        Seq::empty()
    } else if n == 1 {
        list[0]
    } else {
        list_text(list, sep, (n - 1) as nat) + sep + list[n - 1]
    }
}

/// The texts of a list of strings.
pub open spec fn texts(list: Seq<String>) -> Seq<Seq<char>> {
    Seq::new(list.len(), |i: int| list[i]@)
}

/// The texts of a list, with a separator between each two.
pub fn join_list(list: &Vec<String>, sep: &str) -> (out: String)
    ensures
        out@ == list_text(texts(list@), sep@, list@.len()),
{
    let mut out = String::new();
    assert(out@ =~= Seq::<char>::empty());
    let mut i: usize = 0;
    while i < list.len()
        invariant
            i <= list@.len(),
            out@ == list_text(texts(list@), sep@, i as nat),
        decreases list@.len() - i,
    {
        let ghost before = out@;
        if i > 0 {
            append(&mut out, sep);
        }
        append(&mut out, list[i].as_str());
        assert(texts(list@)[i as int] == list@[i as int]@);
        if i == 0 {
            assert(out@ =~= list@[0]@);
        }
        i = i + 1;
    }
    out
}

/// The two words for a truth value.
pub open spec fn truth_text(b: bool) -> Seq<char> {
    if b {
        "true"@
    } else {
        "false"@
    }
}

/// The word for a truth value.
pub fn truth(b: bool) -> (t: &'static str)
    ensures
        t@ == truth_text(b),
{
    if b {
        "true"
    } else {
        "false"
    }
}

/// Whether the pattern stands in the text at position `i`.
pub fn matches_at(text: &[char], pat: &[char], i: usize) -> (yes: bool)
    ensures
        yes == occurs_at(text@, pat@, i as int),
{
    if i > text.len() || pat.len() > text.len() - i {
        return false;
    }
    let mut j: usize = 0;
    while j < pat.len()
        invariant
            j <= pat@.len(),
            i + pat@.len() <= text@.len(),
            text@.len() <= usize::MAX,
            forall|k: int| 0 <= k < j ==> text@[i + k] == pat@[k],
        decreases pat@.len() - j,
    {
        if text[i + j] != pat[j] {
            assert(text@.subrange(i as int, i + pat@.len())[j as int] != pat@[j as int]);
            return false;
        }
        j = j + 1;
    }
    assert(text@.subrange(i as int, i + pat@.len()) == pat@);
    true
}

/// The first place where the pattern stands in the text.
pub fn find_chars(text: &[char], pat: &[char]) -> (at: Option<usize>)
    ensures
        match at {
            Some(i) => first_at(text@, pat@, i as int),
            None => !occurs_in(text@, pat@),
        },
{
    let mut i: usize = 0;
    while i < text.len()
        invariant
            i <= text@.len(),
            forall|j: int| 0 <= j < i ==> !occurs_at(text@, pat@, j),
        decreases text@.len() - i,
    {
        if matches_at(text, pat, i) {
            return Some(i);
        }
        i = i + 1;
    }
    if matches_at(text, pat, i) {
        return Some(i);
    }
    None
}

/// Whether the pattern stands anywhere in the text.
pub fn has_chars(text: &[char], pat: &[char]) -> (yes: bool)
    ensures
        yes == occurs_in(text@, pat@),
{
    find_chars(text, pat).is_some()
}

/// Whether the string `pat` stands anywhere in the string `text`.
pub fn has_text(text: &str, pat: &str) -> (yes: bool)
    ensures
        yes == occurs_in(text@, pat@),
{
    let text = chars_of(text);
    let pat = chars_of(pat);
    has_chars(&text, &pat)
}

/// Replaces every occurrence of `pat` by `with`, from left to right.
pub fn replace_chars(text: &[char], pat: &[char], with: &[char]) -> (out: Vec<char>)
    ensures
        out@ == replaced(text@, pat@, with@),
{
    let mut out: Vec<char> = Vec::new();
    let mut i: usize = 0;
    assert(text@.skip(0) == text@);
    while i < text.len() && pat.len() > 0
        invariant
            i <= text@.len(),
            out@ + replaced(text@.skip(i as int), pat@, with@) == replaced(text@, pat@, with@),
        decreases text@.len() - i,
    {
        let ghost rest = text@.skip(i as int);
        if matches_at(text, pat, i) {
            assert(rest.subrange(0, pat@.len() as int) == text@.subrange(i as int, i + pat@.len()));
            assert(occurs_at(rest, pat@, 0));
            let ghost before = out@;
            let mut j: usize = 0;
            while j < with.len()
                invariant
                    j <= with@.len(),
                    out@ == before + with@.take(j as int),
                decreases with@.len() - j,
            {
                out.push(with[j]);
                j = j + 1;
                assert(with@.take(j as int) == with@.take(j - 1).push(with@[j - 1]));
            }
            assert(with@.take(j as int) == with@);
            i = i + pat.len();
            assert(rest.skip(pat@.len() as int) == text@.skip(i as int));
        } else {
            assert(!occurs_at(rest, pat@, 0)) by {
                if occurs_at(rest, pat@, 0) {
                    assert(rest.subrange(0, pat@.len() as int)
                        == text@.subrange(i as int, i + pat@.len()));
                }
            }
            out.push(text[i]);
            i = i + 1;
            assert(rest.skip(1) == text@.skip(i as int));
        }
        assert(out@ + replaced(text@.skip(i as int), pat@, with@)
            == replaced(text@, pat@, with@));
    }
    while i < text.len()
        invariant
            i <= text@.len(),
            pat@.len() == 0 || i == text@.len(),
            pat@.len() == 0 ==> out@ == text@.take(i as int),
            pat@.len() > 0 ==> out@ == replaced(text@, pat@, with@),
        decreases text@.len() - i,
    {
        out.push(text[i]);
        i = i + 1;
    }
    assert(text@.take(text@.len() as int) == text@);
    out
}

/// `replace_chars` on strings.
pub fn replace_text(text: &str, pat: &str, with: &str) -> (out: String)
    ensures
        out@ == replaced(text@, pat@, with@),
{
    let text = chars_of(text);
    let pat = chars_of(pat);
    let with = chars_of(with);
    let out = replace_chars(&text, &pat, &with);
    string_of(&out)
}

/// Whether a character is white space.
pub fn is_white_space(c: char) -> (yes: bool)
    ensures
        yes == is_white(c),
{
    let n: u32 = c as u32;
    (0x9 <= n && n <= 0xD) || n == 0x20 || n == 0x85 || n == 0xA0 || n == 0x1680 || (0x2000 <= n
        && n <= 0x200A) || n == 0x2028 || n == 0x2029 || n == 0x202F || n == 0x205F || n == 0x3000
}

/// Removes the white space at both ends.
pub fn trim_chars(text: &[char]) -> (out: Vec<char>)
    ensures
        out@ == trimmed(text@),
{
    let mut start: usize = 0;
    assert(text@.skip(0) == text@);
    while start < text.len() && is_white_space(text[start])
        invariant
            start <= text@.len(),
            trimmed_start(text@.skip(start as int)) == trimmed_start(text@),
        decreases text@.len() - start,
    {
        assert(text@.skip(start as int).skip(1) == text@.skip(start + 1));
        start = start + 1;
    }
    let ghost body = text@.skip(start as int);
    assert(trimmed_start(text@) == body);
    let mut end: usize = text.len();
    assert(text@.subrange(start as int, end as int) == body);
    while end > start && is_white_space(text[end - 1])
        invariant
            start <= end <= text@.len(),
            trimmed_end(text@.subrange(start as int, end as int)) == trimmed_end(body),
        decreases end,
    {
        assert(text@.subrange(start as int, end as int).drop_last()
            == text@.subrange(start as int, end - 1));
        end = end - 1;
    }
    let mut out: Vec<char> = Vec::new();
    let mut i: usize = start;
    while i < end
        invariant
            start <= i <= end <= text@.len(),
            out@ == text@.subrange(start as int, i as int),
        decreases end - i,
    {
        out.push(text[i]);
        i = i + 1;
    }
    out
}

/// `trim_chars` on strings.
pub fn trim_text(text: &str) -> (out: String)
    ensures
        out@ == trimmed(text@),
{
    let text = chars_of(text);
    let out = trim_chars(&text);
    string_of(&out)
}

/// A text has at least one piece.
pub proof fn lemma_pieces_nonempty(text: Seq<char>, sep: char)
    ensures
        pieces(text, sep).len() >= 1,
    decreases text.len(),
{
    if text.len() > 0 {
        lemma_pieces_nonempty(text.skip(1), sep);
    }
}

/// The pieces of the text from `from` on between the separators.
pub fn split_chars(text: &[char], from: usize, sep: char) -> (out: Vec<Vec<char>>)
    requires
        from <= text@.len(),
    ensures
        out@.len() == pieces(text@.skip(from as int), sep).len(),
        out@.len() >= 1,
        forall|k: int|
            0 <= k < out@.len() ==> (#[trigger] out@[k])@ == pieces(
                text@.skip(from as int),
                sep,
            )[k],
{
    let mut out: Vec<Vec<char>> = Vec::new();
    let mut piece: Vec<char> = Vec::new();
    let mut i: usize = from;
    let ghost all = pieces(text@.skip(from as int), sep);
    proof {
        lemma_pieces_nonempty(text@.skip(from as int), sep);
        let rest = pieces(text@.skip(from as int), sep);
        assert(Seq::<Seq<char>>::empty() + rest.update(0, Seq::<char>::empty() + rest[0]) =~= rest)
            by {
            assert(Seq::<char>::empty() + rest[0] =~= rest[0]);
        }
    }
    while i < text.len()
        invariant
            from <= i <= text@.len(),
            all == pieces(text@.skip(from as int), sep),
            pieces(text@.skip(i as int), sep).len() >= 1,
            out@.len() + pieces(text@.skip(i as int), sep).len() == all.len(),
            forall|k: int| 0 <= k < out@.len() ==> (#[trigger] out@[k])@ == all[k],
            all[out@.len() as int] == piece@ + pieces(text@.skip(i as int), sep)[0],
            forall|k: int|
                1 <= k < pieces(text@.skip(i as int), sep).len() ==> all[out@.len() + k]
                    == #[trigger] pieces(text@.skip(i as int), sep)[k],
        decreases text@.len() - i,
    {
        let ghost here = text@.skip(i as int);
        let ghost rest = pieces(text@.skip(i + 1), sep);
        proof {
            assert(here.skip(1) =~= text@.skip(i + 1));
            assert(here[0] == text@[i as int]);
            lemma_pieces_nonempty(text@.skip(i + 1), sep);
        }
        let c: char = text[i];
        if c == sep {
            proof {
                assert(pieces(here, sep) == seq![Seq::<char>::empty()] + rest);
                assert(piece@ + Seq::<char>::empty() =~= piece@);
                assert forall|k: int| 0 <= k < rest.len() implies all[out@.len() + 1 + k]
                    == #[trigger] rest[k] by {
                    assert(pieces(here, sep)[k + 1] == rest[k]);
                    assert(all[out@.len() + (k + 1)] == pieces(here, sep)[k + 1]);
                }
                assert(Seq::<char>::empty() + rest[0] =~= rest[0]);
            }
            let ghost n = out@.len();
            out.push(piece);
            piece = Vec::new();
            assert(all[n as int] == out@[n as int]@);
            assert(all[n as int + 1 + 0] == rest[0]);
        } else {
            proof {
                assert(pieces(here, sep) == rest.update(0, seq![c] + rest[0]));
                assert(piece@ + (seq![c] + rest[0]) =~= piece@.push(c) + rest[0]);
                assert forall|k: int| 1 <= k < rest.len() implies all[out@.len() + k]
                    == #[trigger] rest[k] by {
                    assert(pieces(here, sep)[k] == rest[k]);
                }
            }
            piece.push(c);
        }
        i = i + 1;
    }
    proof {
        assert(text@.skip(i as int).len() == 0);
        assert(piece@ + Seq::<char>::empty() =~= piece@);
    }
    out.push(piece);
    out
}

} // verus!
