//! The recognition models and their dictionaries.
use crate::server::origin::{eq_ignore_case, same_but_case};
use crate::text::{chars_of, copy_of, pieces, split_chars, string_of, trim_chars, trimmed};
use vstd::prelude::*;

verus! {

/// A recognition model.
#[derive(Debug, Clone, Copy, PartialEq, Eq, Structural)]
pub enum OcrModel {
    V3,
    V5,
}

/// The model that a setting names.
pub open spec fn model_named(backend: Seq<char>) -> OcrModel {
    if same_but_case(backend, "paddlev3"@) || same_but_case(backend, "ppocrv3"@) {
        OcrModel::V3
    } else {
        OcrModel::V5
    }
}

/// The model that a setting names: the newer one unless the older is asked for.
pub fn get_image_to_text(backend: &str) -> (model: OcrModel)
    ensures
        model == model_named(backend@),
{
    if eq_ignore_case(backend, "paddlev3") || eq_ignore_case(backend, "ppocrv3") {
        OcrModel::V3
    } else {
        OcrModel::V5
    }
}

/// The lines of a text: what follows the last line break counts unless it is
/// empty.
pub open spec fn lines_of(text: Seq<char>) -> Seq<Seq<char>> {
    let all = pieces(text, '\n');
    if all.last().len() == 0 {
        all.drop_last()
    } else {
        all
    }
}

/// The entries of a dictionary: its lines, and a space.
pub fn dictionary(text: &str) -> (entries: Vec<String>)
    ensures
        entries@.len() == lines_of(text@).len() + 1,
        forall|i: int|
            0 <= i < lines_of(text@).len() ==> (#[trigger] entries@[i])@ == trimmed(
                lines_of(text@)[i],
            ),
        entries@.last()@ == " "@,
{
    let chars = chars_of(text);
    assert(chars@.skip(0) =~= text@);
    let lines = split_chars(&chars, 0, '\n');
    let ghost all = pieces(text@, '\n');
    assert(lines@.last()@ == all.last());
    let mut n: usize = lines.len();
    if lines[n - 1].len() == 0 {
        n = n - 1;
    }
    let mut entries: Vec<String> = Vec::new();
    let mut i: usize = 0;
    while i < n
        invariant
            i <= n <= lines@.len(),
            n == lines_of(text@).len(),
            entries@.len() == i,
            lines@.len() == all.len(),
            all == pieces(text@, '\n'),
            forall|k: int| 0 <= k < lines@.len() ==> (#[trigger] lines@[k])@ == all[k],
            forall|k: int|
                0 <= k < i ==> (#[trigger] entries@[k])@ == trimmed(lines_of(text@)[k]),
        decreases n - i,
    {
        assert(lines@[i as int]@ == lines_of(text@)[i as int]);
        entries.push(string_of(&trim_chars(&lines[i])));
        i = i + 1;
    }
    entries.push(copy_of(" "));
    entries
}

/// A text has a line for each line break and one more for what stands behind the
/// last one, unless nothing does.
pub proof fn texts_have_lines(text: Seq<char>)
    requires
        pieces(text, '\n').len() > 0,
    ensures
        pieces(text, '\n').last().len() == 0 ==> lines_of(text).len() + 1 == pieces(text, '\n').len(),
        pieces(text, '\n').last().len() > 0 ==> lines_of(text) == pieces(text, '\n'),
        forall|i: int|
            0 <= i < lines_of(text).len() ==> #[trigger] lines_of(text)[i] == pieces(text, '\n')[i],
{
}

/// Two names stand for the older model, however they are written; every other one
/// stands for the newer model.
pub proof fn two_names_are_those_of_the_older_model(backend: Seq<char>)
    ensures
        model_named(backend) == OcrModel::V3 || model_named(backend) == OcrModel::V5,
        same_but_case(backend, "paddlev3"@) ==> model_named(backend) == OcrModel::V3,
        same_but_case(backend, "ppocrv3"@) ==> model_named(backend) == OcrModel::V3,
        model_named(backend) == OcrModel::V3 ==> same_but_case(backend, "paddlev3"@)
            || same_but_case(backend, "ppocrv3"@),
{
}

} // verus!
