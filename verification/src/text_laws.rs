//! What holds of texts that are cut, trimmed and put together.
use crate::number::{
    decimal, digits_value, fraction_value, decimal_value, is_digit, all_digits, point_at, i32_of,
    u32_of, padded,
};
use crate::text::{
    is_white, list_text, occurs_at, occurs_in, pieces, replaced, stripped_end, trimmed,
    trimmed_end, trimmed_start, truth_text,
};
use vstd::prelude::*;

verus! {

/// All of the text is white space.
pub open spec fn all_white(text: Seq<char>) -> bool {
    forall|i: int| 0 <= i < text.len() ==> is_white(#[trigger] text[i])
}

/// White space around a text goes, and nothing else does.
pub proof fn trimming_takes_white_space_off(before: Seq<char>, text: Seq<char>, after: Seq<char>)
    requires
        all_white(before),
        all_white(after),
        text.len() > 0,
        !is_white(text[0]),
        !is_white(text.last()),
    ensures
        trimmed(before + text + after) == text,
{
    lemma_trimmed_start(before, text + after);
    assert(before + text + after =~= before + (text + after));
    assert((text + after)[0] == text[0]);
    lemma_trimmed_end(text, after);
}

proof fn lemma_trimmed_start(before: Seq<char>, rest: Seq<char>)
    requires
        all_white(before),
        rest.len() > 0,
        !is_white(rest[0]),
    ensures
        trimmed_start(before + rest) == rest,
    decreases before.len(),
{
    let all = before + rest;
    if before.len() > 0 {
        assert(all[0] == before[0]);
        assert(is_white(before[0]));
        assert(all.skip(1) =~= before.skip(1) + rest);
        assert forall|i: int| 0 <= i < before.skip(1).len() implies is_white(
            #[trigger] before.skip(1)[i],
        ) by {
            assert(before.skip(1)[i] == before[i + 1]);
        }
        lemma_trimmed_start(before.skip(1), rest);
    } else {
        assert(all =~= rest);
    }
}

proof fn lemma_trimmed_end(text: Seq<char>, after: Seq<char>)
    requires
        all_white(after),
        text.len() > 0,
        !is_white(text.last()),
    ensures
        trimmed_end(text + after) == text,
    decreases after.len(),
{
    let all = text + after;
    if after.len() > 0 {
        assert(all.last() == after.last());
        assert(is_white(after[after.len() - 1]));
        assert(all.drop_last() =~= text + after.drop_last());
        assert forall|i: int| 0 <= i < after.drop_last().len() implies is_white(
            #[trigger] after.drop_last()[i],
        ) by {
            assert(after.drop_last()[i] == after[i]);
        }
        lemma_trimmed_end(text, after.drop_last());
    } else {
        assert(all =~= text);
    }
}

/// A text of white space alone is trimmed to nothing.
pub proof fn white_space_is_trimmed_to_nothing(text: Seq<char>)
    requires
        all_white(text),
    ensures
        trimmed(text).len() == 0,
    decreases text.len(),
{
    if text.len() > 0 {
        assert(is_white(text[0]));
        assert forall|i: int| 0 <= i < text.skip(1).len() implies is_white(
            #[trigger] text.skip(1)[i],
        ) by {
            assert(text.skip(1)[i] == text[i + 1]);
        }
        white_space_is_trimmed_to_nothing(text.skip(1));
    }
}

/// Spaces, tabs and line breaks are white, letters and digits are not.
pub proof fn white_characters(c: char)
    ensures
        c == ' ' || c == '\t' || c == '\n' || c == '\r' || c == '\u{3000}' || c == '\u{A0}'
            ==> is_white(c),
        is_white(c) ==> c as int <= 0x3000 && !('!' <= c <= '~') && !is_digit(c),
        0x3001 <= c as int ==> !is_white(c),
{
}

/// A text is cut at each separator: what stands before the first one is the first
/// piece, and the others are those of the rest.
pub proof fn texts_are_cut_at_separators(first: Seq<char>, rest: Seq<char>, sep: char)
    requires
        !first.contains(sep),
    ensures
        pieces(first, sep) == seq![first],
        pieces(first.push(sep) + rest, sep) == seq![first] + pieces(rest, sep),
    decreases first.len(),
{
    crate::text::lemma_pieces_nonempty(rest, sep);
    let all = first.push(sep) + rest;
    if first.len() == 0 {
        assert(first =~= Seq::<char>::empty());
        assert(all[0] == sep);
        assert(all.skip(1) =~= rest);
    } else {
        let less = first.skip(1);
        assert(first[0] != sep) by {
            assert(first.contains(first[0]));
        }
        assert(!less.contains(sep)) by {
            if less.contains(sep) {
                let i = choose|i: int| 0 <= i < less.len() && less[i] == sep;
                assert(first[i + 1] == sep);
            }
        }
        texts_are_cut_at_separators(less, rest, sep);
        assert(all[0] == first[0]);
        assert(all.skip(1) =~= less.push(sep) + rest);
        assert(seq![first[0]] + less =~= first);
        let cut = seq![less] + pieces(rest, sep);
        assert(cut[0] == less);
        assert(pieces(all, sep) =~= seq![first] + pieces(rest, sep));
        assert(pieces(first, sep) =~= seq![first]);
    }
}

/// All copies of a character at the end of a text go.
pub proof fn stripping_takes_one_character_off(text: Seq<char>, c: char)
    ensures
        stripped_end(text.push(c), c) == stripped_end(text, c),
        text.len() == 0 || text.last() != c ==> stripped_end(text, c) == text,
        stripped_end(text, c).len() <= text.len(),
        stripped_end(text, c) == text.take(stripped_end(text, c).len() as int),
    decreases text.len(),
{
    assert(text.push(c).drop_last() =~= text);
    if text.len() > 0 && text.last() == c {
        stripping_takes_one_character_off(text.drop_last(), c);
        let n = stripped_end(text, c).len() as int;
        assert(text.take(n) =~= text.drop_last().take(n));
    } else {
        assert(text.take(text.len() as int) =~= text);
    }
}

/// A text in which the pattern does not occur stays, and a first occurrence is
/// replaced.
pub proof fn occurrences_are_replaced(
    before: Seq<char>,
    pat: Seq<char>,
    after: Seq<char>,
    with: Seq<char>,
)
    requires
        pat.len() > 0,
        forall|i: int| 0 <= i < before.len() ==> !#[trigger] occurs_at(before + pat + after, pat, i),
    ensures
        replaced(before + pat + after, pat, with) == before + with + replaced(after, pat, with),
    decreases before.len(),
{
    let all = before + pat + after;
    if before.len() == 0 {
        assert(before =~= Seq::<char>::empty());
        assert(all.subrange(0, pat.len() as int) =~= pat);
        assert(occurs_at(all, pat, 0));
        assert(all.skip(pat.len() as int) =~= after);
        assert(before + with =~= with);
    } else {
        assert(!occurs_at(all, pat, 0));
        let less = before.skip(1);
        assert(all.skip(1) =~= less + pat + after);
        assert forall|i: int| 0 <= i < less.len() implies !#[trigger] occurs_at(
            less + pat + after,
            pat,
            i,
        ) by {
            assert(!occurs_at(all, pat, i + 1));
            assert((less + pat + after).subrange(i, i + pat.len()) =~= all.subrange(
                i + 1,
                i + 1 + pat.len(),
            ));
        }
        occurrences_are_replaced(less, pat, after, with);
        assert(all[0] == before[0]);
        assert(seq![before[0]] + (less + with + replaced(after, pat, with)) =~= before + with
            + replaced(after, pat, with));
    }
}

/// A text without the pattern stays as it is.
pub proof fn nothing_else_is_replaced(text: Seq<char>, pat: Seq<char>, with: Seq<char>)
    requires
        pat.len() > 0,
        !occurs_in(text, pat),
    ensures
        replaced(text, pat, with) == text,
    decreases text.len(),
{
    if text.len() > 0 {
        assert(!occurs_at(text, pat, 0));
        assert(!occurs_in(text.skip(1), pat)) by {
            if occurs_in(text.skip(1), pat) {
                let i = choose|i: int| occurs_at(text.skip(1), pat, i);
                assert(text.skip(1).subrange(i, i + pat.len()) =~= text.subrange(
                    i + 1,
                    i + 1 + pat.len(),
                ));
                assert(occurs_at(text, pat, i + 1));
            }
        }
        nothing_else_is_replaced(text.skip(1), pat, with);
        assert(seq![text[0]] + text.skip(1) =~= text);
    }
}

/// The texts of a list stand in their order with the separator between them.
pub proof fn lists_are_put_together(list: Seq<Seq<char>>, sep: Seq<char>, n: nat)
    requires
        n < list.len(),
    ensures
        list_text(list, sep, 0).len() == 0,
        list_text(list, sep, 1) == list[0],
        n >= 1 ==> list_text(list, sep, n + 1) == list_text(list, sep, n) + sep + list[n as int],
{
}

/// Truth is told in words.
pub proof fn truth_is_told(b: bool)
    ensures
        truth_text(b) == if b {
            "true"@
        } else {
            "false"@
        },
        truth_text(true) != truth_text(false),
{
    reveal_strlit("true");
    reveal_strlit("false");
    assert("true"@.len() != "false"@.len());
}

/// A further digit makes ten times the number and adds the digit; the digits are
/// those from 0 to 9.
pub proof fn digits_make_numbers(text: Seq<char>, d: char)
    ensures
        digits_value(text.push(d)) == 10 * digits_value(text) + (d as int - 48),
        digits_value(Seq::<char>::empty()) == 0,
        is_digit(d) <==> 48 <= d as int <= 57,
{
    assert(text.push(d).drop_last() =~= text);
}

/// Digits alone are a number where it fits, a plus sign before them does not
/// matter, and a minus sign makes it negative.
pub proof fn signs_go_before_numbers(digits: Seq<char>)
    requires
        digits.len() > 0,
        all_digits(digits),
        digits_value(digits) <= 0x7fff_ffff,
    ensures
        i32_of(digits) == Some(digits_value(digits)),
        i32_of(seq!['+'] + digits) == Some(digits_value(digits)),
        i32_of(seq!['-'] + digits) == Some(-digits_value(digits)),
        u32_of(digits) == Some(digits_value(digits)),
{
    assert(is_digit(digits[0]));
    assert((seq!['+'] + digits).skip(1) =~= digits);
    assert((seq!['-'] + digits).skip(1) =~= digits);
}

/// A text with a character that is neither a digit nor a sign at its start is no
/// number, and neither is a number that does not fit.
pub proof fn other_texts_are_no_numbers(text: Seq<char>, i: int)
    requires
        0 < i < text.len(),
        !is_digit(text[i]),
    ensures
        i32_of(text) is None,
        u32_of(text) is None,
{
    assert(text.skip(1)[i - 1] == text[i]);
}

proof fn lemma_point(whole: Seq<char>, rest: Seq<char>)
    requires
        all_digits(whole),
        rest.len() > 0 ==> rest[0] == '.',
    ensures
        point_at(whole + rest) == whole.len(),
    decreases whole.len(),
{
    let all = whole + rest;
    if whole.len() > 0 {
        assert(all[0] == whole[0]);
        assert(is_digit(whole[0]));
        assert(all.skip(1) =~= whole.skip(1) + rest);
        assert forall|i: int| 0 <= i < whole.skip(1).len() implies is_digit(
            #[trigger] whole.skip(1)[i],
        ) by {
            assert(whole.skip(1)[i] == whole[i + 1]);
        }
        lemma_point(whole.skip(1), rest);
    } else {
        assert(all =~= rest);
    }
}

/// A decimal number is its whole part and one tenth of its first decimal and so
/// on: in millionths, the whole part counts a million times, one decimal a
/// hundred thousand times and a second one ten thousand times.
pub proof fn decimals_are_tenths(whole: Seq<char>, a: char, b: char)
    requires
        whole.len() > 0,
        all_digits(whole),
        digits_value(whole) < 1_000_000_000,
        is_digit(a),
        is_digit(b),
    ensures
        decimal_value(whole) == Some(1_000_000 * digits_value(whole)),
        decimal_value(whole.push('.')) == Some(1_000_000 * digits_value(whole)),
        decimal_value(whole.push('.').push(a)) == Some(
            1_000_000 * digits_value(whole) + 100_000 * (a as int - 48),
        ),
        decimal_value(whole.push('.').push(a).push(b)) == Some(
            1_000_000 * digits_value(whole) + 100_000 * (a as int - 48) + 10_000 * (b as int - 48),
        ),
        decimal_value(seq!['.', a]) == Some(100_000 * (a as int - 48)),
        decimal_value(seq!['.']) is None,
{
    crate::number::lemma_value_nonneg(whole);
    reveal_with_fuel(fraction_value, 4);
    let none = Seq::<char>::empty();
    lemma_point(whole, none);
    assert(whole + none =~= whole);
    assert(whole.take(whole.len() as int) =~= whole);
    let n = whole.len() as int;
    let t1 = whole.push('.');
    lemma_point(whole, seq!['.']);
    assert(whole + seq!['.'] =~= t1);
    assert(t1.take(n) =~= whole && t1.skip(n + 1) =~= none);
    let t2 = t1.push(a);
    lemma_point(whole, seq!['.', a]);
    assert(whole + seq!['.', a] =~= t2);
    assert(t2.take(n) =~= whole && t2.skip(n + 1) =~= seq![a]);
    assert(seq![a].skip(1) =~= none);
    assert(all_digits(seq![a]));
    let t3 = t2.push(b);
    lemma_point(whole, seq!['.', a, b]);
    assert(whole + seq!['.', a, b] =~= t3);
    assert(t3.take(n) =~= whole && t3.skip(n + 1) =~= seq![a, b]);
    assert(seq![a, b].skip(1) =~= seq![b] && seq![b].skip(1) =~= none);
    assert(all_digits(seq![a, b]));
    let t4 = seq!['.', a];
    assert(point_at(t4) == 0);
    assert(t4.take(0) =~= none && t4.skip(1) =~= seq![a]);
    let t5 = seq!['.'];
    assert(point_at(t5) == 0);
    assert(t5.take(0) =~= none && t5.skip(1) =~= none);
}

proof fn lemma_zeros(zeros: Seq<char>, text: Seq<char>)
    requires
        forall|i: int| 0 <= i < zeros.len() ==> #[trigger] zeros[i] == '0',
    ensures
        digits_value(zeros + text) == digits_value(text),
    decreases text.len(), zeros.len(),
{
    let all = zeros + text;
    if text.len() > 0 {
        assert(all.drop_last() =~= zeros + text.drop_last());
        assert(all.last() == text.last());
        lemma_zeros(zeros, text.drop_last());
    } else if zeros.len() > 0 {
        assert(all =~= zeros);
        assert(zeros.last() == '0');
        let less = zeros.drop_last();
        assert forall|i: int| 0 <= i < less.len() implies #[trigger] less[i] == '0' by {
            assert(less[i] == zeros[i]);
        }
        lemma_zeros(less, text);
        assert(less + text =~= less);
        assert(digits_value(zeros) == digits_value(less) * 10);
        assert(text =~= Seq::<char>::empty());
    } else {
        assert(all =~= text);
    }
}

/// A number that is filled up with zeros has at least the width, and is the same
/// number.
pub proof fn filled_numbers_keep_their_value(n: nat, width: nat)
    ensures
        padded(n, width).len() >= width,
        digits_value(padded(n, width)) == n,
        decimal(n).len() >= width ==> padded(n, width) == decimal(n),
{
    crate::number::decimal_reads_back(n, n as int);
    if decimal(n).len() < width {
        let zeros = Seq::new((width - decimal(n).len()) as nat, |i: int| '0');
        lemma_zeros(zeros, decimal(n));
    }
}

} // verus!
