//! Levels and level caps in misread texts.
use crate::number::parse_i32;
use crate::text::chars_of;
use vstd::prelude::*;

verus! {

/// The distance of two numbers.
pub open spec fn apart(a: int, b: int) -> int {
    if a >= b {
        a - b
    } else {
        b - a
    }
}

/// Which of the first `n` caps is nearest to a number, the first of several.
pub open spec fn nearest_among(caps: Seq<i32>, raw: int, n: nat) -> int
    decreases n,
{
    if n <= 1 {
        0
    } else {
        let earlier = nearest_among(caps, raw, (n - 1) as nat);
        if apart(caps[n - 1] as int, raw) < apart(caps[earlier] as int, raw) {
            n - 1
        } else {
            earlier
        }
    }
}

/// The cap that is nearest to a number.
pub open spec fn nearest_cap(caps: Seq<i32>, raw: int) -> int {
    if caps.len() == 0 {
        raw
    } else {
        caps[nearest_among(caps, raw, caps.len())] as int
    }
}

/// The cap that is nearest to a number.
pub fn snap_to_cap(caps: &[i32], raw: i32) -> (cap: i32)
    ensures
        cap == nearest_cap(caps@, raw as int),
{
    if caps.len() == 0 {
        return raw;
    }
    let mut best: usize = 0;
    let mut i: usize = 1;
    while i < caps.len()
        invariant
            1 <= i <= caps@.len(),
            best < caps@.len(),
            best == nearest_among(caps@, raw as int, i as nat),
        decreases caps@.len() - i,
    {
        let r: i64 = raw as i64;
        let a: i64 = caps[i] as i64 - r;
        let b: i64 = caps[best] as i64 - r;
        let a: i64 = if a < 0 {
            -a
        } else {
            a
        };
        let b: i64 = if b < 0 {
            -b
        } else {
            b
        };
        if a < b {
            best = i;
        }
        i = i + 1;
    }
    caps[best]
}

/// The cap that a number is brought to is one of the caps, and no cap is nearer.
pub proof fn no_cap_is_nearer(caps: Seq<i32>, raw: int, k: int)
    requires
        0 <= k < caps.len(),
    ensures
        exists|i: int| 0 <= i < caps.len() && #[trigger] caps[i] == nearest_cap(caps, raw),
        apart(nearest_cap(caps, raw), raw) <= apart(caps[k] as int, raw),
{
    lemma_nearest(caps, raw, caps.len(), k);
    assert(caps[nearest_among(caps, raw, caps.len())] == nearest_cap(caps, raw));
}

proof fn lemma_nearest(caps: Seq<i32>, raw: int, n: nat, k: int)
    requires
        0 <= k < n <= caps.len(),
    ensures
        0 <= nearest_among(caps, raw, n) < n,
        apart(caps[nearest_among(caps, raw, n)] as int, raw) <= apart(caps[k] as int, raw),
    decreases n,
{
    if n > 1 {
        lemma_nearest(caps, raw, (n - 1) as nat, 0);
        if k < n - 1 {
            lemma_nearest(caps, raw, (n - 1) as nat, k);
        }
    }
}

/// The ASCII digits of a text.
pub open spec fn digits_of(text: Seq<char>) -> Seq<char> {
    text.filter(|c: char| crate::number::is_digit(c))
}

/// The ASCII digits of a text.
pub fn keep_digits(text: &str) -> (out: Vec<char>)
    ensures
        out@ == digits_of(text@),
{
    let chars = chars_of(text);
    let mut out: Vec<char> = Vec::new();
    let mut i: usize = 0;
    reveal(Seq::filter);
    assert(chars@.take(0).filter(|c: char| crate::number::is_digit(c)) =~= Seq::<char>::empty());
    while i < chars.len()
        invariant
            i <= chars@.len(),
            out@ == chars@.take(i as int).filter(|c: char| crate::number::is_digit(c)),
        decreases chars@.len() - i,
    {
        let c = chars[i];
        reveal(Seq::filter);
        assert(chars@.take(i + 1).drop_last() =~= chars@.take(i as int));
        assert(chars@.take(i + 1).last() == c);
        if '0' <= c && c <= '9' {
            out.push(c);
        }
        i = i + 1;
    }
    assert(chars@.take(i as int) =~= chars@);
    out
}

/// A level and its cap.
pub type LevelPair = (int, int);

/// The level and the cap on both sides of a place in a run of digits, both up
/// to `top`.
pub open spec fn split_at(digits: Seq<char>, i: int, top: int) -> Option<LevelPair> {
    match (
        crate::number::i32_of(digits.take(i)),
        crate::number::i32_of(digits.skip(i)),
    ) {
        (Some(level), Some(max)) => if 1 <= level <= top && 10 <= max <= top && max >= level {
            Some((level, max))
        } else {
            None
        },
        _ => None,
    }
}

/// The split with the longest level, at place `i` or before.
pub open spec fn split_before(digits: Seq<char>, i: int, top: int) -> Option<LevelPair>
    decreases i,
{
    if i < 1 {
        None
    } else {
        match split_at(digits, i, top) {
            Some(p) => Some(p),
            None => split_before(digits, i - 1, top),
        }
    }
}

/// The level and the cap in a run of digits.
pub open spec fn split_digits(digits: Seq<char>, top: int) -> Option<LevelPair> {
    split_before(digits, digits.len() - 1, top)
}

/// A level pair as numbers.
pub open spec fn pair_of(p: Option<(i32, i32)>) -> Option<LevelPair> {
    match p {
        Some((level, max)) => Some((level as int, max as int)),
        None => None,
    }
}

fn part(digits: &Vec<char>, from: usize, to: usize) -> (out: Vec<char>)
    requires
        from <= to <= digits@.len(),
    ensures
        out@ == digits@.subrange(from as int, to as int),
{
    let mut out: Vec<char> = Vec::new();
    let mut i: usize = from;
    while i < to
        invariant
            from <= i <= to <= digits@.len(),
            out@ == digits@.subrange(from as int, i as int),
        decreases to - i,
    {
        out.push(digits[i]);
        i = i + 1;
        assert(digits@.subrange(from as int, i as int) =~= digits@.subrange(
            from as int,
            i - 1,
        ).push(digits@[i - 1]));
    }
    out
}

/// The level and the cap in a run of digits.
pub fn try_split_digits(digits: &Vec<char>, top: i32) -> (pair: Option<(i32, i32)>)
    ensures
        pair_of(pair) == split_digits(digits@, top as int),
        pair matches Some(p) ==> 1 <= p.0 <= p.1 <= top && 10 <= p.1,
{
    let len: usize = digits.len();
    if len == 0 {
        return None;
    }
    let mut i: usize = len - 1;
    while i >= 1
        invariant
            i < len,
            len == digits@.len(),
            split_digits(digits@, top as int) == split_before(digits@, i as int, top as int),
        decreases i,
    {
        let left = part(digits, 0, i);
        let right = part(digits, i, len);
        assert(left@ =~= digits@.take(i as int));
        assert(right@ =~= digits@.skip(i as int));
        match (parse_i32(&left), parse_i32(&right)) {
            (Some(level), Some(max)) => {
                if 1 <= level && level <= top && 10 <= max && max <= top && max >= level {
                    return Some((level, max));
                }
            },
            _ => {},
        }
        i = i - 1;
    }
    None
}

/// How far a place is from the middle of a run of digits, twice.
pub open spec fn off_middle(len: int, k: int) -> int {
    apart(2 * k, len)
}

/// Which of the first `n` digits is best taken out so that a level and a cap
/// are left: the one nearest to the middle, the first of several.
pub open spec fn noise_among(digits: Seq<char>, top: int, n: nat) -> Option<int>
    decreases n,
{
    if n == 0 {
        None
    } else {
        let earlier = noise_among(digits, top, (n - 1) as nat);
        if split_digits(digits.remove(n - 1), top) is None {
            earlier
        } else {
            match earlier {
                Some(k) => if off_middle(digits.len() as int, n - 1) < off_middle(
                    digits.len() as int,
                    k,
                ) {
                    Some(n - 1)
                } else {
                    earlier
                },
                None => Some(n - 1),
            }
        }
    }
}

/// The level and the cap in a run of digits with one digit too many.
pub open spec fn split_noisy(digits: Seq<char>, top: int) -> Option<LevelPair> {
    match noise_among(digits, top, digits.len()) {
        Some(k) => split_digits(digits.remove(k), top),
        None => None,
    }
}

/// The level and the cap in a run of digits with one digit too many.
pub fn try_split_noisy(digits: &Vec<char>, top: i32) -> (pair: Option<(i32, i32)>)
    ensures
        pair_of(pair) == split_noisy(digits@, top as int),
        pair matches Some(p) ==> 1 <= p.0 <= p.1 <= top && 10 <= p.1,
{
    let len: usize = digits.len();
    let mut best: Option<(i32, i32)> = None;
    let mut best_at: usize = 0;
    let mut i: usize = 0;
    while i < len
        invariant
            i <= len,
            len == digits@.len(),
            best_at <= len,
            best is Some ==> best_at < len,
            noise_among(digits@, top as int, i as nat) == if best is Some {
                Some(best_at as int)
            } else {
                None
            },
            best is Some ==> pair_of(best) == split_digits(
                digits@.remove(best_at as int),
                top as int,
            ),
            best matches Some(p) ==> 1 <= p.0 <= p.1 <= top && 10 <= p.1,
        decreases len - i,
    {
        let mut reduced = part(digits, 0, i);
        let rest = part(digits, i + 1, len);
        let mut j: usize = 0;
        while j < rest.len()
            invariant
                j <= rest@.len(),
                reduced@ == digits@.subrange(0, i as int) + rest@.take(j as int),
            decreases rest@.len() - j,
        {
            reduced.push(rest[j]);
            j = j + 1;
            assert(rest@.take(j as int) =~= rest@.take(j - 1).push(rest@[j - 1]));
        }
        assert(reduced@ =~= digits@.remove(i as int));
        let found = try_split_digits(&reduced, top);
        if found.is_some() {
            let here: i128 = 2 * (i as i128) - len as i128;
            let there: i128 = 2 * (best_at as i128) - len as i128;
            let here: i128 = if here < 0 {
                -here
            } else {
                here
            };
            let there: i128 = if there < 0 {
                -there
            } else {
                there
            };
            if best.is_none() || here < there {
                best = found;
                best_at = i;
            }
        }
        i = i + 1;
    }
    best
}

} // verus!
