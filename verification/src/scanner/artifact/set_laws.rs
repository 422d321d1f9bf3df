//! What holds of the sets that are looked for on a card.
use crate::image::RgbImage;
use crate::scanner::artifact::artifact_laws::was_answered;
use crate::scanner::artifact::set_name::{
    long_lines, set_line, set_named, set_row_below, set_rows, set_text, set_tries,
};
use crate::scanner::artifact::set_reader::{
    reported_text, row_read, row_read_gray, row_read_gray_on, row_read_green, row_read_green_on,
    row_read_on, row_text, rows_nameless, rows_searched, same_row, set_rect, set_searched,
    RowReading,
};
use crate::scanner::common::coord_scaler::CoordScaler;
use crate::scanner::common::fuzzy_match::{byte_len, cleaned, matched};
use crate::scanner::common::ocr::{asked, request_for, Answer, BaseRect, Log, Treatment};
use vstd::prelude::*;

verus! {

/// A line is tried without a colon at its end, unless it is a single byte or empty
/// then.
pub proof fn long_lines_are_tried(lines: Seq<Seq<char>>, n: nat)
    requires
        n < lines.len(),
    ensures
        long_lines(lines, 0).len() == 0,
        byte_len(set_line(lines[n as int])) <= 1 ==> long_lines(lines, n + 1) == long_lines(
            lines,
            n,
        ),
        byte_len(set_line(lines[n as int])) >= 2 ==> long_lines(lines, n + 1) == long_lines(
            lines,
            n,
        ) + seq![set_line(lines[n as int])],
{
    reveal_with_fuel(long_lines, 2);
    assert(long_lines(lines, n).push(set_line(lines[n as int])) =~= long_lines(lines, n) + seq![
        set_line(lines[n as int]),
    ]);
}

/// The text without signs at its end is tried first, the whole text next where it
/// is another one, and its lines last.
pub proof fn texts_are_tried_before_their_lines(text: Seq<char>)
    ensures
        set_tries(text).len() >= 1,
        set_tries(text)[0] == set_text(text),
        set_text(text) == crate::text::trimmed(text) ==> set_tries(text) == seq![set_text(text)]
            + long_lines(crate::text::pieces(text, '\n'), crate::text::pieces(text, '\n').len()),
        set_text(text) != crate::text::trimmed(text) ==> set_tries(text) == seq![
            set_text(text),
            crate::text::trimmed(text),
        ] + long_lines(crate::text::pieces(text, '\n'), crate::text::pieces(text, '\n').len()),
{
    let rest = long_lines(crate::text::pieces(text, '\n'), crate::text::pieces(text, '\n').len());
    assert(seq![set_text(text)] + Seq::<Seq<char>>::empty() =~= seq![set_text(text)]);
    assert(seq![set_text(text)] + seq![crate::text::trimmed(text)] =~= seq![
        set_text(text),
        crate::text::trimmed(text),
    ]);
    assert(set_tries(text)[0] == set_text(text));
}

/// A text that is the name of a set, up to signs at its end, names that set.
pub proof fn names_of_sets_are_found(
    text: Seq<char>,
    sets: Map<Seq<char>, String>,
    result: Option<Seq<char>>,
)
    requires
        set_named(text, sets, result),
        text.len() > 0,
        cleaned(set_text(text)).len() > 0,
        sets.contains_key(cleaned(set_text(text))),
        !cleaned(set_text(text)).contains('\u{8332}'),
        !cleaned(set_text(text)).contains('\u{5179}'),
    ensures
        result == Some(sets[cleaned(set_text(text))]@),
{
    let tries = set_tries(text);
    texts_are_tried_before_their_lines(text);
    assert(tries[0] == set_text(text));
    match result {
        None => {
            assert(matched(cleaned(tries[0]), sets, None));
            crate::scanner::common::fuzzy_match::exact_name_matches(
                cleaned(set_text(text)),
                sets,
                None,
            );
        },
        Some(k) => {
            let i = choose|i: int|
                0 <= i < tries.len() && matched(cleaned(#[trigger] tries[i]), sets, Some(k))
                    && forall|j: int|
                    0 <= j < i ==> matched(cleaned(#[trigger] tries[j]), sets, None);
            if i > 0 {
                assert(matched(cleaned(tries[0]), sets, None));
                crate::scanner::common::fuzzy_match::exact_name_matches(
                    cleaned(set_text(text)),
                    sets,
                    None,
                );
            } else {
                crate::scanner::common::fuzzy_match::exact_name_matches(
                    cleaned(set_text(text)),
                    sets,
                    Some(k),
                );
            }
        },
    }
}

/// A row was read in one of its three ways, and names a set.
pub open spec fn row_names_set(
    image: RgbImage,
    scaler: CoordScaler,
    rect: BaseRect,
    sets: Map<Seq<char>, String>,
    key: Seq<char>,
    text: Seq<char>,
) -> bool {
    &&& set_named(text, sets, Some(key))
    &&& {
        ||| was_answered(request_for(image, scaler, rect, Treatment::Plain), Ok(text))
        ||| was_answered(request_for(image, scaler, rect, Treatment::Gray), Ok(text))
        ||| was_answered(request_for(image, scaler, rect, Treatment::Green), Ok(text))
    }
}

/// A row was read in all three ways, and none of the texts names a set.
pub open spec fn row_names_none(
    image: RgbImage,
    scaler: CoordScaler,
    rect: BaseRect,
    sets: Map<Seq<char>, String>,
    plain: Seq<char>,
    gray: Seq<char>,
    green: Seq<char>,
) -> bool {
    &&& was_answered(request_for(image, scaler, rect, Treatment::Plain), Ok(plain))
    &&& was_answered(request_for(image, scaler, rect, Treatment::Gray), Ok(gray))
    &&& was_answered(request_for(image, scaler, rect, Treatment::Green), Ok(green))
    &&& set_named(plain, sets, None)
    &&& set_named(gray, sets, None)
    &&& set_named(green, sets, None)
}

/// What a row gives was read there: the set that its text names, as it is, in gray
/// or without its green; or no set where none of the three texts names one, and
/// then the text that is reported is one of theirs.
pub open spec fn row_tells(
    image: RgbImage,
    scaler: CoordScaler,
    rect: BaseRect,
    sets: Map<Seq<char>, String>,
    result: RowReading,
) -> bool {
    match result {
        Ok((Some(key), text)) => row_names_set(image, scaler, rect, sets, key, text),
        Ok((None, text)) => exists|plain: Seq<char>, gray: Seq<char>, green: Seq<char>| #[trigger]
            row_names_none(image, scaler, rect, sets, plain, gray, green) && text == reported_text(
                plain,
                gray,
                green,
            ),
        Err(e) => {
            ||| was_answered(request_for(image, scaler, rect, Treatment::Plain), Err(e))
            ||| was_answered(request_for(image, scaler, rect, Treatment::Gray), Err(e))
            ||| was_answered(request_for(image, scaler, rect, Treatment::Green), Err(e))
        },
    }
}

proof fn lemma_green(
    before: Log,
    after: Log,
    image: RgbImage,
    scaler: CoordScaler,
    rect: BaseRect,
    sets: Map<Seq<char>, String>,
    plain: Seq<char>,
    gray: Seq<char>,
    result: RowReading,
)
    requires
        row_read_green(before, after, image, scaler, rect, sets, plain, gray, result),
        was_answered(request_for(image, scaler, rect, Treatment::Plain), Ok(plain)),
        was_answered(request_for(image, scaler, rect, Treatment::Gray), Ok(gray)),
        set_named(plain, sets, None),
        set_named(gray, sets, None),
    ensures
        row_tells(image, scaler, rect, sets, result),
{
    let (middle, green) = choose|middle: Log, green: Answer|
        {
            &&& #[trigger] asked(
                before,
                middle,
                request_for(image, scaler, rect, Treatment::Green),
                green,
            )
            &&& match green {
                Err(e) => after == middle && result == Err::<
                    (Option<Seq<char>>, Seq<char>),
                    Seq<char>,
                >(e),
                Ok(text) => row_read_green_on(
                    middle,
                    after,
                    image,
                    scaler,
                    rect,
                    sets,
                    plain,
                    gray,
                    text,
                    result,
                ),
            }
        };
    assert(was_answered(request_for(image, scaler, rect, Treatment::Green), green));
    match green {
        Err(_) => {},
        Ok(text) => {
            let key = choose|key: Option<Seq<char>>|
                {
                    &&& #[trigger] set_named(text, sets, key)
                    &&& if key is Some {
                        after == middle && result == row_text(key, text)
                    } else {
                        after == middle && result == row_text(
                            None,
                            reported_text(plain, gray, text),
                        )
                    }
                };
            if key is None {
                assert(row_names_none(image, scaler, rect, sets, plain, gray, text));
            }
        },
    }
}

proof fn lemma_gray(
    before: Log,
    after: Log,
    image: RgbImage,
    scaler: CoordScaler,
    rect: BaseRect,
    sets: Map<Seq<char>, String>,
    plain: Seq<char>,
    result: RowReading,
)
    requires
        row_read_gray(before, after, image, scaler, rect, sets, plain, result),
        was_answered(request_for(image, scaler, rect, Treatment::Plain), Ok(plain)),
        set_named(plain, sets, None),
    ensures
        row_tells(image, scaler, rect, sets, result),
{
    let (middle, gray) = choose|middle: Log, gray: Answer|
        {
            &&& #[trigger] asked(
                before,
                middle,
                request_for(image, scaler, rect, Treatment::Gray),
                gray,
            )
            &&& match gray {
                Err(e) => after == middle && result == Err::<
                    (Option<Seq<char>>, Seq<char>),
                    Seq<char>,
                >(e),
                Ok(text) => row_read_gray_on(
                    middle,
                    after,
                    image,
                    scaler,
                    rect,
                    sets,
                    plain,
                    text,
                    result,
                ),
            }
        };
    assert(was_answered(request_for(image, scaler, rect, Treatment::Gray), gray));
    match gray {
        Err(_) => {},
        Ok(text) => {
            let key = choose|key: Option<Seq<char>>|
                {
                    &&& #[trigger] set_named(text, sets, key)
                    &&& if key is Some {
                        after == middle && result == row_text(key, text)
                    } else {
                        row_read_green(
                            middle,
                            after,
                            image,
                            scaler,
                            rect,
                            sets,
                            plain,
                            text,
                            result,
                        )
                    }
                };
            if key is None {
                lemma_green(middle, after, image, scaler, rect, sets, plain, text, result);
            }
        },
    }
}

/// A row gives what was read there in one of its three ways.
pub proof fn rows_tell_what_was_read(
    before: Log,
    after: Log,
    image: RgbImage,
    scaler: CoordScaler,
    rect: BaseRect,
    sets: Map<Seq<char>, String>,
    result: RowReading,
)
    requires
        row_read(before, after, image, scaler, rect, sets, result),
    ensures
        row_tells(image, scaler, rect, sets, result),
{
    let (middle, plain) = choose|middle: Log, plain: Answer|
        {
            &&& #[trigger] asked(
                before,
                middle,
                request_for(image, scaler, rect, Treatment::Plain),
                plain,
            )
            &&& match plain {
                Err(e) => after == middle && result == Err::<
                    (Option<Seq<char>>, Seq<char>),
                    Seq<char>,
                >(e),
                Ok(text) => row_read_on(middle, after, image, scaler, rect, sets, text, result),
            }
        };
    assert(was_answered(request_for(image, scaler, rect, Treatment::Plain), plain));
    match plain {
        Err(_) => {},
        Ok(text) => {
            let key = choose|key: Option<Seq<char>>|
                {
                    &&& #[trigger] set_named(text, sets, key)
                    &&& if key is Some {
                        after == middle && result == row_text(key, text)
                    } else {
                        row_read_gray(middle, after, image, scaler, rect, sets, text, result)
                    }
                };
            if key is None {
                lemma_gray(middle, after, image, scaler, rect, sets, text, result);
            }
        },
    }
}

/// The rows where a set is looked for below so many substats: the one below them
/// first, and then the eight others from the bottom to the top.
pub open spec fn looked_for_at(counted: int, row: int) -> bool {
    ||| row == if counted == 1 {
        513
    } else if counted == 2 {
        550
    } else if counted == 3 {
        589
    } else {
        625int
    }
    ||| row == 625 || row == 589 || row == 585 || row == 550 || row == 545 || row == 513 || row
        == 505 || row == 478
}

/// A set that was found is named by a text at one of the rows.
pub proof fn sets_are_found_on_a_row(
    before: Log,
    after: Log,
    image: RgbImage,
    scaler: CoordScaler,
    counted: int,
    y_shift: int,
    sets: Map<Seq<char>, String>,
    key: Seq<char>,
    text: Seq<char>,
)
    requires
        set_searched(
            before,
            after,
            image,
            scaler,
            counted,
            y_shift,
            sets,
            Ok((Some(key), text)),
        ),
    ensures
        exists|row: int|
            looked_for_at(counted, row) && row_names_set(
                image,
                scaler,
                #[trigger] set_rect(row, y_shift),
                sets,
                key,
                text,
            ),
{
    let primary = set_row_below(counted);
    let result: RowReading = Ok((Some(key), text));
    let (middle, first) = choose|middle: Log, first: RowReading|
        {
            &&& #[trigger] row_read(
                before,
                middle,
                image,
                scaler,
                set_rect(primary, y_shift),
                sets,
                first,
            )
            &&& match first {
                Ok((None, here)) => rows_searched(
                    middle,
                    after,
                    image,
                    scaler,
                    primary,
                    y_shift,
                    sets,
                    here,
                    result,
                ),
                _ => after == middle && result == first,
            }
        };
    rows_tell_what_was_read(
        before,
        middle,
        image,
        scaler,
        set_rect(primary, y_shift),
        sets,
        first,
    );
    if first == result {
        assert(looked_for_at(counted, primary));
        assert(row_names_set(image, scaler, set_rect(primary, y_shift), sets, key, text));
    } else {
        match first {
            Ok((None, here)) => {
                lemma_other_row(
                    middle,
                    after,
                    image,
                    scaler,
                    primary,
                    y_shift,
                    sets,
                    here,
                    key,
                    text,
                    counted,
                );
            },
            _ => {},
        }
    }
}

proof fn lemma_other_row(
    before: Log,
    after: Log,
    image: RgbImage,
    scaler: CoordScaler,
    primary: int,
    y_shift: int,
    sets: Map<Seq<char>, String>,
    first: Seq<char>,
    key: Seq<char>,
    text: Seq<char>,
    counted: int,
)
    requires
        rows_searched(
            before,
            after,
            image,
            scaler,
            primary,
            y_shift,
            sets,
            first,
            Ok((Some(key), text)),
        ),
    ensures
        exists|row: int|
            looked_for_at(counted, row) && row_names_set(
                image,
                scaler,
                #[trigger] set_rect(row, y_shift),
                sets,
                key,
                text,
            ),
{
    let result: RowReading = Ok((Some(key), text));
    let (n, middle, earlier) = choose|n: int, middle: Log, earlier: Seq<char>|
        {
            &&& 0 <= n < 8
            &&& !same_row(set_rows()[n] as int, primary)
            &&& #[trigger] rows_nameless(
                before,
                middle,
                image,
                scaler,
                primary,
                y_shift,
                sets,
                n,
                first,
                earlier,
            )
            &&& row_read(
                middle,
                after,
                image,
                scaler,
                set_rect(set_rows()[n] as int, y_shift),
                sets,
                result,
            )
        };
    let row = set_rows()[n] as int;
    rows_tell_what_was_read(middle, after, image, scaler, set_rect(row, y_shift), sets, result);
    assert(looked_for_at(counted, row));
    assert(row_names_set(image, scaler, set_rect(row, y_shift), sets, key, text));
}

} // verus!
