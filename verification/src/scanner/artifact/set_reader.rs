//! Reading the set of an artifact card.
use crate::image::RgbImage;
use crate::name_map::NameMap;
use crate::scanner::artifact::set_name::{
    chinese_count, cn_char_count, counted_stats, fallback_row, find_set_key_in_text, primary_row,
    set_named, set_row_below, set_rows,
};
use crate::scanner::common::coord_scaler::CoordScaler;
use crate::scanner::common::ocr::{
    answer_of, asked, read_region, request_for, Answer, BaseRect, ImageToText, Log, Treatment,
};
use vstd::prelude::*;

verus! {

/// What reading a row for the name of a set gave: the key of the set, if any,
/// and the text; or the error of the engine.
pub type RowReading = Result<(Option<Seq<char>>, Seq<char>), Seq<char>>;

/// Of three texts that name no set, the one that is reported: that with most
/// Chinese characters, the first before the third before the second.
pub open spec fn reported_text(plain: Seq<char>, gray: Seq<char>, green: Seq<char>) -> Seq<char> {
    let other = if chinese_count(green) >= chinese_count(gray) {
        green
    } else {
        gray
    };
    if chinese_count(plain) >= chinese_count(other) {
        plain
    } else {
        other
    }
}

/// A row that was read: the key of the set, if any, and the text.
pub open spec fn row_text(key: Option<Seq<char>>, text: Seq<char>) -> RowReading {
    Ok((key, text))
}

/// What came of the green text of a row.
pub open spec fn row_read_green_on(
    before: Log,
    after: Log,
    image: RgbImage,
    scaler: CoordScaler,
    rect: BaseRect,
    sets: Map<Seq<char>, String>,
    plain: Seq<char>,
    gray: Seq<char>,
    text: Seq<char>,
    result: RowReading,
) -> bool {
    exists|key: Option<Seq<char>>|
        {
            &&& #[trigger] set_named(text, sets, key)
            &&& if key is Some {
                after == before && result == row_text(key, text)
            } else {
                after == before && result == row_text(
                    None,
                    reported_text(plain, gray, text),
                )
            }
        }
}

/// What reading a row with its green text gave.
pub open spec fn row_read_green(
    before: Log,
    after: Log,
    image: RgbImage,
    scaler: CoordScaler,
    rect: BaseRect,
    sets: Map<Seq<char>, String>,
    plain: Seq<char>,
    gray: Seq<char>,
    result: RowReading,
) -> bool {
    exists|middle: Log, green: Answer|
        {
            &&& #[trigger] asked(
                before,
                middle,
                request_for(image, scaler, rect, Treatment::Green),
                green,
            )
            &&& match green {
                Err(e) => after == middle && result == Err::<
                    (Option<Seq<char>>, Seq<char>),
                    Seq<char>,
                >(e),
                Ok(text) => row_read_green_on(
                    middle,
                    after,
                    image,
                    scaler,
                    rect,
                    sets,
                    plain,
                    gray,
                    text,
                    result,
                ),
            }
        }
}

/// What came of the text of a row in grey.
pub open spec fn row_read_gray_on(
    before: Log,
    after: Log,
    image: RgbImage,
    scaler: CoordScaler,
    rect: BaseRect,
    sets: Map<Seq<char>, String>,
    plain: Seq<char>,
    text: Seq<char>,
    result: RowReading,
) -> bool {
    exists|key: Option<Seq<char>>|
        {
            &&& #[trigger] set_named(text, sets, key)
            &&& if key is Some {
                after == before && result == row_text(key, text)
            } else {
                row_read_green(
                    before,
                    after,
                    image,
                    scaler,
                    rect,
                    sets,
                    plain,
                    text,
                    result,
                )
            }
        }
}

/// What reading a row in grey, and then with its green text, gave.
pub open spec fn row_read_gray(
    before: Log,
    after: Log,
    image: RgbImage,
    scaler: CoordScaler,
    rect: BaseRect,
    sets: Map<Seq<char>, String>,
    plain: Seq<char>,
    result: RowReading,
) -> bool {
    exists|middle: Log, gray: Answer|
        {
            &&& #[trigger] asked(
                before,
                middle,
                request_for(image, scaler, rect, Treatment::Gray),
                gray,
            )
            &&& match gray {
                Err(e) => after == middle && result == Err::<
                    (Option<Seq<char>>, Seq<char>),
                    Seq<char>,
                >(e),
                Ok(text) => row_read_gray_on(
                    middle,
                    after,
                    image,
                    scaler,
                    rect,
                    sets,
                    plain,
                    text,
                    result,
                ),
            }
        }
}

/// What came of the text of a row as it is.
pub open spec fn row_read_on(
    before: Log,
    after: Log,
    image: RgbImage,
    scaler: CoordScaler,
    rect: BaseRect,
    sets: Map<Seq<char>, String>,
    text: Seq<char>,
    result: RowReading,
) -> bool {
    exists|key: Option<Seq<char>>|
        {
            &&& #[trigger] set_named(text, sets, key)
            &&& if key is Some {
                after == before && result == row_text(key, text)
            } else {
                row_read_gray(
                    before,
                    after,
                    image,
                    scaler,
                    rect,
                    sets,
                    text,
                    result,
                )
            }
        }
}

/// What reading a row for the name of a set gave: the row as it is, then in
/// grey, then with its green text, until one of them names a set.
pub open spec fn row_read(
    before: Log,
    after: Log,
    image: RgbImage,
    scaler: CoordScaler,
    rect: BaseRect,
    sets: Map<Seq<char>, String>,
    result: RowReading,
) -> bool {
    exists|middle: Log, plain: Answer|
        {
            &&& #[trigger] asked(
                before,
                middle,
                request_for(image, scaler, rect, Treatment::Plain),
                plain,
            )
            &&& match plain {
                Err(e) => after == middle && result == Err::<
                    (Option<Seq<char>>, Seq<char>),
                    Seq<char>,
                >(e),
                Ok(text) => row_read_on(
                    middle,
                    after,
                    image,
                    scaler,
                    rect,
                    sets,
                    text,
                    result,
                ),
            }
        }
}

/// The result of reading a row, by its texts.
pub open spec fn row_result(result: Result<(Option<String>, String), String>) -> RowReading {
    match result {
        Ok((key, text)) => Ok((crate::text::text_of(key), text@)),
        Err(e) => Err(e@),
    }
}

/// Reads a row with its green text.
fn read_green<P: ImageToText>(
    general: &mut P,
    image: &RgbImage,
    scaler: &CoordScaler,
    rect: BaseRect,
    sets: &NameMap<String>,
    plain: String,
    gray: String,
) -> (result: Result<(Option<String>, String), String>)
    ensures
        row_read_green(
            old(general).log(),
            final(general).log(),
            *image,
            *scaler,
            rect,
            sets@,
            plain@,
            gray@,
            row_result(result),
        ),
{
    let ghost g0 = general.log();
    let answer = read_region(general, image, scaler, rect, Treatment::Green);
    let ghost g1 = general.log();
    let ghost a1 = answer_of(answer);
    assert(asked(g0, g1, request_for(*image, *scaler, rect, Treatment::Green), a1));
    match answer {
        Ok(green) => {
            let key = find_set_key_in_text(green.as_str(), sets);
            let ghost named = crate::text::text_of(key);
            assert(set_named(green@, sets@, named));
            if key.is_some() {
                assert(row_read_green_on(
                    g1,
                    g1,
                    *image,
                    *scaler,
                    rect,
                    sets@,
                    plain@,
                    gray@,
                    green@,
                    row_text(named, green@),
                ));
                return Ok((key, green));
            }
            let other = if cn_char_count(green.as_str()) >= cn_char_count(gray.as_str()) {
                green
            } else {
                gray
            };
            let text = if cn_char_count(plain.as_str()) >= cn_char_count(other.as_str()) {
                plain
            } else {
                other
            };
            Ok((None, text))
        },
        Err(e) => Err(e),
    }
}

/// Reads a row in grey, and then with its green text.
fn read_gray<P: ImageToText>(
    general: &mut P,
    image: &RgbImage,
    scaler: &CoordScaler,
    rect: BaseRect,
    sets: &NameMap<String>,
    plain: String,
) -> (result: Result<(Option<String>, String), String>)
    ensures
        row_read_gray(
            old(general).log(),
            final(general).log(),
            *image,
            *scaler,
            rect,
            sets@,
            plain@,
            row_result(result),
        ),
{
    let ghost g0 = general.log();
    let answer = read_region(general, image, scaler, rect, Treatment::Gray);
    let ghost g1 = general.log();
    let ghost a1 = answer_of(answer);
    assert(asked(g0, g1, request_for(*image, *scaler, rect, Treatment::Gray), a1));
    match answer {
        Ok(gray) => {
            let key = find_set_key_in_text(gray.as_str(), sets);
            let ghost named = crate::text::text_of(key);
            assert(set_named(gray@, sets@, named));
            if key.is_some() {
                assert(row_read_gray_on(
                    g1,
                    g1,
                    *image,
                    *scaler,
                    rect,
                    sets@,
                    plain@,
                    gray@,
                    row_text(named, gray@),
                ));
                return Ok((key, gray));
            }
            read_green(general, image, scaler, rect, sets, plain, gray)
        },
        Err(e) => Err(e),
    }
}

/// Reads a row for the name of a set.
pub fn try_set_ocr<P: ImageToText>(
    general: &mut P,
    image: &RgbImage,
    scaler: &CoordScaler,
    rect: BaseRect,
    sets: &NameMap<String>,
) -> (result: Result<(Option<String>, String), String>)
    ensures
        row_read(
            old(general).log(),
            final(general).log(),
            *image,
            *scaler,
            rect,
            sets@,
            row_result(result),
        ),
{
    let ghost g0 = general.log();
    let answer = read_region(general, image, scaler, rect, Treatment::Plain);
    let ghost g1 = general.log();
    let ghost a1 = answer_of(answer);
    assert(asked(g0, g1, request_for(*image, *scaler, rect, Treatment::Plain), a1));
    match answer {
        Ok(plain) => {
            let key = find_set_key_in_text(plain.as_str(), sets);
            let ghost named = crate::text::text_of(key);
            assert(set_named(plain@, sets@, named));
            if key.is_some() {
                assert(row_read_on(
                    g1,
                    g1,
                    *image,
                    *scaler,
                    rect,
                    sets@,
                    plain@,
                    row_text(named, plain@),
                ));
                return Ok((key, plain));
            }
            read_gray(general, image, scaler, rect, sets, plain)
        },
        Err(e) => Err(e),
    }
}

/// The rectangle of a row that can have the name of the set.
pub open spec fn set_rect(row: int, y_shift: int) -> BaseRect {
    (1330i32, (row + y_shift) as i32, 280i32, 45i32)
}

/// Two rows are so close that one reading is enough.
pub open spec fn same_row(a: int, b: int) -> bool {
    -3 < a - b < 3
}

/// A row named no set; its text is reported if there was none before.
pub open spec fn row_passed(
    before: Log,
    after: Log,
    image: RgbImage,
    scaler: CoordScaler,
    rect: BaseRect,
    sets: Map<Seq<char>, String>,
    earlier: Seq<char>,
    text: Seq<char>,
) -> bool {
    exists|here: Seq<char>| #[trigger]
        row_read(before, after, image, scaler, rect, sets, row_text(None, here)) && text == if earlier.len()
            == 0 {
            here
        } else {
            earlier
        }
}

/// The first `n` of the other rows were read one after the other, and none
/// named a set. A row at the place of the first one is passed over. The text
/// that is reported is the first that is not empty.
pub open spec fn rows_nameless(
    before: Log,
    after: Log,
    image: RgbImage,
    scaler: CoordScaler,
    primary: int,
    y_shift: int,
    sets: Map<Seq<char>, String>,
    n: int,
    first: Seq<char>,
    text: Seq<char>,
) -> bool
    decreases n,
{
    if n <= 0 {
        after == before && text == first
    } else if same_row(set_rows()[n - 1] as int, primary) {
        rows_nameless(before, after, image, scaler, primary, y_shift, sets, n - 1, first, text)
    } else {
        exists|middle: Log, earlier: Seq<char>|
            {
                &&& rows_nameless(
                    before,
                    middle,
                    image,
                    scaler,
                    primary,
                    y_shift,
                    sets,
                    n - 1,
                    first,
                    earlier,
                )
                &&& #[trigger] row_passed(
                    middle,
                    after,
                    image,
                    scaler,
                    set_rect(set_rows()[n - 1] as int, y_shift),
                    sets,
                    earlier,
                    text,
                )
            }
    }
}

/// What the search in the other rows gave, where the first row named no set:
/// the first row that names one or gives an error decides; without any, the set
/// is not found.
pub open spec fn rows_searched(
    before: Log,
    after: Log,
    image: RgbImage,
    scaler: CoordScaler,
    primary: int,
    y_shift: int,
    sets: Map<Seq<char>, String>,
    first: Seq<char>,
    result: RowReading,
) -> bool {
    match result {
        Ok((None, text)) => rows_nameless(
            before,
            after,
            image,
            scaler,
            primary,
            y_shift,
            sets,
            8,
            first,
            text,
        ),
        _ => exists|n: int, middle: Log, text: Seq<char>|
            {
                &&& 0 <= n < 8
                &&& !same_row(set_rows()[n] as int, primary)
                &&& #[trigger] rows_nameless(
                    before,
                    middle,
                    image,
                    scaler,
                    primary,
                    y_shift,
                    sets,
                    n,
                    first,
                    text,
                )
                &&& row_read(
                    middle,
                    after,
                    image,
                    scaler,
                    set_rect(set_rows()[n] as int, y_shift),
                    sets,
                    result,
                )
            },
    }
}

/// What the search for the set gave: the row below the last substat decides,
/// or where it names no set the search in the other rows.
pub open spec fn set_searched(
    before: Log,
    after: Log,
    image: RgbImage,
    scaler: CoordScaler,
    counted: int,
    y_shift: int,
    sets: Map<Seq<char>, String>,
    result: RowReading,
) -> bool {
    let primary = set_row_below(counted);
    exists|middle: Log, first: RowReading|
        {
            &&& #[trigger] row_read(
                before,
                middle,
                image,
                scaler,
                set_rect(primary, y_shift),
                sets,
                first,
            )
            &&& match first {
                Ok((None, text)) => rows_searched(
                    middle,
                    after,
                    image,
                    scaler,
                    primary,
                    y_shift,
                    sets,
                    text,
                    result,
                ),
                _ => after == middle && result == first,
            }
        }
}

/// Searches the card for the name of the set.
pub fn read_set<P: ImageToText>(
    general: &mut P,
    image: &RgbImage,
    scaler: &CoordScaler,
    sets: &NameMap<String>,
    y_shift: i32,
    stats: usize,
) -> (result: Result<(Option<String>, String), String>)
    requires
        0 <= y_shift <= 40,
    ensures
        set_searched(
            old(general).log(),
            final(general).log(),
            *image,
            *scaler,
            counted_stats(stats as int),
            y_shift as int,
            sets@,
            row_result(result),
        ),
{
    let ghost g0 = general.log();
    let primary: i32 = primary_row(stats);
    let first = try_set_ocr(general, image, scaler, (1330, primary + y_shift, 280, 45), sets);
    let ghost reading = row_result(first);
    assert(row_read(
        g0,
        general.log(),
        *image,
        *scaler,
        set_rect(primary as int, y_shift as int),
        sets@,
        reading,
    ));
    match first {
        Ok((None, text)) => {
            assert(reading == row_text(None, text@));
            search_rows(general, image, scaler, sets, y_shift, primary, text)
        },
        other => other,
    }
}

/// Searches the other rows of the card for the name of the set.
fn search_rows<P: ImageToText>(
    general: &mut P,
    image: &RgbImage,
    scaler: &CoordScaler,
    sets: &NameMap<String>,
    y_shift: i32,
    primary: i32,
    first: String,
) -> (result: Result<(Option<String>, String), String>)
    requires
        0 <= y_shift <= 40,
        0 <= primary <= 1080,
    ensures
        rows_searched(
            old(general).log(),
            final(general).log(),
            *image,
            *scaler,
            primary as int,
            y_shift as int,
            sets@,
            first@,
            row_result(result),
        ),
{
    let ghost g0 = general.log();
    let ghost start = first@;
    let mut text = first;
    let mut i: usize = 0;
    while i < 8
        invariant
            i <= 8,
            0 <= y_shift <= 40,
            0 <= primary <= 1080,
            g0 == old(general).log(),
            start == first@,
            rows_nameless(
                g0,
                general.log(),
                *image,
                *scaler,
                primary as int,
                y_shift as int,
                sets@,
                i as int,
                start,
                text@,
            ),
        decreases 8 - i,
    {
        let row: i32 = fallback_row(i);
        let apart: i32 = row - primary;
        if apart <= -3 || apart >= 3 {
            let ghost middle = general.log();
            let ghost earlier = text@;
            let next = try_set_ocr(general, image, scaler, (1330, row + y_shift, 280, 45), sets);
            let ghost reading = row_result(next);
            assert(row_read(
                middle,
                general.log(),
                *image,
                *scaler,
                set_rect(set_rows()[i as int] as int, y_shift as int),
                sets@,
                reading,
            ));
            match next {
                Ok((None, here)) => {
                    assert(reading == row_text(None, here@));
                    if text.as_str().is_empty() {
                        text = here;
                    }
                    assert(row_passed(
                        middle,
                        general.log(),
                        *image,
                        *scaler,
                        set_rect(set_rows()[i + 1 - 1] as int, y_shift as int),
                        sets@,
                        earlier,
                        text@,
                    ));
                },
                other => {
                    return other;
                },
            }
        }
        i = i + 1;
    }
    Ok((None, text))
}

} // verus!
