//! The fields of detailed scans.
use crate::image::RgbImage;
use crate::scanner::common::coord_scaler::CoordScaler;
use crate::scanner::common::models::DebugOcrField;
use crate::scanner::common::ocr::{request_for, BaseRect, Treatment};
use crate::text::copy_of;
use vstd::prelude::*;

verus! {

/// A field of a detailed scan: its name, the text that was read, what was made
/// of it, and the place.
pub type Field = (Seq<char>, Seq<char>, Seq<char>, BaseRect);

/// The field by its texts.
pub open spec fn field_of(f: DebugOcrField) -> Field {
    (f.field_name@, f.raw_text@, f.parsed_value@, f.region)
}

/// The fields by their texts.
pub open spec fn fields_of(list: Seq<DebugOcrField>) -> Seq<Field> {
    Seq::new(list.len(), |i: int| field_of(list[i]))
}

/// The text, empty where there is none.
pub open spec fn or_none(t: Option<Seq<char>>) -> Seq<char> {
    match t {
        Some(t) => t,
        None => Seq::empty(),
    }
}

/// What is asked for the text under a rectangle as it is.
pub open spec fn plain_request(
    image: RgbImage,
    scaler: CoordScaler,
    rect: BaseRect,
) -> crate::scanner::common::ocr::OcrRequest {
    request_for(image, scaler, rect, Treatment::Plain)
}

/// A field of a detailed scan.
pub fn field(name: &str, raw: &str, parsed: &str, region: BaseRect) -> (f: DebugOcrField)
    ensures
        field_of(f) == (name@, raw@, parsed@, region),
{
    DebugOcrField {
        field_name: copy_of(name),
        raw_text: copy_of(raw),
        parsed_value: copy_of(parsed),
        region,
    }
}

/// The text, empty where there is none.
pub fn or_none_text(key: &Option<String>) -> (t: String)
    ensures
        t@ == or_none(crate::text::text_of(*key)),
{
    match key {
        Some(k) => copy_of(k.as_str()),
        None => {
            let none = String::new();
            assert(none@ =~= Seq::<char>::empty());
            none
        },
    }
}

/// No place: what was found by its pixels alone.
pub open spec fn nowhere() -> BaseRect {
    (0i32, 0i32, 0i32, 0i32)
}

} // verus!
