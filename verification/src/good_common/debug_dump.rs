//! Which parts of a picture are saved while debugging, and where.
use crate::image::RgbImage;
use crate::number::padded_chars;
use crate::scanner::artifact::regions::shifted;
use crate::scanner::common::coord_scaler::CoordScaler;
use crate::scanner::common::ocr::{region_at, BaseRect};
use crate::scanner::common::pixel_utils::{crop_region, lesser, region_of, Region};
use crate::text::{copy_of, joined, string_of};
use vstd::prelude::*;

verus! {

/// A part of the picture and the file that it goes to.
#[derive(Debug)]
pub struct Dump {
    pub file: String,
    pub region: Region,
}

/// The folder of one item's pictures.
#[derive(Debug)]
pub struct DumpCtx {
    /// The names of the folders on the way to it, the outermost first.
    pub dir: Vec<String>,
}

/// What is saved for a part: nothing, if the part is empty.
pub open spec fn dumped(name: Seq<char>, region: Region, dump: Option<Dump>) -> bool {
    if region.w == 0 || region.h == 0 {
        dump is None
    } else {
        dump is Some && dump->0.region == region && dump->0.file@ == name + ".png"@
    }
}

/// The first coordinate of a square around a point.
pub open spec fn square_start(center: int, padding: int) -> int {
    if center > padding {
        center - padding
    } else {
        0
    }
}

/// The length of a square within a picture.
pub open spec fn square_side(size: int, start: int, padding: int) -> int {
    lesser(
        padding * 2 + 1,
        if size > start {
            size - start
        } else {
            0
        },
    )
}

fn start_of_square(center: i32, padding: u32) -> (start: u32)
    ensures
        start == square_start(center as int, padding as int),
{
    let (center, padding): (i64, i64) = (center as i64, padding as i64);
    if center > padding {
        (center - padding) as u32
    } else {
        0
    }
}

fn side_of_square(size: u32, start: u32, padding: u32) -> (side: u32)
    requires
        padding <= i32::MAX,
    ensures
        side == square_side(size as int, start as int, padding as int),
{
    let room: u32 = if size > start {
        size - start
    } else {
        0
    };
    let whole: u32 = padding * 2 + 1;
    if whole <= room {
        whole
    } else {
        room
    }
}

fn saved(name: &str, region: Region) -> (dump: Option<Dump>)
    ensures
        dumped(name@, region, dump),
{
    if region.w == 0 || region.h == 0 {
        None
    } else {
        Some(Dump { file: joined(name, ".png"), region })
    }
}

impl DumpCtx {
    /// The folder of the item with this index; its name plays no part.
    pub fn new(base_dir: &str, category: &str, index: usize, _entity_name: &str) -> (ctx: Self)
        ensures
            ctx.dir@.len() == 3,
            ctx.dir@[0]@ == base_dir@,
            ctx.dir@[1]@ == category@,
            ctx.dir@[2]@ == crate::number::padded(index as nat, 4),
    {
        let mut dir: Vec<String> = Vec::new();
        dir.push(copy_of(base_dir));
        dir.push(copy_of(category));
        dir.push(string_of(&padded_chars(index as u64, 4)));
        DumpCtx { dir }
    }

    /// The whole picture.
    pub fn dump_full(&self, image: &RgbImage) -> (dump: Dump)
        ensures
            dump.file@ == "full.png"@,
            dump.region == (Region {
                x: 0,
                y: 0,
                w: image.spec_width(),
                h: image.spec_height(),
            }),
    {
        Dump {
            file: copy_of("full.png"),
            region: Region { x: 0, y: 0, w: image.width(), h: image.height() },
        }
    }

    /// The part under a rectangle of the base resolution.
    pub fn dump_region(
        &self,
        field_name: &str,
        image: &RgbImage,
        rect: BaseRect,
        scaler: &CoordScaler,
    ) -> (dump: Option<Dump>)
        ensures
            dumped(
                field_name@,
                region_at(
                    region_of(
                        *image,
                        *scaler,
                        (rect.0 as int, rect.1 as int, rect.2 as int, rect.3 as int),
                    ),
                ),
                dump,
            ),
    {
        saved(field_name, crop_region(image, scaler, rect))
    }

    /// The part under a rectangle that was moved down.
    pub fn dump_region_shifted(
        &self,
        field_name: &str,
        image: &RgbImage,
        rect: BaseRect,
        y_shift: i32,
        scaler: &CoordScaler,
    ) -> (dump: Option<Dump>)
        requires
            i32::MIN <= rect.1 + y_shift <= i32::MAX,
        ensures
            dumped(
                field_name@,
                region_at(
                    region_of(
                        *image,
                        *scaler,
                        (rect.0 as int, rect.1 + y_shift, rect.2 as int, rect.3 as int),
                    ),
                ),
                dump,
            ),
    {
        saved(field_name, crop_region(image, scaler, shifted(rect, y_shift)))
    }

    /// The square around a point of the base resolution.
    pub fn dump_pixel(
        &self,
        field_name: &str,
        image: &RgbImage,
        center: (i32, i32),
        padding: u32,
        scaler: &CoordScaler,
    ) -> (dump: Option<Dump>)
        requires
            padding <= i32::MAX,
        ensures
            ({
                let x = square_start(scaler.sx(center.0 as int), padding as int);
                let y = square_start(scaler.sy(center.1 as int), padding as int);
                dumped(
                    field_name@,
                    region_at(
                        (
                            x,
                            y,
                            square_side(image.spec_width() as int, x, padding as int),
                            square_side(image.spec_height() as int, y, padding as int),
                        ),
                    ),
                    dump,
                )
            }),
    {
        let x: u32 = start_of_square(scaler.x(center.0), padding);
        let y: u32 = start_of_square(scaler.y(center.1), padding);
        saved(
            field_name,
            Region {
                x,
                y,
                w: side_of_square(image.width(), x, padding),
                h: side_of_square(image.height(), y, padding),
            },
        )
    }
}

/// A square around a place reaches as far as the padding to both sides, as far as
/// the picture does.
pub proof fn squares_lie_around_their_place(size: int, center: int, padding: int)
    requires
        0 <= padding,
        0 <= center < size,
    ensures
        ({
            let start = square_start(center, padding);
            let end = start + square_side(size, start, padding);
            &&& 0 <= start <= center < end <= size
            &&& padding <= center ==> start == center - padding
            &&& padding > center ==> start == 0
            &&& padding <= center && center + padding < size ==> end == center + padding + 1
        }),
{
}

/// A part without pixels is not written; any other one is, under its name.
pub proof fn parts_are_written_under_their_name(name: Seq<char>, region: Region, dump: Option<Dump>)
    requires
        dumped(name, region, dump),
    ensures
        dump is Some <==> region.w > 0 && region.h > 0,
        dump matches Some(d) ==> d.region == region && d.file@ == name + ".png"@,
{
}

} // verus!
