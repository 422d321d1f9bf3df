//! Preparing a part of a screenshot for recognition.
use crate::image::{Rgb, RgbImage};
use crate::scanner::common::ocr::{OcrRequest, Treatment};
use crate::scanner::common::pixel_utils::Region;
use vstd::prelude::*;

verus! {

/// The mean colour of three pixels.
pub open spec fn mean_color(a: Rgb, b: Rgb, c: Rgb) -> Rgb {
    (
        ((a.0 + b.0 + c.0) / 3) as u8,
        ((a.1 + b.1 + c.1) / 3) as u8,
        ((a.2 + b.2 + c.2) / 3) as u8,
    )
}

/// The mean colour of three pixels, in which an icon is painted over.
pub fn mask_color(a: Rgb, b: Rgb, c: Rgb) -> (m: Rgb)
    ensures
        m == mean_color(a, b, c),
{
    (
        ((a.0 as u32 + b.0 as u32 + c.0 as u32) / 3) as u8,
        ((a.1 as u32 + b.1 as u32 + c.1 as u32) / 3) as u8,
        ((a.2 as u32 + b.2 as u32 + c.2 as u32) / 3) as u8,
    )
}

/// The places where the background beside an icon is sampled, and how much of
/// the left is painted over.
#[derive(Debug, Clone, Copy)]
pub struct MaskPlan {
    pub width: u32,
    pub sample_x: u32,
    pub sample_y: (u32, u32, u32),
}

/// Plans the painting over of an icon: up to 18 columns, in the mean colour of
/// three pixels at three quarters of the width.
pub fn mask_plan(w: u32, h: u32) -> (plan: MaskPlan)
    requires
        0 < w <= 0x4000_0000,
        0 < h,
    ensures
        plan == mask_for(w as int, h as int),
        plan.sample_x < w,
{
    MaskPlan {
        width: if w < 18 {
            w
        } else {
            18
        },
        sample_x: w * 3 / 4,
        sample_y: (0, h / 2, h - 1),
    }
}

/// How dark a pixel of green text becomes: the more its green exceeds its red
/// and blue, the darker.
pub open spec fn green_value(p: Rgb) -> int {
    let other = if p.0 >= p.2 {
        p.0
    } else {
        p.2
    };
    let excess = if p.1 > other {
        p.1 - other
    } else {
        0
    };
    if excess * 4 > 255 {
        0
    } else {
        255 - excess * 4
    }
}

/// How dark a pixel of green text becomes.
pub fn green_text_value(p: Rgb) -> (v: u8)
    ensures
        v == green_value(p),
{
    let other: u8 = if p.0 >= p.2 {
        p.0
    } else {
        p.2
    };
    let excess: u32 = if p.1 > other {
        (p.1 - other) as u32
    } else {
        0
    };
    if excess * 4 > 255 {
        0
    } else {
        (255 - excess * 4) as u8
    }
}

/// The colour behind an icon: the mean of the first, the middle and the last
/// pixel of the column at three quarters of the width.
pub open spec fn backdrop(image: RgbImage) -> Rgb {
    let x = image.spec_width() * 3 / 4;
    let h = image.spec_height() as int;
    mean_color(image.at(x, 0), image.at(x, h / 2), image.at(x, h - 1))
}

/// Paints an icon at the left over.
pub fn mask_icon(image: &mut RgbImage)
    requires
        0 < old(image).spec_width() <= 0x4000_0000,
        0 < old(image).spec_height(),
    ensures
        final(image).spec_width() == old(image).spec_width(),
        final(image).spec_height() == old(image).spec_height(),
        forall|x: int, y: int|
            old(image).contains(x, y) ==> #[trigger] final(image).at(x, y) == if x < 18 {
                backdrop(*old(image))
            } else {
                old(image).at(x, y)
            },
{
    let w: u32 = image.width();
    let h: u32 = image.height();
    let plan = mask_plan(w, h);
    let color = mask_color(
        image.pixel(plan.sample_x, plan.sample_y.0),
        image.pixel(plan.sample_x, plan.sample_y.1),
        image.pixel(plan.sample_x, plan.sample_y.2),
    );
    let ghost before = *image;
    assert(color == backdrop(before));
    let mut x: u32 = 0;
    while x < plan.width
        invariant
            x <= plan.width <= w,
            image.spec_width() == w,
            image.spec_height() == h,
            forall|u: int, v: int|
                0 <= u < w && 0 <= v < h ==> #[trigger] image.at(u, v) == if u < x {
                    color
                } else {
                    before.at(u, v)
                },
        decreases plan.width - x,
    {
        let mut y: u32 = 0;
        while y < h
            invariant
                x < w,
                y <= h,
                image.spec_width() == w,
                image.spec_height() == h,
                forall|u: int, v: int|
                    0 <= u < w && 0 <= v < h ==> #[trigger] image.at(u, v) == if u < x || u == x
                        && v < y {
                        color
                    } else {
                        before.at(u, v)
                    },
            decreases h - y,
        {
            image.set_pixel(x, y, color);
            y = y + 1;
        }
        x = x + 1;
    }
}

/// The grey of a value.
pub open spec fn grey(v: int) -> Rgb {
    (v as u8, v as u8, v as u8)
}

/// Makes green text dark on white.
pub fn extract_green(image: &mut RgbImage)
    ensures
        final(image).spec_width() == old(image).spec_width(),
        final(image).spec_height() == old(image).spec_height(),
        forall|x: int, y: int|
            old(image).contains(x, y) ==> #[trigger] final(image).at(x, y) == grey(
                green_value(old(image).at(x, y)),
            ),
{
    let w: u32 = image.width();
    let h: u32 = image.height();
    let ghost before = *image;
    let mut x: u32 = 0;
    while x < w
        invariant
            x <= w,
            image.spec_width() == w,
            image.spec_height() == h,
            forall|u: int, v: int|
                0 <= u < w && 0 <= v < h ==> #[trigger] image.at(u, v) == if u < x {
                    grey(green_value(before.at(u, v)))
                } else {
                    before.at(u, v)
                },
        decreases w - x,
    {
        let mut y: u32 = 0;
        while y < h
            invariant
                x < w,
                y <= h,
                image.spec_width() == w,
                image.spec_height() == h,
                forall|u: int, v: int|
                    0 <= u < w && 0 <= v < h ==> #[trigger] image.at(u, v) == if u < x || u == x
                        && v < y {
                        grey(green_value(before.at(u, v)))
                    } else {
                        before.at(u, v)
                    },
            decreases h - y,
        {
            let value: u8 = green_text_value(image.pixel(x, y));
            image.set_pixel(x, y, (value, value, value));
            y = y + 1;
        }
        x = x + 1;
    }
}

/// The largest width or height of a picture that is enlarged.
pub const MAX_SIDE: u32 = 0x40_0000;

/// A picture of a size that a screen can have, whose parts can be enlarged.
pub open spec fn screen_sized(image: RgbImage) -> bool {
    &&& image.spec_width() <= MAX_SIDE
    &&& image.spec_height() <= MAX_SIDE
    &&& image.spec_width() * image.spec_height() * 32 <= isize::MAX
}

/// Whether a picture has a size that a screen can have.
pub fn is_screen_sized(image: &RgbImage) -> (yes: bool)
    ensures
        yes == screen_sized(*image),
{
    let w: u32 = image.width();
    let h: u32 = image.height();
    if w > MAX_SIDE || h > MAX_SIDE {
        return false;
    }
    assert(0 <= w * h <= 0x40_0000 * 0x40_0000) by (nonlinear_arith)
        requires
            0 <= w <= 0x40_0000,
            0 <= h <= 0x40_0000,
    ;
    let size: u64 = w as u64 * h as u64 * 32;
    size <= isize::MAX as u64
}

/// The bytes of a picture at twice its width and height, by
/// `image::imageops::resize` with the filter `Lanczos3`. The contract gives
/// their number. The colours are sums of floating-point products, which are not
/// the same on every machine; nothing is said of them. Sides above `MAX_SIDE`,
/// where the weights of the filter are no longer exact, and pictures whose
/// intermediate result does not fit into memory, are left out.
#[verifier::external_body]
fn enlarge(width: u32, height: u32, bytes: Vec<u8>) -> (out: Vec<u8>)
    requires
        0 < width <= MAX_SIDE,
        0 < height <= MAX_SIDE,
        width * height * 32 <= isize::MAX,
        bytes@.len() == width * height * 3,
    ensures
        out@.len() == 4 * bytes@.len(),
{
    let filter = image::imageops::FilterType::Lanczos3;
    match image::RgbImage::from_raw(width, height, bytes) {
        Some(part) => image::imageops::resize(&part, width * 2, height * 2, filter).into_raw(),
        None => Vec::new(),
    }
}

/// The part is not empty and lies in the picture.
pub open spec fn lies_in(r: Region, image: RgbImage) -> bool {
    &&& r.w > 0
    &&& r.h > 0
    &&& r.x + r.w <= image.spec_width()
    &&& r.y + r.h <= image.spec_height()
}

/// The colour behind an icon in a part of a picture.
pub open spec fn backdrop_in(image: RgbImage, r: Region) -> Rgb {
    let x = r.x + r.w * 3 / 4;
    mean_color(
        image.at(x, r.y as int),
        image.at(x, r.y + r.h as int / 2),
        image.at(x, r.y + r.h - 1),
    )
}

/// What an engine is given for a request: the part of the screenshot, treated
/// as it was asked for. Of an enlarged part the size is known. A part that is
/// to be grey still has its colours.
pub open spec fn prepared(image: RgbImage, request: OcrRequest, part: RgbImage) -> bool {
    let r = request.region;
    let scale = if request.treatment == Treatment::Enlarged {
        2int
    } else {
        1int
    };
    &&& part.spec_width() == scale * r.w
    &&& part.spec_height() == scale * r.h
    &&& forall|u: int, v: int|
        part.contains(u, v) && request.treatment != Treatment::Enlarged ==> #[trigger] part.at(u, v)
            == match request.treatment {
            Treatment::Masked => if u < 18 {
                backdrop_in(image, r)
            } else {
                image.at(r.x + u, r.y + v)
            },
            Treatment::Green => grey(green_value(image.at(r.x + u, r.y + v))),
            _ => image.at(r.x + u, r.y + v),
        }
}

fn enlarge_part(part: &RgbImage) -> (out: RgbImage)
    requires
        0 < part.spec_width() <= MAX_SIDE,
        0 < part.spec_height() <= MAX_SIDE,
        part.spec_width() * part.spec_height() * 32 <= isize::MAX,
    ensures
        out.spec_width() == 2 * part.spec_width(),
        out.spec_height() == 2 * part.spec_height(),
{
    let w: u32 = part.width();
    let h: u32 = part.height();
    let bytes = part.copy_bytes();
    let out = enlarge(w, h, bytes);
    assert((2 * w) * (2 * h) * 3 == 4 * (w * h * 3)) by (nonlinear_arith);
    match RgbImage::from_raw(w * 2, h * 2, out) {
        Some(image) => image,
        None => {
            assert(false);
            RgbImage::new(0, 0)
        },
    }
}

/// What an engine is given for a request; nothing where the part is empty or
/// does not lie in the screenshot.
pub fn prepare(image: &RgbImage, request: &OcrRequest) -> (out: Option<RgbImage>)
    requires
        screen_sized(*image),
    ensures
        match out {
            Some(part) => lies_in(request.region, *image) && prepared(*image, *request, part),
            None => !lies_in(request.region, *image),
        },
{
    let r = request.region;
    let width: u32 = image.width();
    let height: u32 = image.height();
    if r.w == 0 || r.h == 0 || r.w > width || r.h > height || r.x > width - r.w || r.y > height
        - r.h {
        return None;
    }
    let mut part = image.crop(r.x, r.y, r.w, r.h);
    match request.treatment {
        Treatment::Masked => {
            mask_icon(&mut part);
            Some(part)
        },
        Treatment::Green => {
            extract_green(&mut part);
            Some(part)
        },
        Treatment::Enlarged => {
            assert(r.w * r.h <= width * height) by (nonlinear_arith)
                requires
                    0 <= r.w <= width,
                    0 <= r.h <= height,
            ;
            Some(enlarge_part(&part))
        },
        Treatment::Plain => Some(part),
        Treatment::Gray => Some(part),
    }
}

/// A screenshot of a size that a screen can have.
#[derive(Debug, Clone, Copy)]
pub struct Screenshot<'a> {
    image: &'a RgbImage,
}

impl<'a> View for Screenshot<'a> {
    type V = RgbImage;

    closed spec fn view(&self) -> RgbImage {
        *self.image
    }
}

impl<'a> Screenshot<'a> {
    #[verifier::type_invariant]
    spec fn well_formed(self) -> bool {
        screen_sized(*self.image)
    }

    /// A screenshot; nothing where it is larger than any screen.
    pub fn new(image: &'a RgbImage) -> (s: Option<Self>)
        ensures
            match s {
                Some(s) => screen_sized(*image) && s@ == *image,
                None => !screen_sized(*image),
            },
    {
        if is_screen_sized(image) {
            Some(Screenshot { image })
        } else {
            None
        }
    }

    /// The picture.
    pub fn image(&self) -> (image: &'a RgbImage)
        ensures
            *image == self@,
    {
        self.image
    }

    /// What an engine is given for a request.
    pub fn part(&self, request: &OcrRequest) -> (out: Option<RgbImage>)
        ensures
            match out {
                Some(part) => lies_in(request.region, self@) && prepared(self@, *request, part),
                None => !lies_in(request.region, self@),
            },
    {
        proof {
            use_type_invariant(self);
        }
        prepare(self.image, request)
    }
}

/// How the icon of a line of so many pixels is painted over.
pub open spec fn mask_for(w: int, h: int) -> MaskPlan {
    MaskPlan {
        width: (if w < 18 {
            w
        } else {
            18
        }) as u32,
        sample_x: (w * 3 / 4) as u32,
        sample_y: (0u32, (h / 2) as u32, (h - 1) as u32),
    }
}

/// The first eighteen columns are painted over, with the colour of three places
/// three quarters across the line: at the top, in the middle and at the bottom.
pub proof fn icons_are_painted_over(w: int, h: int)
    requires
        0 < w <= 0x4000_0000,
        0 < h <= u32::MAX,
    ensures
        mask_for(w, h).width <= 18,
        w >= 18 ==> mask_for(w, h).width == 18,
        w < 18 ==> mask_for(w, h).width == w,
        4 * mask_for(w, h).sample_x <= 3 * w < 4 * mask_for(w, h).sample_x + 4,
        mask_for(w, h).sample_y.0 == 0,
        2 * mask_for(w, h).sample_y.1 == h || 2 * mask_for(w, h).sample_y.1 + 1 == h,
        mask_for(w, h).sample_y.2 + 1 == h,
{
}

/// A part of the screen is handed over as it is, with its icon painted over, in
/// gray by its green, or doubled in size.
pub proof fn parts_are_handed_over(
    image: RgbImage,
    request: OcrRequest,
    part: RgbImage,
    u: int,
    v: int,
)
    requires
        prepared(image, request, part),
        part.contains(u, v),
    ensures
        request.treatment == Treatment::Enlarged ==> part.spec_width() == 2 * request.region.w
            && part.spec_height() == 2 * request.region.h,
        request.treatment != Treatment::Enlarged ==> part.spec_width() == request.region.w
            && part.spec_height() == request.region.h,
        request.treatment == Treatment::Plain || request.treatment == Treatment::Gray ==> part.at(
            u,
            v,
        ) == image.at(request.region.x + u, request.region.y + v),
        request.treatment == Treatment::Masked && u >= 18 ==> part.at(u, v) == image.at(
            request.region.x + u,
            request.region.y + v,
        ),
        request.treatment == Treatment::Masked && u < 18 ==> part.at(u, v) == part.at(0, 0),
        request.treatment == Treatment::Green ==> part.at(u, v).0 == part.at(u, v).1 && part.at(
            u,
            v,
        ).1 == part.at(u, v).2,
{
    assert(part.contains(0, 0));
    let here = part.at(u, v);
    let corner = part.at(0, 0);
}

} // verus!
