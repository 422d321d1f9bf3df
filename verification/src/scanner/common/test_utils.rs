//! Stand-ins for the outside world: a recognition engine that answers from a
//! list, painted screenshots, and a small set of names.
use crate::image::{Rgb, RgbImage};
use crate::name_map::NameMap;
use crate::scanner::common::coord_scaler::CoordScaler;
use crate::scanner::common::mappings::MappingManager;
use crate::number::decimal_chars;
use crate::scanner::common::ocr::{answer_of, Answer, Engine, Given, ImageToText, Log, OcrRequest};
use crate::text::{append, copy_of, string_of};
use vstd::prelude::*;

verus! {

/// A recognition engine that gives back prepared answers in their order.
pub struct FakeOcr {
    responses: Vec<Result<String, String>>,
    /// How many answers were given.
    used: usize,
    /// How often the engine was asked without an answer left.
    unanswered: usize,
    questions: Ghost<Seq<(OcrRequest, Answer)>>,
}

impl FakeOcr {
    /// The answers that are still to come.
    pub closed spec fn pending(&self) -> Seq<Result<String, String>> {
        self.responses@.skip(self.used as int)
    }

    /// How often the engine was asked.
    pub closed spec fn calls(&self) -> nat {
        (self.used + self.unanswered) as nat
    }

    #[verifier::type_invariant]
    spec fn well_formed(self) -> bool {
        &&& self.used <= self.responses@.len()
        &&& self.used + self.unanswered <= usize::MAX
        &&& self.used < self.responses@.len() ==> self.unanswered == 0
    }

    /// An engine whose answers are all texts.
    pub fn new(responses: Vec<&str>) -> (ocr: Self)
        ensures
            ocr.calls() == 0,
            ocr.pending().len() == responses@.len(),
            forall|i: int|
                0 <= i < responses@.len() ==> (#[trigger] ocr.pending()[i] matches Ok(t) && t@
                    == responses@[i]@),
    {
        let mut all: Vec<Result<String, String>> = Vec::new();
        let mut i: usize = 0;
        while i < responses.len()
            invariant
                i <= responses@.len(),
                all@.len() == i,
                forall|k: int|
                    0 <= k < i ==> (#[trigger] all@[k] matches Ok(t) && t@ == responses@[k]@),
            decreases responses@.len() - i,
        {
            all.push(Ok(copy_of(responses[i])));
            i = i + 1;
        }
        assert(all@.skip(0) == all@);
        FakeOcr { responses: all, used: 0, unanswered: 0, questions: Ghost(Seq::empty()) }
    }

    /// An engine some of whose answers are errors.
    pub fn with_results(responses: Vec<Result<String, String>>) -> (ocr: Self)
        ensures
            ocr.calls() == 0,
            ocr.pending() == responses@,
    {
        assert(responses@.skip(0) == responses@);
        FakeOcr { responses, used: 0, unanswered: 0, questions: Ghost(Seq::empty()) }
    }

    /// How often the engine was asked.
    pub fn call_count(&self) -> (n: usize)
        ensures
            n == self.calls(),
    {
        proof {
            use_type_invariant(self);
        }
        self.used + self.unanswered
    }

    /// The next answer.
    pub fn image_to_text(&mut self) -> (answer: Result<String, String>)
        requires
            old(self).pending().len() > 0,
        ensures
            final(self).calls() == old(self).calls() + 1,
            final(self).pending() == old(self).pending().skip(1),
            final(self).log() == old(self).log(),
            match answer {
                Ok(t) => old(self).pending()[0] matches Ok(s) && s@ == t@,
                Err(e) => old(self).pending()[0] matches Err(s) && s@ == e@,
            },
    {
        proof {
            use_type_invariant(&*self);
        }
        let len: usize = self.responses.len();
        let i: usize = self.used;
        assert(i < len);
        assert(self.responses@.skip(i as int)[0] == self.responses@[i as int]);
        let answer = match &self.responses[i] {
            Ok(t) => Ok(t.clone()),
            Err(e) => Err(e.clone()),
        };
        self.used = i + 1;
        assert(self.responses@.skip(i as int).skip(1) =~= self.responses@.skip(i + 1));
        answer
    }
}

impl ImageToText for FakeOcr {
    closed spec fn log(&self) -> Log {
        Log { screenshot: None, questions: self.questions@, given: Seq::empty() }
    }

    /// The next answer; an error where none is prepared.
    fn read(&mut self, request: &OcrRequest) -> (answer: Result<String, String>)
        ensures
            old(self).pending().len() > 0 ==> final(self).pending() == old(self).pending().skip(1)
                && final(self).calls() == old(self).calls() + 1,
            old(self).pending().len() == 0 ==> answer is Err && final(self).pending().len() == 0
                && final(self).calls() == if old(self).calls() < usize::MAX {
                old(self).calls() + 1
            } else {
                old(self).calls()
            },
            old(self).pending().len() > 0 ==> match answer {
                Ok(t) => old(self).pending()[0] matches Ok(s) && s@ == t@,
                Err(e) => old(self).pending()[0] matches Err(s) && s@ == e@,
            },
    {
        proof {
            use_type_invariant(&*self);
        }
        let answer = if self.used < self.responses.len() {
            self.image_to_text()
        } else {
            if self.unanswered < usize::MAX - self.used {
                self.unanswered = self.unanswered + 1;
            }
            Err(copy_of("no answer prepared"))
        };
        proof {
            use_type_invariant(&*self);
        }
        self.questions = Ghost(self.questions@.push((*request, answer_of(answer))));
        answer
    }
}

/// An engine that tells the size of what it is given.
pub struct SizeEngine {
    given: Ghost<Seq<Given>>,
}

impl SizeEngine {
    /// An engine that was not given anything yet.
    pub fn new() -> (e: Self)
        ensures
            e.given() == Seq::<Given>::empty(),
    {
        SizeEngine { given: Ghost(Seq::empty()) }
    }
}

/// The size of a picture, and whether it is to be grey.
pub open spec fn size_text(picture: RgbImage, gray: bool) -> Seq<char> {
    crate::number::decimal(picture.spec_width() as nat) + "x"@ + crate::number::decimal(
        picture.spec_height() as nat,
    ) + if gray {
        " grey"@
    } else {
        Seq::empty()
    }
}

impl Engine for SizeEngine {
    closed spec fn given(&self) -> Seq<Given> {
        self.given@
    }

    fn recognise(&mut self, picture: &RgbImage, gray: bool) -> (answer: Result<String, String>)
        ensures
            answer matches Ok(t) && t@ == size_text(*picture, gray),
    {
        let mut text = string_of(&decimal_chars(picture.width() as u64));
        append(&mut text, "x");
        append(&mut text, string_of(&decimal_chars(picture.height() as u64)).as_str());
        if gray {
            append(&mut text, " grey");
        }
        assert(text@ =~= size_text(*picture, gray));
        let answer = Ok(text);
        self.given = Ghost(self.given@.push((*picture, gray, answer_of(answer))));
        answer
    }
}

/// A black screenshot of the base resolution.
pub fn make_1080p_image() -> (image: RgbImage)
    ensures
        image.spec_width() == 1920,
        image.spec_height() == 1080,
        forall|x: int, y: int|
            image.contains(x, y) ==> #[trigger] image.at(x, y) == (0u8, 0u8, 0u8),
{
    RgbImage::new(1920, 1080)
}

/// The scaler of the base resolution.
pub fn make_1080p_scaler() -> (s: CoordScaler)
    ensures
        s.game_width == 1920,
        s.game_height == 1080,
{
    CoordScaler::new(1920, 1080)
}

/// Paints the pixel at a place.
pub fn set_pixel(image: &mut RgbImage, x: u32, y: u32, rgb: Rgb)
    ensures
        final(image).spec_width() == old(image).spec_width(),
        final(image).spec_height() == old(image).spec_height(),
        forall|u: int, v: int|
            old(image).contains(u, v) ==> #[trigger] final(image).at(u, v) == if u == x && v == y {
                rgb
            } else {
                old(image).at(u, v)
            },
{
    image.set_pixel(x, y, rgb);
}

/// The last column that the stars of a rarity reach.
pub open spec fn stars_end(rarity: i32) -> u32 {
    if rarity == 5 {
        1490
    } else if rarity == 4 {
        1455
    } else if rarity == 3 {
        1420
    } else {
        1380
    }
}

/// A place that `paint_rarity_stars` paints.
pub open spec fn in_stars(rarity: i32, x: int, y: int) -> bool {
    370 <= y <= 374 && 1350 <= x <= stars_end(rarity) && x % 2 == 0
}

/// Paints the stars of a rarity.
pub fn paint_rarity_stars(image: &mut RgbImage, rarity: i32)
    ensures
        final(image).spec_width() == old(image).spec_width(),
        final(image).spec_height() == old(image).spec_height(),
        forall|u: int, v: int|
            old(image).contains(u, v) ==> #[trigger] final(image).at(u, v) == if in_stars(
                rarity,
                u,
                v,
            ) {
                (200u8, 180u8, 50u8)
            } else {
                old(image).at(u, v)
            },
{
    let end: u32 = if rarity == 5 {
        1490
    } else if rarity == 4 {
        1455
    } else if rarity == 3 {
        1420
    } else {
        1380
    };
    let ghost first = *image;
    let mut y: u32 = 370;
    while y <= 374
        invariant
            370 <= y <= 375,
            end == stars_end(rarity),
            first == *old(image),
            image.spec_width() == first.spec_width(),
            image.spec_height() == first.spec_height(),
            forall|u: int, v: int|
                first.contains(u, v) ==> #[trigger] image.at(u, v) == if in_stars(rarity, u, v)
                    && v < y {
                    (200u8, 180u8, 50u8)
                } else {
                    first.at(u, v)
                },
        decreases 375 - y,
    {
        let mut x: u32 = 1350;
        while x <= end
            invariant
                1350 <= x <= 1500,
                x % 2 == 0,
                370 <= y <= 374,
                end == stars_end(rarity),
                first == *old(image),
                image.spec_width() == first.spec_width(),
                image.spec_height() == first.spec_height(),
                forall|u: int, v: int|
                    first.contains(u, v) ==> #[trigger] image.at(u, v) == if in_stars(rarity, u, v)
                        && (v < y || (v == y && u < x)) {
                        (200u8, 180u8, 50u8)
                    } else {
                        first.at(u, v)
                    },
            decreases 1500 - x,
        {
            set_pixel(image, x, y, (200, 180, 50));
            x = x + 2;
        }
        y = y + 1;
    }
}

/// The colour of an icon that is there, and of one that is not.
pub open spec fn icon_color(present: bool) -> Rgb {
    if present {
        (60u8, 60u8, 60u8)
    } else {
        (230u8, 230u8, 230u8)
    }
}

fn paint_two(image: &mut RgbImage, present: bool, x1: u32, y1: u32, x2: u32, y2: u32)
    ensures
        final(image).spec_width() == old(image).spec_width(),
        final(image).spec_height() == old(image).spec_height(),
        forall|u: int, v: int|
            old(image).contains(u, v) ==> #[trigger] final(image).at(u, v) == if (u == x1 && v
                == y1) || (u == x2 && v == y2) {
                icon_color(present)
            } else {
                old(image).at(u, v)
            },
{
    let color: Rgb = if present {
        (60, 60, 60)
    } else {
        (230, 230, 230)
    };
    set_pixel(image, x1, y1, color);
    set_pixel(image, x2, y2, color);
}

/// Paints the lock icon of an artifact.
pub fn paint_artifact_lock(image: &mut RgbImage, locked: bool, y_shift: u32)
    requires
        y_shift <= 10_000,
    ensures
        final(image).spec_width() == old(image).spec_width(),
        final(image).spec_height() == old(image).spec_height(),
        forall|u: int, v: int|
            old(image).contains(u, v) ==> #[trigger] final(image).at(u, v) == if (u == 1683 || u
                == 1708) && v == 428 + y_shift {
                icon_color(locked)
            } else {
                old(image).at(u, v)
            },
{
    paint_two(image, locked, 1683, 428 + y_shift, 1708, 428 + y_shift);
}

/// Paints the astral mark of an artifact.
pub fn paint_artifact_astral(image: &mut RgbImage, present: bool, y_shift: u32)
    requires
        y_shift <= 10_000,
    ensures
        final(image).spec_width() == old(image).spec_width(),
        final(image).spec_height() == old(image).spec_height(),
        forall|u: int, v: int|
            old(image).contains(u, v) ==> #[trigger] final(image).at(u, v) == if (u == 1768 && v
                == 428 + y_shift) || (u == 1740 && v == 429 + y_shift) {
                icon_color(present)
            } else {
                old(image).at(u, v)
            },
{
    paint_two(image, present, 1768, 428 + y_shift, 1740, 429 + y_shift);
}

/// Paints the banner of an elixir-crafted artifact, or the card in its place.
pub fn paint_elixir_banner(image: &mut RgbImage, is_elixir: bool)
    ensures
        final(image).spec_width() == old(image).spec_width(),
        final(image).spec_height() == old(image).spec_height(),
        forall|u: int, v: int|
            old(image).contains(u, v) ==> #[trigger] final(image).at(u, v) == if (u == 1510 || u
                == 1520 || u == 1530) && v == 423 {
                if is_elixir {
                    (80u8, 50u8, 240u8)
                } else {
                    (200u8, 190u8, 195u8)
                }
            } else {
                old(image).at(u, v)
            },
{
    let color: Rgb = if is_elixir {
        (80, 50, 240)
    } else {
        (200, 190, 195)
    };
    set_pixel(image, 1510, 423, color);
    set_pixel(image, 1520, 423, color);
    set_pixel(image, 1530, 423, color);
}

/// Paints the lock icon of a weapon.
pub fn paint_weapon_lock(image: &mut RgbImage, locked: bool)
    ensures
        final(image).spec_width() == old(image).spec_width(),
        final(image).spec_height() == old(image).spec_height(),
        forall|u: int, v: int|
            old(image).contains(u, v) ==> #[trigger] final(image).at(u, v) == if (u == 1768 && v
                == 428) || (u == 1740 && v == 429) {
                icon_color(locked)
            } else {
                old(image).at(u, v)
            },
{
    paint_two(image, locked, 1768, 428, 1740, 429);
}

/// A few characters, weapons and artifact sets.
pub fn make_test_mappings() -> (m: MappingManager)
    ensures
        m.character_name_map@.dom() == set!["芙宁娜"@, "纳西妲"@, "胡桃"@],
        m.character_const_bonus@.dom() == Set::<Seq<char>>::empty(),
        m.weapon_name_map@.dom() == set!["天空之翼"@, "护摩之杖"@, "风鹰剑"@],
        m.artifact_set_map@.dom() == set!["角斗士的终幕礼"@, "流浪大地的乐团"@, "绝缘之旗印"@],
        m.artifact_set_max_rarity@ == map![
            "GladiatorsFinale"@ => 5i32,
            "WanderersTroupe"@ => 5i32,
            "EmblemOfSeveredFate"@ => 5i32,
        ],
        m.character_name_map@["芙宁娜"@]@ == "Furina"@,
        m.character_name_map@["纳西妲"@]@ == "Nahida"@,
        m.character_name_map@["胡桃"@]@ == "HuTao"@,
        m.weapon_name_map@["天空之翼"@]@ == "SkywardHarp"@,
        m.weapon_name_map@["护摩之杖"@]@ == "StaffOfHoma"@,
        m.weapon_name_map@["风鹰剑"@]@ == "AquilaFavonia"@,
        m.artifact_set_map@["角斗士的终幕礼"@]@ == "GladiatorsFinale"@,
        m.artifact_set_map@["流浪大地的乐团"@]@ == "WanderersTroupe"@,
        m.artifact_set_map@["绝缘之旗印"@]@ == "EmblemOfSeveredFate"@,
{
    proof {
        reveal_strlit("芙宁娜");
        reveal_strlit("纳西妲");
        reveal_strlit("胡桃");
        reveal_strlit("天空之翼");
        reveal_strlit("护摩之杖");
        reveal_strlit("风鹰剑");
        reveal_strlit("角斗士的终幕礼");
        reveal_strlit("流浪大地的乐团");
        reveal_strlit("绝缘之旗印");
        assert("芙宁娜"@[0] != "纳西妲"@[0]);
        assert("芙宁娜"@[0] != "胡桃"@[0]);
        assert("纳西妲"@[0] != "胡桃"@[0]);
        assert("天空之翼"@[0] != "护摩之杖"@[0]);
        assert("天空之翼"@[0] != "风鹰剑"@[0]);
        assert("护摩之杖"@[0] != "风鹰剑"@[0]);
        assert("角斗士的终幕礼"@[0] != "流浪大地的乐团"@[0]);
        assert("角斗士的终幕礼"@[0] != "绝缘之旗印"@[0]);
        assert("流浪大地的乐团"@[0] != "绝缘之旗印"@[0]);
    }
    let mut characters: NameMap<String> = NameMap::new();
    characters.insert(copy_of("芙宁娜"), copy_of("Furina"));
    characters.insert(copy_of("纳西妲"), copy_of("Nahida"));
    characters.insert(copy_of("胡桃"), copy_of("HuTao"));
    let mut weapons: NameMap<String> = NameMap::new();
    weapons.insert(copy_of("天空之翼"), copy_of("SkywardHarp"));
    weapons.insert(copy_of("护摩之杖"), copy_of("StaffOfHoma"));
    weapons.insert(copy_of("风鹰剑"), copy_of("AquilaFavonia"));
    let mut sets: NameMap<String> = NameMap::new();
    sets.insert(copy_of("角斗士的终幕礼"), copy_of("GladiatorsFinale"));
    sets.insert(copy_of("流浪大地的乐团"), copy_of("WanderersTroupe"));
    sets.insert(copy_of("绝缘之旗印"), copy_of("EmblemOfSeveredFate"));
    let mut rarities: NameMap<i32> = NameMap::new();
    rarities.insert(copy_of("GladiatorsFinale"), 5);
    rarities.insert(copy_of("WanderersTroupe"), 5);
    rarities.insert(copy_of("EmblemOfSeveredFate"), 5);
    assert(characters@.dom() =~= set!["芙宁娜"@, "纳西妲"@, "胡桃"@]);
    assert(weapons@.dom() =~= set!["天空之翼"@, "护摩之杖"@, "风鹰剑"@]);
    assert(sets@.dom() =~= set!["角斗士的终幕礼"@, "流浪大地的乐团"@, "绝缘之旗印"@]);
    let bonuses = NameMap::new();
    MappingManager {
        character_name_map: characters,
        character_const_bonus: bonuses,
        weapon_name_map: weapons,
        artifact_set_map: sets,
        artifact_set_max_rarity: rarities,
    }
}

} // verus!
