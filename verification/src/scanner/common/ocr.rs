//! Asking a recognition engine for the text in a part of a screenshot.
use crate::image::RgbImage;
use crate::scanner::common::coord_scaler::CoordScaler;
use crate::scanner::common::pixel_utils::{crop_region, region_of, Region};
use crate::scanner::common::treatments::{lies_in, prepared, Screenshot};
use crate::text::trim_text;
use vstd::prelude::*;

verus! {

/// How the part is prepared for recognition.
#[derive(Debug, Clone, Copy, PartialEq, Eq, Structural)]
pub enum Treatment {
    /// As it is.
    Plain,
    /// With the icon at its left painted over.
    Masked,
    /// In grey.
    Gray,
    /// With green text made black on white.
    Green,
    /// At twice its size.
    Enlarged,
}

/// What an engine is asked for.
#[derive(Debug, Clone, Copy, PartialEq, Eq, Structural)]
pub struct OcrRequest {
    pub region: Region,
    pub treatment: Treatment,
}

/// What an engine answered: a text, or an error with its message.
pub type Answer = Result<Seq<char>, Seq<char>>;

/// A picture that an engine was given, whether it was to be made grey, and what
/// the engine answered.
pub type Given = (RgbImage, bool, Answer);

/// What was asked and what was answered.
#[verifier::ext_equal]
pub struct Log {
    /// The screenshot that is read from, where there is one.
    pub screenshot: Option<RgbImage>,
    /// What was asked, with the answers, in order.
    pub questions: Seq<(OcrRequest, Answer)>,
    /// What an engine was given for it, in order.
    pub given: Seq<Given>,
}

/// The engine was given the part of the screenshot that the request asks for,
/// prepared as the request demands it, and gave this answer.
pub open spec fn given_for(
    screenshot: RgbImage,
    before: Seq<Given>,
    after: Seq<Given>,
    request: OcrRequest,
    answer: Answer,
) -> bool {
    exists|part: RgbImage| #[trigger]
        prepared(screenshot, request, part) && after == before.push(
            (part, request.treatment == Treatment::Gray, answer),
        )
}

/// One more question was put and answered. Where there is a screenshot, the
/// engine was given the part of it that was asked for; of a part that does not
/// lie in it there is no text, and the engine was not asked.
pub open spec fn answered(before: Log, after: Log, request: OcrRequest, answer: Answer) -> bool {
    &&& after.screenshot == before.screenshot
    &&& after.questions == before.questions.push((request, answer))
    &&& match before.screenshot {
        Some(screenshot) => if lies_in(request.region, screenshot) {
            given_for(screenshot, before.given, after.given, request, answer)
        } else {
            &&& answer == Ok::<Seq<char>, Seq<char>>(Seq::empty())
            &&& after.given == before.given
        },
        None => after.given == before.given,
    }
}

/// An answer by its texts.
pub open spec fn answer_of(answer: Result<String, String>) -> Answer {
    match answer {
        Ok(t) => Ok(t@),
        Err(e) => Err(e@),
    }
}

/// An answer without white space around its text.
pub open spec fn trimmed_answer(answer: Answer) -> Answer {
    match answer {
        Ok(t) => Ok(crate::text::trimmed(t)),
        Err(e) => Err(e),
    }
}

/// The text of an answer, empty for an error.
pub open spec fn text_or_empty(answer: Answer) -> Seq<char> {
    match answer {
        Ok(t) => t,
        Err(_) => Seq::empty(),
    }
}

/// A recognition engine.
pub trait ImageToText {
    /// What the engine was asked and what it answered.
    spec fn log(&self) -> Log;

    /// The text in a part of the screenshot, or an error. Nothing is known of it
    /// beforehand.
    fn read(&mut self, request: &OcrRequest) -> (answer: Result<String, String>)
        ensures
            answered(old(self).log(), final(self).log(), *request, answer_of(answer)),
    ;
}

/// A recognition engine of which nothing is known beforehand.
pub trait Engine {
    /// What the engine was given and what it answered, in order.
    closed spec fn given(&self) -> Seq<Given> {
        arbitrary()
    }

    /// The text in a picture, which may have to be made grey before, or an
    /// error.
    fn recognise(&mut self, picture: &RgbImage, gray: bool) -> (answer: Result<String, String>)
        ensures
            final(self).given() == old(self).given().push((*picture, gray, answer_of(answer))),
    ;
}

/// An engine with the screenshot that it reads from, and a record of what it was
/// asked and what it answered.
pub struct Recorder<'a, E> {
    engine: E,
    screenshot: Screenshot<'a>,
    questions: Ghost<Seq<(OcrRequest, Answer)>>,
}

impl<'a, E: Engine> Recorder<'a, E> {
    /// The engine.
    pub closed spec fn engine(&self) -> E {
        self.engine
    }

    /// The screenshot that the engine reads from.
    pub closed spec fn picture(&self) -> RgbImage {
        self.screenshot@
    }

    /// An engine that was not asked anything yet.
    pub fn new(engine: E, screenshot: Screenshot<'a>) -> (r: Self)
        ensures
            r.log() == (Log {
                screenshot: Some(screenshot@),
                questions: Seq::empty(),
                given: engine.given(),
            }),
            r.engine() == engine,
            r.picture() == screenshot@,
    {
        Recorder { engine, screenshot, questions: Ghost(Seq::empty()) }
    }

    /// The screenshot that the engine reads from.
    pub fn image(&self) -> (image: &'a RgbImage)
        ensures
            *image == self.picture(),
            self.log().screenshot == Some(*image),
    {
        self.screenshot.image()
    }
}

impl<'a, E: Engine> ImageToText for Recorder<'a, E> {
    closed spec fn log(&self) -> Log {
        Log {
            screenshot: Some(self.screenshot@),
            questions: self.questions@,
            given: self.engine.given(),
        }
    }

    /// The engine is given what the request asks for; of a part that does not lie
    /// in the screenshot there is no text, and the engine is not asked.
    fn read(&mut self, request: &OcrRequest) -> (answer: Result<String, String>)
        ensures
            final(self).picture() == old(self).picture(),
            if lies_in(request.region, old(self).picture()) {
                given_for(
                    old(self).picture(),
                    old(self).engine().given(),
                    final(self).engine().given(),
                    *request,
                    answer_of(answer),
                )
            } else {
                &&& answer is Ok
                &&& answer->Ok_0@.len() == 0
                &&& final(self).engine() == old(self).engine()
            },
    {
        let answer = match self.screenshot.part(request) {
            Some(picture) => self.engine.recognise(
                &picture,
                matches!(request.treatment, Treatment::Gray),
            ),
            None => {
                let none = String::new();
                assert(none@ =~= Seq::<char>::empty());
                Ok(none)
            },
        };
        self.questions = Ghost(self.questions@.push((*request, answer_of(answer))));
        answer
    }
}

/// A rectangle of the base resolution.
pub type BaseRect = (i32, i32, i32, i32);

/// A part of a picture by its measures.
pub open spec fn region_at(r: (int, int, int, int)) -> Region {
    Region { x: r.0 as u32, y: r.1 as u32, w: r.2 as u32, h: r.3 as u32 }
}

/// What is asked for the text under a rectangle.
pub open spec fn request_for(
    image: RgbImage,
    scaler: CoordScaler,
    rect: BaseRect,
    treatment: Treatment,
) -> OcrRequest {
    OcrRequest {
        region: region_at(
            region_of(
                image,
                scaler,
                (rect.0 as int, rect.1 as int, rect.2 as int, rect.3 as int),
            ),
        ),
        treatment,
    }
}

/// The part that is asked for is empty.
pub open spec fn asks_for_nothing(request: OcrRequest) -> bool {
    request.region.w == 0 || request.region.h == 0
}

/// The engine was asked once, and gave this answer; for an empty part it was
/// not asked, and the answer is the empty text.
pub open spec fn asked(before: Log, after: Log, request: OcrRequest, answer: Answer) -> bool {
    if asks_for_nothing(request) {
        after == before && answer == Ok::<Seq<char>, Seq<char>>(Seq::empty())
    } else {
        &&& answered(before, after, request, after.questions.last().1)
        &&& answer == trimmed_answer(after.questions.last().1)
    }
}

/// Where the picture that is scanned is the screenshot that is read from, what
/// is asked under a rectangle is read from that picture: the engine is given its
/// part, and its trimmed text is the answer. The picture stays the screenshot.
pub proof fn rectangles_are_read_from_the_screenshot(
    before: Log,
    after: Log,
    image: RgbImage,
    scaler: CoordScaler,
    rect: BaseRect,
    treatment: Treatment,
    answer: Answer,
)
    requires
        before.screenshot == Some(image),
        asked(before, after, request_for(image, scaler, rect, treatment), answer),
    ensures
        after.screenshot == Some(image),
        if asks_for_nothing(request_for(image, scaler, rect, treatment)) {
            after == before && answer == Ok::<Seq<char>, Seq<char>>(Seq::empty())
        } else {
            exists|raw: Answer| #[trigger]
                given_for(
                    image,
                    before.given,
                    after.given,
                    request_for(image, scaler, rect, treatment),
                    raw,
                ) && answer == trimmed_answer(raw)
        },
{
    let request = request_for(image, scaler, rect, treatment);
    if !asks_for_nothing(request) {
        assert(lies_in(request.region, image));
        let raw = after.questions.last().1;
        assert(given_for(image, before.given, after.given, request, raw));
    }
}

/// An engine was asked one thing after the other, each as a plan demands it
/// after the answers before, and gave these answers.
pub open spec fn conducted(
    before: Log,
    after: Log,
    plan: spec_fn(Seq<Answer>) -> OcrRequest,
    answers: Seq<Answer>,
) -> bool
    decreases answers.len(),
{
    if answers.len() == 0 {
        before == after
    } else {
        exists|middle: Log|
            conducted(before, middle, plan, answers.drop_last()) && #[trigger] asked(
                middle,
                after,
                plan(answers.drop_last()),
                answers.last(),
            )
    }
}

/// One more question of the plan was asked.
pub proof fn conducted_on(
    before: Log,
    middle: Log,
    after: Log,
    plan: spec_fn(Seq<Answer>) -> OcrRequest,
    answers: Seq<Answer>,
    answer: Answer,
)
    requires
        conducted(before, middle, plan, answers),
        asked(middle, after, plan(answers), answer),
    ensures
        conducted(before, after, plan, answers.push(answer)),
{
    let all = answers.push(answer);
    assert(all.drop_last() =~= answers);
    assert(asked(middle, after, plan(all.drop_last()), all.last()));
}

/// The trimmed text in a part; an empty part has no text, and no engine is asked
/// for it.
pub fn read_part<O: ImageToText>(ocr: &mut O, region: Region, treatment: Treatment) -> (answer:
    Result<String, String>)
    ensures
        asked(
            old(ocr).log(),
            final(ocr).log(),
            (OcrRequest { region, treatment }),
            answer_of(answer),
        ),
        asks_for_nothing((OcrRequest { region, treatment })) ==> *final(ocr) == *old(ocr),
{
    if region.w == 0 || region.h == 0 {
        let none = String::new();
        assert(none@ =~= Seq::<char>::empty());
        return Ok(none);
    }
    let answer = ocr.read(&OcrRequest { region, treatment });
    match answer {
        Ok(text) => Ok(trim_text(text.as_str())),
        Err(e) => Err(e),
    }
}

/// The trimmed text under a rectangle.
pub fn read_region<O: ImageToText>(
    ocr: &mut O,
    image: &RgbImage,
    scaler: &CoordScaler,
    rect: BaseRect,
    treatment: Treatment,
) -> (answer: Result<String, String>)
    ensures
        asked(
            old(ocr).log(),
            final(ocr).log(),
            request_for(*image, *scaler, rect, treatment),
            answer_of(answer),
        ),
        asks_for_nothing(request_for(*image, *scaler, rect, treatment)) ==> *final(ocr) == *old(
            ocr,
        ),
{
    read_part(ocr, crop_region(image, scaler, rect), treatment)
}

/// The text of an answer, empty for an error.
pub fn or_empty(answer: Result<String, String>) -> (text: String)
    ensures
        text@ == text_or_empty(answer_of(answer)),
{
    match answer {
        Ok(text) => text,
        Err(_) => {
            let none = String::new();
            assert(none@ =~= Seq::<char>::empty());
            none
        },
    }
}

} // verus!
