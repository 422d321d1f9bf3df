//! The second pass over characters whose results may be misread.
use crate::scanner::character::scanner::{
    after_opening, is_same_character, reread, rescan_suspicious, steps_to, ScreenStep,
    SecondReading, OPEN_ATTEMPTS,
};
use crate::scanner::common::mappings::{ConstBonus, MappingManager};
use crate::scanner::common::models::GoodCharacter;
use crate::text::text_of;
use vstd::prelude::*;

verus! {

/// How far the second pass has come.
#[derive(Debug)]
pub enum Phase {
    /// The character screen is opened; the attempts so far.
    Opening(usize),
    /// A character was gone to, and its name is to be read.
    Arrived,
    /// The name of the character was read.
    Named(Option<String>),
    /// The pass has ended.
    Ended,
}

/// What happened.
#[derive(Debug)]
pub enum PassEvent {
    /// This text stands in the place of the name after an attempt to open the
    /// screen.
    Looked(String),
    /// This name was read.
    Name(Option<String>),
    /// The character was read.
    Read(SecondReading),
    /// The user stopped the pass.
    Stopped,
}

/// What to do next.
#[derive(Debug, Clone, Copy, PartialEq, Eq, Structural)]
pub enum PassAction {
    /// Return to the main view, open the screen and look at the place of the
    /// name.
    OpenAgain,
    /// Return to the main view; the screen could not be opened.
    GiveUp,
    /// Go on to the next character so often, after the screen was closed and
    /// opened again where that is demanded, and read the name.
    GoTo { reopen: bool, steps: usize },
    /// Read the character.
    Read,
    /// Close the screen.
    Close,
}

/// The second pass.
#[derive(Debug)]
pub struct SecondPass {
    /// The indices of the characters.
    pub targets: Vec<usize>,
    /// How many of them are done.
    pub done: usize,
    /// The index of the character that is shown.
    pub current: usize,
    pub phase: Phase,
}

impl SecondPass {
    /// The characters of the pass are among so many.
    pub open spec fn valid(&self, n: nat) -> bool {
        &&& self.done <= self.targets@.len()
        &&& forall|k: int| 0 <= k < self.targets@.len() ==> #[trigger] self.targets@[k] < n
        &&& self.phase is Arrived || self.phase is Named ==> self.done < self.targets@.len()
            && self.current == self.targets@[self.done as int]
    }

    /// The pass goes on after so many characters: to the next one, or to its end.
    pub open spec fn moved_on(&self, after: SecondPass, done: int, action: PassAction) -> bool {
        &&& after.targets@ == self.targets@
        &&& after.done == done
        &&& if done < self.targets@.len() {
            let target = self.targets@[done];
            &&& after.phase is Arrived
            &&& after.current == target
            &&& action == if target >= self.current {
                PassAction::GoTo { reopen: false, steps: (target - self.current) as usize }
            } else {
                PassAction::GoTo { reopen: true, steps: target }
            }
        } else {
            &&& after.phase is Ended
            &&& after.current == self.current
            &&& action == PassAction::Close
        }
    }

    /// The pass has ended, and nothing else has changed.
    pub open spec fn ended(&self, after: SecondPass) -> bool {
        &&& after.targets@ == self.targets@
        &&& after.done == self.done
        &&& after.current == self.current
        &&& after.phase is Ended
    }

    /// One step of the pass. A character changes only where it was read and its
    /// name was read before.
    pub open spec fn stepped(
        &self,
        characters: Seq<GoodCharacter>,
        event: PassEvent,
        bonuses: Map<Seq<char>, ConstBonus>,
        after: SecondPass,
        changed: Seq<GoodCharacter>,
        action: PassAction,
    ) -> bool {
        match (self.phase, event) {
            (Phase::Opening(n), PassEvent::Looked(text)) => {
                &&& changed == characters
                &&& if crate::text::trimmed(text@).len() > 0 {
                    self.moved_on(after, self.done as int, action)
                } else if n + 1 < OPEN_ATTEMPTS {
                    &&& after.targets@ == self.targets@
                    &&& after.done == self.done
                    &&& after.current == self.current
                    &&& after.phase == Phase::Opening((n + 1) as usize)
                    &&& action == PassAction::OpenAgain
                } else {
                    self.ended(after) && action == PassAction::GiveUp
                }
            },
            (Phase::Arrived, PassEvent::Name(name)) => {
                &&& changed == characters
                &&& if text_of(name) == Some(characters[self.current as int].key@) {
                    &&& after.targets@ == self.targets@
                    &&& after.done == self.done
                    &&& after.current == self.current
                    &&& after.phase == Phase::Named(name)
                    &&& action == PassAction::Read
                } else {
                    self.moved_on(after, self.done + 1, action)
                }
            },
            (Phase::Named(name), PassEvent::Read(r)) => {
                let i = self.current as int;
                &&& changed.len() == characters.len()
                &&& forall|k: int|
                    0 <= k < characters.len() && k != i ==> #[trigger] changed[k] == characters[k]
                &&& if text_of(name) == Some(characters[i].key@) {
                    reread(characters[i], r, bonuses, changed[i])
                } else {
                    changed[i] == characters[i]
                }
                &&& self.moved_on(after, self.done + 1, action)
            },
            (Phase::Opening(_), _) => {
                changed == characters && self.ended(after) && action == PassAction::GiveUp
            },
            _ => changed == characters && self.ended(after) && action == PassAction::Close,
        }
    }

    /// A pass over some characters, before its screen is opened.
    pub fn new(targets: Vec<usize>) -> (pass: Self)
        ensures
            pass.targets == targets,
            pass.done == 0,
            pass.current == 0,
            pass.phase == Phase::Opening(0),
    {
        SecondPass { targets, done: 0, current: 0, phase: Phase::Opening(0) }
    }

    fn move_on(&mut self) -> (action: PassAction)
        requires
            old(self).done <= old(self).targets@.len(),
        ensures
            old(self).moved_on(*final(self), old(self).done as int, action),
    {
        if self.done < self.targets.len() {
            let target: usize = self.targets[self.done];
            let (reopen, steps) = steps_to(self.current, target);
            self.current = target;
            self.phase = Phase::Arrived;
            PassAction::GoTo { reopen, steps }
        } else {
            self.phase = Phase::Ended;
            PassAction::Close
        }
    }

    /// Something happened. Tells what comes next. Without an open screen, and
    /// under another name, no character changes. What does not belong to the
    /// phase ends the pass.
    pub fn step(
        &mut self,
        characters: &mut Vec<GoodCharacter>,
        event: PassEvent,
        mappings: &MappingManager,
    ) -> (action: PassAction)
        requires
            old(self).valid(old(characters)@.len()),
        ensures
            final(self).valid(final(characters)@.len()),
            old(self).stepped(
                old(characters)@,
                event,
                mappings.character_const_bonus@,
                *final(self),
                final(characters)@,
                action,
            ),
    {
        let all: usize = self.targets.len();
        let mut phase = Phase::Ended;
        std::mem::swap(&mut phase, &mut self.phase);
        match (phase, event) {
            (Phase::Opening(n), PassEvent::Looked(text)) => {
                match after_opening(n, text.as_str()) {
                    ScreenStep::Opened => self.move_on(),
                    ScreenStep::Retry => {
                        self.phase = Phase::Opening(n + 1);
                        PassAction::OpenAgain
                    },
                    ScreenStep::GiveUp => PassAction::GiveUp,
                }
            },
            (Phase::Arrived, PassEvent::Name(name)) => {
                if is_same_character(&name, &characters[self.current]) {
                    self.phase = Phase::Named(name);
                    PassAction::Read
                } else {
                    self.done = self.done + 1;
                    self.move_on()
                }
            },
            (Phase::Named(name), PassEvent::Read(r)) => {
                rescan_suspicious(characters, self.current, &name, &r, mappings);
                self.done = self.done + 1;
                self.move_on()
            },
            (Phase::Opening(_), _) => PassAction::GiveUp,
            _ => PassAction::Close,
        }
    }
}

/// What a pass over some characters keeps: their number, their keys and
/// elements, all characters that are not in the pass, and no level goes down.
pub open spec fn kept(
    targets: Seq<usize>,
    before: Seq<GoodCharacter>,
    after: Seq<GoodCharacter>,
) -> bool {
    &&& after.len() == before.len()
    &&& forall|i: int|
        0 <= i < before.len() ==> {
            &&& (#[trigger] after[i]).key@ == before[i].key@
            &&& text_of(after[i].element) == text_of(before[i].element)
            &&& after[i].level >= before[i].level
            &&& !targets.contains(i as usize) ==> after[i] == before[i]
        }
}

/// One moment of a pass: its state, the characters, and what happens next.
pub struct Moment {
    pub pass: SecondPass,
    pub characters: Seq<GoodCharacter>,
    pub event: PassEvent,
}

/// The one moment comes from the other by what happened in it.
pub open spec fn follows(a: Moment, b: Moment, bonuses: Map<Seq<char>, ConstBonus>) -> bool {
    exists|action: PassAction| #[trigger]
        a.pass.stepped(a.characters, a.event, bonuses, b.pass, b.characters, action)
}

/// Each moment comes from the one before.
pub open spec fn course(moments: Seq<Moment>, bonuses: Map<Seq<char>, ConstBonus>) -> bool {
    &&& moments.len() > 0
    &&& moments[0].pass.valid(moments[0].characters.len())
    &&& forall|k: int|
        0 <= k < moments.len() - 1 ==> follows(#[trigger] moments[k], moments[k + 1], bonuses)
}

proof fn lemma_step_keeps(a: Moment, b: Moment, bonuses: Map<Seq<char>, ConstBonus>, action: PassAction)
    requires
        a.pass.valid(a.characters.len()),
        a.pass.stepped(a.characters, a.event, bonuses, b.pass, b.characters, action),
    ensures
        b.pass.valid(b.characters.len()),
        b.pass.targets@ == a.pass.targets@,
        kept(a.pass.targets@, a.characters, b.characters),
{
    let targets = a.pass.targets@;
    assert forall|i: int| 0 <= i < a.characters.len() implies {
        &&& (#[trigger] b.characters[i]).key@ == a.characters[i].key@
        &&& text_of(b.characters[i].element) == text_of(a.characters[i].element)
        &&& b.characters[i].level >= a.characters[i].level
        &&& !targets.contains(i as usize) ==> b.characters[i] == a.characters[i]
    } by {
        if a.pass.phase is Named && i == a.pass.current {
            assert(targets[a.pass.done as int] == i as usize);
        }
    }
}

/// However a pass goes, it keeps the number, the keys and the elements of the
/// characters and all that are not in the pass, and no level goes down.
pub proof fn second_pass_keeps(moments: Seq<Moment>, bonuses: Map<Seq<char>, ConstBonus>)
    requires
        course(moments, bonuses),
    ensures
        moments.last().pass.valid(moments.last().characters.len()),
        moments.last().pass.targets@ == moments[0].pass.targets@,
        kept(moments[0].pass.targets@, moments[0].characters, moments.last().characters),
    decreases moments.len(),
{
    if moments.len() > 1 {
        let rest = moments.drop_last();
        assert forall|k: int| 0 <= k < rest.len() - 1 implies follows(
            #[trigger] rest[k],
            rest[k + 1],
            bonuses,
        ) by {
            assert(moments[k] == rest[k] && moments[k + 1] == rest[k + 1]);
        }
        second_pass_keeps(rest, bonuses);
        let a = moments[moments.len() - 2];
        let b = moments.last();
        assert(rest.last() == a);
        assert(follows(a, moments[moments.len() - 1], bonuses));
        let action = choose|action: PassAction| #[trigger]
            a.pass.stepped(a.characters, a.event, bonuses, b.pass, b.characters, action);
        lemma_step_keeps(a, b, bonuses, action);
        let (first, middle, last) = (moments[0].characters, a.characters, b.characters);
        assert forall|i: int| 0 <= i < first.len() implies {
            &&& (#[trigger] last[i]).key@ == first[i].key@
            &&& text_of(last[i].element) == text_of(first[i].element)
            &&& last[i].level >= first[i].level
            &&& !moments[0].pass.targets@.contains(i as usize) ==> last[i] == first[i]
        } by {
            assert(middle[i].key@ == first[i].key@);
        }
    }
}

/// While the screen was not opened, no character has changed.
pub proof fn unopened_changes_nothing(moments: Seq<Moment>, bonuses: Map<Seq<char>, ConstBonus>)
    requires
        course(moments, bonuses),
        forall|k: int| 0 <= k < moments.len() - 1 ==> (#[trigger] moments[k]).pass.phase is Opening,
    ensures
        moments.last().characters == moments[0].characters,
    decreases moments.len(),
{
    if moments.len() > 1 {
        let rest = moments.drop_last();
        assert forall|k: int| 0 <= k < rest.len() - 1 implies follows(
            #[trigger] rest[k],
            rest[k + 1],
            bonuses,
        ) && rest[k].pass.phase is Opening by {
            assert(moments[k] == rest[k] && moments[k + 1] == rest[k + 1]);
        }
        unopened_changes_nothing(rest, bonuses);
        let n = moments.len() - 2;
        assert(follows(moments[n], moments[n + 1], bonuses));
        assert(moments[n].pass.phase is Opening);
    }
}

/// The targets are gone to one after the other, by as many steps as lead there from
/// the character that is shown, or from the first one where the screen is opened
/// again; after the last one the screen is closed.
pub proof fn targets_are_gone_to_in_order(
    pass: SecondPass,
    after: SecondPass,
    done: int,
    action: PassAction,
)
    requires
        pass.moved_on(after, done, action),
        0 <= done,
    ensures
        done >= pass.targets@.len() ==> action is Close,
        done < pass.targets@.len() ==> after.current == pass.targets@[done] && (
        action matches PassAction::GoTo { reopen, steps } && (if reopen {
            steps == after.current && after.current < pass.current
        } else {
            pass.current + steps == after.current
        })),
        after.targets@ == pass.targets@,
        after.done == done,
{
}

} // verus!
