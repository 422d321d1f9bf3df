//! The constellation of a character.
use crate::text::{has_text, same_text};
use vstd::prelude::*;

verus! {

/// What to do next to count the active nodes.
#[derive(Debug, Clone, Copy, PartialEq, Eq, Structural)]
pub enum Probe {
    /// Look at a node; the first has number 0.
    Look(usize),
    /// So many nodes are active.
    Count(i32),
}

/// The next node to look at, after the answers for those before: the third node
/// first, then half of what is left.
pub open spec fn next_probe(answers: Seq<bool>) -> Probe {
    if answers.len() == 0 {
        Probe::Look(2)
    } else if !answers[0] {
        if answers.len() == 1 {
            Probe::Look(1)
        } else if answers[1] {
            Probe::Count(2)
        } else if answers.len() == 2 {
            Probe::Look(0)
        } else if answers[2] {
            Probe::Count(1)
        } else {
            Probe::Count(0)
        }
    } else {
        if answers.len() == 1 {
            Probe::Look(4)
        } else if answers.len() == 2 {
            if answers[1] {
                Probe::Look(5)
            } else {
                Probe::Look(3)
            }
        } else if answers[1] {
            if answers[2] {
                Probe::Count(6)
            } else {
                Probe::Count(5)
            }
        } else {
            if answers[2] {
                Probe::Count(4)
            } else {
                Probe::Count(3)
            }
        }
    }
}

/// The next node to look at.
pub fn probe(answers: &Vec<bool>) -> (p: Probe)
    ensures
        p == next_probe(answers@),
{
    let n: usize = answers.len();
    if n == 0 {
        Probe::Look(2)
    } else if !answers[0] {
        if n == 1 {
            Probe::Look(1)
        } else if answers[1] {
            Probe::Count(2)
        } else if n == 2 {
            Probe::Look(0)
        } else if answers[2] {
            Probe::Count(1)
        } else {
            Probe::Count(0)
        }
    } else {
        if n == 1 {
            Probe::Look(4)
        } else if n == 2 {
            if answers[1] {
                Probe::Look(5)
            } else {
                Probe::Look(3)
            }
        } else if answers[1] {
            if answers[2] {
                Probe::Count(6)
            } else {
                Probe::Count(5)
            }
        } else {
            if answers[2] {
                Probe::Count(4)
            } else {
                Probe::Count(3)
            }
        }
    }
}

/// The answers agree with the first `count` nodes being active: each is that
/// for the node that was to be looked at.
pub open spec fn answers_for(answers: Seq<bool>, count: int) -> bool {
    forall|i: int|
        0 <= i < answers.len() ==> (next_probe(answers.take(i)) matches Probe::Look(node)
            && #[trigger] answers[i] == (node < count))
}

/// The search finds how many nodes are active, and it looks at three at most.
pub proof fn search_finds_count(answers: Seq<bool>, count: int)
    requires
        0 <= count <= 6,
        answers_for(answers, count),
    ensures
        answers.len() <= 3,
        match next_probe(answers) {
            Probe::Look(node) => node < 6 && answers.len() < 3,
            Probe::Count(n) => n == count,
        },
{
    if answers.len() > 0 {
        assert(answers.take(0) =~= Seq::<bool>::empty());
        assert(answers[0] == (2 < count));
    }
    if answers.len() > 1 {
        assert(answers.take(1)[0] == answers[0]);
        assert(next_probe(answers.take(1)) is Look);
        assert(answers[1] == (next_probe(answers.take(1))->Look_0 < count));
    }
    if answers.len() > 2 {
        assert(answers.take(2)[0] == answers[0] && answers.take(2)[1] == answers[1]);
        assert(answers.take(2).len() == 2);
        assert(answers[2] == (next_probe(answers.take(2))->Look_0 < count));
        assert(next_probe(answers.take(2)) is Look);
    }
    if answers.len() > 3 {
        assert(answers.take(3)[0] == answers[0] && answers.take(3)[1] == answers[1]
            && answers.take(3)[2] == answers[2]);
        assert(answers.take(3).len() == 3);
        let last = answers[3];
        assert(last == (next_probe(answers.take(3))->Look_0 < count));
        assert(next_probe(answers.take(3)) is Look);
    }
}

/// The node that is looked at is active, by the text beside it.
pub fn is_activated(text: &str) -> (yes: bool)
    ensures
        yes == crate::text::occurs_in(text@, "已激活"@),
{
    has_text(text, "已激活")
}

/// How long to wait for the text of a node: longer for the first one.
pub fn node_delay(first: bool, tab_delay: u64) -> (ms: u64)
    requires
        tab_delay <= 0x1000_0000_0000_0000,
    ensures
        ms == delay_at_node(first, tab_delay as int),
{
    if first {
        tab_delay * 3 / 4
    } else {
        tab_delay / 2
    }
}

/// How the constellation is found.
#[derive(Debug, Clone, Copy, PartialEq, Eq, Structural)]
pub enum ConstellationStep {
    /// By the brightness of the nodes.
    ByPixels,
    /// By looking at single nodes.
    BySearch,
    /// It is known.
    Known(i32),
}

/// The list has the name.
pub open spec fn listed(list: Seq<String>, name: Seq<char>) -> bool {
    exists|i: int| 0 <= i < list.len() && (#[trigger] list[i])@ == name
}

/// Whether the list has the name.
pub fn is_listed(list: &Vec<String>, name: &str) -> (yes: bool)
    ensures
        yes == listed(list@, name@),
{
    let mut i: usize = 0;
    while i < list.len()
        invariant
            i <= list@.len(),
            forall|k: int| 0 <= k < i ==> (#[trigger] list@[k])@ != name@,
        decreases list@.len() - i,
    {
        if same_text(list[i].as_str(), name) {
            return true;
        }
        i = i + 1;
    }
    false
}

/// How the constellation of a character with or without one is found at first.
pub open spec fn first_look(has_none: bool) -> ConstellationStep {
    if has_none {
        ConstellationStep::Known(0)
    } else {
        ConstellationStep::ByPixels
    }
}

/// How the constellation is found at first: some characters have none.
pub fn first_step(name: &str, without: &Vec<String>) -> (step: ConstellationStep)
    ensures
        step == first_look(listed(without@, name@)),
{
    if is_listed(without, name) {
        ConstellationStep::Known(0)
    } else {
        ConstellationStep::ByPixels
    }
}

/// What follows from the number of nodes that are bright from the first one on,
/// and from whether no other one is.
pub open spec fn second_look(count: i32, consistent: bool) -> ConstellationStep {
    if consistent {
        ConstellationStep::Known(count)
    } else {
        ConstellationStep::BySearch
    }
}

/// What follows from the brightness of the nodes: the count where all active
/// nodes come first, else the search.
pub fn after_pixels(seen: (i32, bool)) -> (step: ConstellationStep)
    ensures
        step == second_look(seen.0, seen.1),
{
    if seen.1 {
        ConstellationStep::Known(seen.0)
    } else {
        ConstellationStep::BySearch
    }
}

/// A character without constellations is known to have none; else the nodes are
/// counted where the bright ones come first, and searched for where they do not.
pub proof fn constellations_are_counted_or_searched(count: i32)
    ensures
        first_look(true) == ConstellationStep::Known(0),
        first_look(false) is ByPixels,
        second_look(count, true) == ConstellationStep::Known(count),
        second_look(count, false) is BySearch,
{
}

/// How long a node is waited for.
pub open spec fn delay_at_node(first: bool, tab_delay: int) -> int {
    if first {
        tab_delay * 3 / 4
    } else {
        tab_delay / 2
    }
}

/// The first node is waited for three quarters of the time for a tab, each other one
/// half of it.
pub proof fn later_nodes_are_faster(tab_delay: int)
    requires
        0 <= tab_delay,
    ensures
        4 * delay_at_node(true, tab_delay) <= 3 * tab_delay < 4 * delay_at_node(true, tab_delay)
            + 4,
        2 * delay_at_node(false, tab_delay) <= tab_delay < 2 * delay_at_node(false, tab_delay) + 2,
{
}

} // verus!
