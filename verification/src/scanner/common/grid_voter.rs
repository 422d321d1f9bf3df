//! Voting on the icons of a backpack page.
//!
//! Detection passes run when the items 0, 13 and 26 of a page are shown. Each
//! pass reads the icons of every item of the page, and the majority counts.
//! Two passes can disagree, so items that arrive after two of them wait for
//! the third.
use vstd::prelude::*;

verus! {

/// The items of a page.
pub const ITEMS_PER_PAGE: usize = 40;

/// The items of a page at which the second and the third pass run.
pub const SECOND_PASS: usize = 13;
pub const THIRD_PASS: usize = 26;

/// The icons of an item.
#[derive(Debug, Clone, Copy, PartialEq, Eq, Structural)]
pub struct GridIconResult {
    pub lock: bool,
    pub astral: bool,
    pub elixir: bool,
}

/// An item whose icons are settled.
#[derive(Debug)]
pub struct ReadyItem<I, T> {
    pub idx: usize,
    pub image: I,
    /// The icons, where the page has them.
    pub metadata: Option<GridIconResult>,
    pub payload: T,
}

/// An item that waits for its icons to settle.
pub struct Deferred<I, T> {
    pub idx: usize,
    pub image: I,
    pub payload: T,
}

/// What is known of a page.
struct PageState<I, T> {
    page_start: usize,
    page_items: usize,
    passes: Vec<Vec<GridIconResult>>,
    deferred: Vec<Deferred<I, T>>,
}

/// Takes in items page by page and gives them out with their icons.
pub struct PagedGridVoter<I, T> {
    total: usize,
    state: Option<PageState<I, T>>,
}

/// How many of the passes saw a cell.
pub open spec fn seen_by(passes: Seq<Seq<GridIconResult>>, cell: int) -> int
    decreases passes.len(),
{
    if passes.len() == 0 {
        0
    } else {
        seen_by(passes.drop_last(), cell) + if cell < passes.last().len() {
            1int
        } else {
            0int
        }
    }
}

/// Which of the three icons a count is of.
pub enum Icon {
    Lock,
    Astral,
    Elixir,
}

/// A pass saw the icon on a cell.
pub open spec fn saw(pass: Seq<GridIconResult>, cell: int, icon: Icon) -> bool {
    cell < pass.len() && match icon {
        Icon::Lock => pass[cell].lock,
        Icon::Astral => pass[cell].astral,
        Icon::Elixir => pass[cell].elixir,
    }
}

/// How many of the passes saw an icon on a cell.
pub open spec fn votes(passes: Seq<Seq<GridIconResult>>, cell: int, icon: Icon) -> int
    decreases passes.len(),
{
    if passes.len() == 0 {
        0
    } else {
        votes(passes.drop_last(), cell, icon) + if saw(passes.last(), cell, icon) {
            1int
        } else {
            0int
        }
    }
}

/// What the majority of the passes that saw a cell says of it; nothing for
/// cells that are not on the page or that no pass saw.
pub open spec fn majority(
    page_start: int,
    page_items: int,
    passes: Seq<Seq<GridIconResult>>,
    idx: int,
) -> Option<GridIconResult> {
    let cell = idx - page_start;
    let seen = seen_by(passes, cell);
    if 0 <= cell < page_items && seen > 0 {
        Some(
            GridIconResult {
                lock: votes(passes, cell, Icon::Lock) * 2 > seen,
                astral: votes(passes, cell, Icon::Astral) * 2 > seen,
                elixir: votes(passes, cell, Icon::Elixir) * 2 > seen,
            },
        )
    } else {
        None
    }
}

/// The first item of the page of an item.
pub open spec fn start_of_page(idx: int) -> int {
    idx / ITEMS_PER_PAGE as int * ITEMS_PER_PAGE
}

/// How many items the page of an item has.
pub open spec fn items_of_page(total: int, idx: int) -> int {
    if total - start_of_page(idx) < ITEMS_PER_PAGE {
        total - start_of_page(idx)
    } else {
        ITEMS_PER_PAGE as int
    }
}

/// A pass runs at this item of a page, so many having run.
pub open spec fn pass_due(rel: int, passes: int) -> bool {
    (rel == 0 && passes == 0) || (rel == SECOND_PASS && passes == 1) || (rel == THIRD_PASS
        && passes == 2)
}

/// The passes of a vector of vectors.
pub open spec fn passes_of(v: Seq<Vec<GridIconResult>>) -> Seq<Seq<GridIconResult>> {
    v.map_values(|p: Vec<GridIconResult>| p@)
}

/// An item that waits, with the icons that settle it.
pub open spec fn settled<I, T>(d: Deferred<I, T>, metadata: Option<GridIconResult>) -> ReadyItem<
    I,
    T,
> {
    ReadyItem { idx: d.idx, image: d.image, metadata, payload: d.payload }
}

/// What is given out without its icons.
pub open spec fn without_icons<I, T>(r: ReadyItem<I, T>) -> Deferred<I, T> {
    Deferred { idx: r.idx, image: r.image, payload: r.payload }
}

/// Each item is given out as it came in, with the icons that the passes say.
pub open spec fn given_out<I, T>(
    ready: Seq<ReadyItem<I, T>>,
    items: Seq<Deferred<I, T>>,
    page_start: int,
    page_items: int,
    passes: Seq<Seq<GridIconResult>>,
) -> bool {
    ready.len() == items.len() && forall|k: int|
        0 <= k < items.len() ==> #[trigger] ready[k] == settled(
            items[k],
            majority(page_start, page_items, passes, items[k].idx as int),
        )
}

impl<I, T> PageState<I, T> {
    spec fn passes(&self) -> Seq<Seq<GridIconResult>> {
        passes_of(self.passes@)
    }

    /// What the passes say of an item.
    fn icons(&self, idx: usize) -> (icons: Option<GridIconResult>)
        requires
            self.passes@.len() <= 3,
        ensures
            icons == majority(
                self.page_start as int,
                self.page_items as int,
                self.passes(),
                idx as int,
            ),
    {
        if idx < self.page_start || idx - self.page_start >= self.page_items {
            return None;
        }
        let cell: usize = idx - self.page_start;
        let mut seen: usize = 0;
        let mut lock: usize = 0;
        let mut astral: usize = 0;
        let mut elixir: usize = 0;
        let mut i: usize = 0;
        let ghost all = self.passes();
        while i < self.passes.len()
            invariant
                i <= self.passes@.len() <= 3,
                all == self.passes(),
                seen <= i,
                lock <= seen,
                astral <= seen,
                elixir <= seen,
                seen == seen_by(all.take(i as int), cell as int),
                lock == votes(all.take(i as int), cell as int, Icon::Lock),
                astral == votes(all.take(i as int), cell as int, Icon::Astral),
                elixir == votes(all.take(i as int), cell as int, Icon::Elixir),
            decreases self.passes@.len() - i,
        {
            proof {
                assert(all.take(i + 1).drop_last() == all.take(i as int));
                assert(all.take(i + 1).last() == self.passes@[i as int]@);
            }
            if cell < self.passes[i].len() {
                let r = self.passes[i][cell];
                seen = seen + 1;
                if r.lock {
                    lock = lock + 1;
                }
                if r.astral {
                    astral = astral + 1;
                }
                if r.elixir {
                    elixir = elixir + 1;
                }
            }
            i = i + 1;
        }
        assert(all.take(i as int) == all);
        if seen == 0 {
            None
        } else {
            Some(
                GridIconResult {
                    lock: lock * 2 > seen,
                    astral: astral * 2 > seen,
                    elixir: elixir * 2 > seen,
                },
            )
        }
    }

    /// Gives out all that waits.
    fn flush(&mut self) -> (ready: Vec<ReadyItem<I, T>>)
        requires
            old(self).passes@.len() <= 3,
        ensures
            given_out(
                ready@,
                old(self).deferred@,
                old(self).page_start as int,
                old(self).page_items as int,
                old(self).passes(),
            ),
            final(self).deferred@ == Seq::<Deferred<I, T>>::empty(),
            final(self).page_start == old(self).page_start,
            final(self).page_items == old(self).page_items,
            final(self).passes == old(self).passes,
    {
        let ghost first = *self;
        let mut ready: Vec<ReadyItem<I, T>> = Vec::new();
        while self.deferred.len() > 0
            invariant
                first == *old(self),
                first.passes@.len() <= 3,
                self.page_start == first.page_start,
                self.page_items == first.page_items,
                self.passes == first.passes,
                ready@.len() <= first.deferred@.len(),
                self.deferred@ == first.deferred@.skip(ready@.len() as int),
                forall|k: int|
                    0 <= k < ready@.len() ==> #[trigger] ready@[k] == settled(
                        first.deferred@[k],
                        majority(
                            first.page_start as int,
                            first.page_items as int,
                            first.passes(),
                            first.deferred@[k].idx as int,
                        ),
                    ),
            decreases self.deferred@.len(),
        {
            let ghost n = ready@.len();
            let d = self.deferred.remove(0);
            assert(d == first.deferred@[n as int]);
            let metadata = self.icons(d.idx);
            ready.push(ReadyItem { idx: d.idx, image: d.image, metadata, payload: d.payload });
            assert(self.deferred@ =~= first.deferred@.skip(n as int + 1));
        }
        ready
    }
}

impl<I, T> PagedGridVoter<I, T> {
    /// The page is started.
    pub closed spec fn on_page(&self) -> bool {
        self.state is Some
    }

    /// The passes over the page.
    pub closed spec fn passes(&self) -> Seq<Seq<GridIconResult>> {
        match self.state {
            Some(s) => s.passes(),
            None => Seq::empty(),
        }
    }

    /// The items that wait for their icons to settle.
    pub closed spec fn waiting(&self) -> Seq<Deferred<I, T>> {
        match self.state {
            Some(s) => s.deferred@,
            None => Seq::empty(),
        }
    }

    /// The first item of the page.
    pub closed spec fn page_start(&self) -> int {
        match self.state {
            Some(s) => s.page_start as int,
            None => 0,
        }
    }

    /// How many items the page has.
    pub closed spec fn page_items(&self) -> int {
        match self.state {
            Some(s) => s.page_items as int,
            None => 0,
        }
    }

    /// How many items there are.
    pub closed spec fn total(&self) -> int {
        self.total as int
    }

    /// What every voter keeps to: there are at most three passes, and items
    /// wait only after the second.
    pub closed spec fn valid(&self) -> bool {
        match self.state {
            Some(s) => s.passes@.len() <= 3 && (s.deferred@.len() > 0 ==> s.passes@.len() == 2),
            None => true,
        }
    }

    /// A voter for so many items.
    pub fn new(total: usize) -> (v: Self)
        ensures
            v.valid(),
            v.total() == total,
            !v.on_page(),
            v.waiting() == Seq::<Deferred<I, T>>::empty(),
            v.passes() == Seq::<Seq<GridIconResult>>::empty(),
    {
        PagedGridVoter { total, state: None }
    }

    /// Forgets the page, after the next one was scrolled to.
    pub fn reset_page(&mut self)
        ensures
            final(self).valid(),
            final(self).total() == old(self).total(),
            !final(self).on_page(),
            final(self).waiting() == Seq::<Deferred<I, T>>::empty(),
            final(self).passes() == Seq::<Seq<GridIconResult>>::empty(),
    {
        self.state = None;
    }

    /// Whether a detection pass is to run when an item is shown.
    pub fn wants_pass(&self, idx: usize) -> (yes: bool)
        requires
            self.valid(),
        ensures
            yes == pass_due(idx - start_of_page(idx as int), self.passes().len() as int),
    {
        let rel: usize = idx - idx / ITEMS_PER_PAGE * ITEMS_PER_PAGE;
        let passes: usize = match &self.state {
            Some(s) => s.passes.len(),
            None => 0,
        };
        (rel == 0 && passes == 0) || (rel == SECOND_PASS && passes == 1) || (rel == THIRD_PASS
            && passes == 2)
    }

    /// Takes in an item and gives out all items whose icons are settled.
    /// `pass` is what a detection pass reads on the image of the item; it counts
    /// where a pass is due.
    pub fn record(&mut self, idx: usize, image: I, payload: T, pass: Vec<GridIconResult>) -> (ready:
        Vec<ReadyItem<I, T>>)
        requires
            old(self).valid(),
            start_of_page(idx as int) <= old(self).total(),
        ensures
            final(self).valid(),
            final(self).total() == old(self).total(),
            final(self).on_page(),
            ({
                let rel = idx - start_of_page(idx as int);
                let fresh = !old(self).on_page();
                let due = pass_due(rel, old(self).passes().len() as int);
                let item = Deferred { idx, image, payload };
                let passes = final(self).passes();
                &&& final(self).page_start() == if fresh {
                    start_of_page(idx as int)
                } else {
                    old(self).page_start()
                }
                &&& final(self).page_items() == if fresh {
                    items_of_page(old(self).total(), idx as int)
                } else {
                    old(self).page_items()
                }
                &&& passes == if due {
                    old(self).passes().push(pass@)
                } else {
                    old(self).passes()
                }
                &&& if due && passes.len() == 3 {
                    // the third pass settles all that waits
                    &&& given_out(
                        ready@,
                        old(self).waiting().push(item),
                        final(self).page_start(),
                        final(self).page_items(),
                        passes,
                    )
                    &&& final(self).waiting() == Seq::<Deferred<I, T>>::empty()
                } else if passes.len() == 2 && rel >= SECOND_PASS {
                    // two passes settle nothing
                    &&& ready@.len() == 0
                    &&& final(self).waiting() == old(self).waiting().push(item)
                } else {
                    &&& given_out(
                        ready@,
                        seq![item],
                        final(self).page_start(),
                        final(self).page_items(),
                        passes,
                    )
                    &&& final(self).waiting() == old(self).waiting()
                }
                // from the second pass on nothing is given out on two passes
                &&& rel >= SECOND_PASS && ready@.len() > 0 ==> passes.len() != 2
            }),
    {
        let page_start: usize = idx / ITEMS_PER_PAGE * ITEMS_PER_PAGE;
        let rel: usize = idx - page_start;
        let left: usize = self.total - page_start;
        let page_items: usize = if left < ITEMS_PER_PAGE {
            left
        } else {
            ITEMS_PER_PAGE
        };
        let mut taken: Option<PageState<I, T>> = None;
        std::mem::swap(&mut taken, &mut self.state);
        let mut state = match taken {
            Some(s) => s,
            None => PageState { page_start, page_items, passes: Vec::new(), deferred: Vec::new() },
        };
        let ghost first = state;
        assert(first.passes() =~= old(self).passes());
        assert(first.deferred@ =~= old(self).waiting());
        let n: usize = state.passes.len();
        let due = (rel == 0 && n == 0) || (rel == SECOND_PASS && n == 1) || (rel == THIRD_PASS && n
            == 2);
        if due {
            state.passes.push(pass);
            assert(state.passes() =~= first.passes().push(pass@));
        }
        let mut ready: Vec<ReadyItem<I, T>> = Vec::new();
        if due && n == 2 {
            ready = state.flush();
        }
        let ghost flushed = ready@;
        if state.passes.len() == 2 && rel >= SECOND_PASS {
            state.deferred.push(Deferred { idx, image, payload });
        } else {
            let metadata = state.icons(idx);
            ready.push(ReadyItem { idx, image, metadata, payload });
        }
        self.state = Some(state);
        ready
    }

    /// Gives out all that waits when the scan stops at an item that is not kept.
    /// `pass` is what a detection pass reads on the image of that item; it
    /// counts as the third pass where two have run.
    pub fn early_stop_flush(&mut self, pass: Vec<GridIconResult>) -> (ready: Vec<ReadyItem<I, T>>)
        requires
            old(self).valid(),
        ensures
            final(self).valid(),
            final(self).total() == old(self).total(),
            final(self).on_page() == old(self).on_page(),
            final(self).page_start() == old(self).page_start(),
            final(self).page_items() == old(self).page_items(),
            final(self).passes() == if old(self).passes().len() == 2 {
                old(self).passes().push(pass@)
            } else {
                old(self).passes()
            },
            given_out(
                ready@,
                old(self).waiting(),
                old(self).page_start(),
                old(self).page_items(),
                final(self).passes(),
            ),
            final(self).waiting() == Seq::<Deferred<I, T>>::empty(),
            ready@.len() > 0 ==> final(self).passes().len() == 3,
    {
        let mut taken: Option<PageState<I, T>> = None;
        std::mem::swap(&mut taken, &mut self.state);
        match taken {
            Some(s) => {
                let mut state = s;
                let ghost first = state;
                if state.passes.len() == 2 {
                    state.passes.push(pass);
                    assert(state.passes() =~= first.passes().push(pass@));
                }
                let ready = state.flush();
                self.state = Some(state);
                ready
            },
            None => Vec::new(),
        }
    }

    /// The item whose image settles what waits at the end of the scan: the last
    /// one that waits.
    pub fn last_waiting(&self) -> (d: Option<&Deferred<I, T>>)
        ensures
            match d {
                Some(d) => self.waiting().len() > 0 && *d == self.waiting().last(),
                None => self.waiting().len() == 0,
            },
    {
        match &self.state {
            Some(s) => {
                let n: usize = s.deferred.len();
                if n > 0 {
                    Some(&s.deferred[n - 1])
                } else {
                    None
                }
            },
            None => None,
        }
    }

    /// Gives out all that waits at the end of the scan. `pass` is what a
    /// detection pass reads on the image of the last item that waits; it counts
    /// as the third pass where two have run and something waits.
    pub fn final_flush(&mut self, pass: Vec<GridIconResult>) -> (ready: Vec<ReadyItem<I, T>>)
        requires
            old(self).valid(),
        ensures
            final(self).valid(),
            final(self).total() == old(self).total(),
            final(self).on_page() == old(self).on_page(),
            final(self).page_start() == old(self).page_start(),
            final(self).page_items() == old(self).page_items(),
            final(self).passes() == if old(self).waiting().len() > 0 {
                old(self).passes().push(pass@)
            } else {
                old(self).passes()
            },
            given_out(
                ready@,
                old(self).waiting(),
                old(self).page_start(),
                old(self).page_items(),
                final(self).passes(),
            ),
            final(self).waiting() == Seq::<Deferred<I, T>>::empty(),
            ready@.len() > 0 ==> final(self).passes().len() == 3,
    {
        let mut taken: Option<PageState<I, T>> = None;
        std::mem::swap(&mut taken, &mut self.state);
        match taken {
            Some(s) => {
                let mut state = s;
                let ghost first = state;
                if state.passes.len() == 2 && state.deferred.len() > 0 {
                    state.passes.push(pass);
                    assert(state.passes() =~= first.passes().push(pass@));
                }
                let ready = state.flush();
                self.state = Some(state);
                ready
            },
            None => Vec::new(),
        }
    }
}

/// What was given out, without the icons.
pub open spec fn items_of<I, T>(ready: Seq<ReadyItem<I, T>>) -> Seq<Deferred<I, T>> {
    ready.map_values(|r: ReadyItem<I, T>| without_icons(r))
}

/// What is given out are the items that came in, none lost, none twice, in
/// their order.
pub proof fn given_out_keeps_items<I, T>(
    ready: Seq<ReadyItem<I, T>>,
    items: Seq<Deferred<I, T>>,
    page_start: int,
    page_items: int,
    passes: Seq<Seq<GridIconResult>>,
)
    requires
        given_out(ready, items, page_start, page_items, passes),
    ensures
        items_of(ready) == items,
{
    assert forall|k: int| 0 <= k < items.len() implies items_of(ready)[k] == items[k] by {
        assert(ready[k] == settled(
            items[k],
            majority(page_start, page_items, passes, items[k].idx as int),
        ));
    }
    assert(items_of(ready) =~= items);
}

proof fn lemma_votes_agree(passes: Seq<Seq<GridIconResult>>, cell: int, icon: Icon, yes: bool)
    requires
        forall|k: int|
            0 <= k < passes.len() ==> cell < (#[trigger] passes[k]).len() && saw(
                passes[k],
                cell,
                icon,
            ) == yes,
    ensures
        seen_by(passes, cell) == passes.len(),
        votes(passes, cell, icon) == if yes {
            passes.len() as int
        } else {
            0
        },
    decreases passes.len(),
{
    if passes.len() > 0 {
        let init = passes.drop_last();
        assert forall|k: int| 0 <= k < init.len() implies cell < (#[trigger] init[k]).len() && saw(
            init[k],
            cell,
            icon,
        ) == yes by {
            assert(init[k] == passes[k]);
        }
        lemma_votes_agree(init, cell, icon, yes);
        assert(passes[passes.len() - 1] == passes.last());
    }
}

/// What one or three passes say alike of a cell is what counts.
pub proof fn unanimous_vote_counts(
    page_start: int,
    page_items: int,
    passes: Seq<Seq<GridIconResult>>,
    idx: int,
    icons: GridIconResult,
)
    requires
        passes.len() == 1 || passes.len() == 3,
        0 <= idx - page_start < page_items,
        forall|k: int|
            0 <= k < passes.len() ==> idx - page_start < (#[trigger] passes[k]).len()
                && passes[k][idx - page_start] == icons,
    ensures
        majority(page_start, page_items, passes, idx) == Some(icons),
{
    lemma_votes_agree(passes, idx - page_start, Icon::Lock, icons.lock);
    lemma_votes_agree(passes, idx - page_start, Icon::Astral, icons.astral);
    lemma_votes_agree(passes, idx - page_start, Icon::Elixir, icons.elixir);
}

/// The passes run at the first item of a page, at item 13 and at item 26, each
/// after the one before, and a page has forty items or what is left.
pub proof fn three_passes_run_on_a_page(rel: int, passes: int, total: int, idx: int)
    requires
        0 <= idx < total,
    ensures
        pass_due(rel, 0) <==> rel == 0,
        pass_due(rel, 1) <==> rel == 13,
        pass_due(rel, 2) <==> rel == 26,
        passes >= 3 ==> !pass_due(rel, passes),
        start_of_page(idx) % 40 == 0,
        start_of_page(idx) <= idx < start_of_page(idx) + 40,
        1 <= items_of_page(total, idx) <= 40,
        start_of_page(idx) + items_of_page(total, idx) <= total,
        items_of_page(total, idx) < 40 ==> start_of_page(idx) + items_of_page(total, idx) == total,
{
}

/// One pass decides alone, and of three passes two decide: an icon counts where at
/// least two of them saw it on the item.
pub proof fn two_of_three_passes_decide(
    page_start: int,
    page_items: int,
    a: Seq<GridIconResult>,
    b: Seq<GridIconResult>,
    c: Seq<GridIconResult>,
    idx: int,
)
    requires
        0 <= idx - page_start < page_items,
        idx - page_start < a.len(),
        idx - page_start < b.len(),
        idx - page_start < c.len(),
    ensures
        ({
            let cell = idx - page_start;
            let (x, y, z) = (a[cell], b[cell], c[cell]);
            &&& majority(page_start, page_items, seq![a], idx) == Some(x)
            &&& majority(page_start, page_items, seq![a, b, c], idx) == Some(
                GridIconResult {
                    lock: (x.lock && y.lock) || (x.lock && z.lock) || (y.lock && z.lock),
                    astral: (x.astral && y.astral) || (x.astral && z.astral) || (y.astral
                        && z.astral),
                    elixir: (x.elixir && y.elixir) || (x.elixir && z.elixir) || (y.elixir
                        && z.elixir),
                },
            )
        }),
{
    reveal_with_fuel(seen_by, 4);
    reveal_with_fuel(votes, 4);
    let none = Seq::<Seq<GridIconResult>>::empty();
    assert(seq![a].drop_last() =~= none);
    assert(seq![a, b, c].drop_last() =~= seq![a, b]);
    assert(seq![a, b].drop_last() =~= seq![a]);
}

/// Outside its page and without any pass nothing is known of an item.
pub proof fn other_pages_are_not_voted_on(
    page_start: int,
    page_items: int,
    passes: Seq<Seq<GridIconResult>>,
    idx: int,
)
    ensures
        idx < page_start || idx >= page_start + page_items || passes.len() == 0 ==> majority(
            page_start,
            page_items,
            passes,
            idx,
        ) is None,
{
}

} // verus!
