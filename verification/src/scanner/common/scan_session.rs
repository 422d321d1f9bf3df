//! The flow of a backpack scan: from the items of the grid to the work that is
//! handed out.
use crate::scanner::common::backpack_scanner::ScanAction;
use crate::scanner::common::grid_voter::{
    given_out, items_of_page, pass_due, start_of_page, Deferred, GridIconResult, PagedGridVoter,
    ReadyItem, SECOND_PASS,
};
use vstd::prelude::*;

verus! {

/// An item that is ready for recognition.
pub struct WorkItem<I> {
    /// Its place among the scanned items.
    pub index: usize,
    pub image: I,
    /// The icons that the grid shows, where they are known.
    pub metadata: Option<GridIconResult>,
}

/// How many items of the backpack are scanned: all, or so many from the first
/// one on.
pub open spec fn items_to_scan(count: int, max_count: int, start_at: int) -> int {
    if max_count > 0 && max_count + start_at < count {
        max_count + start_at
    } else {
        count
    }
}

/// How many items of the backpack are scanned.
pub fn capped_total(count: usize, max_count: usize, start_at: usize) -> (total: usize)
    requires
        max_count + start_at <= usize::MAX,
    ensures
        total == items_to_scan(count as int, max_count as int, start_at as int),
{
    if max_count > 0 && max_count + start_at < count {
        max_count + start_at
    } else {
        count
    }
}

/// The work for items that are ready; places are counted from the first scanned
/// item.
pub open spec fn work_for<I>(ready: Seq<ReadyItem<I, ()>>, start_at: int) -> Seq<WorkItem<I>> {
    Seq::new(
        ready.len(),
        |i: int|
            WorkItem {
                index: (ready[i].idx - start_at) as usize,
                image: ready[i].image,
                metadata: ready[i].metadata,
            },
    )
}

/// A scan whose lock and astral marks are voted on page by page.
pub struct GridSession<I> {
    voter: PagedGridVoter<I, ()>,
    start_at: usize,
}

/// What to do after an item.
pub struct ItemStep<I> {
    /// The work to hand out.
    pub work: Vec<WorkItem<I>>,
    pub action: ScanAction,
}

impl<I> GridSession<I> {
    /// The votes and the items that wait for them.
    pub closed spec fn voter(&self) -> PagedGridVoter<I, ()> {
        self.voter
    }

    /// The first scanned item.
    pub closed spec fn start_at(&self) -> int {
        self.start_at as int
    }

    /// No item that waits is before the first scanned one.
    pub open spec fn valid(&self) -> bool {
        self.voter().valid() && forall|i: int|
            0 <= i < self.voter().waiting().len() ==> self.start_at() <= (
            #[trigger] self.voter().waiting()[i]).idx
    }

    /// A scan of so many items from the first one on.
    pub fn new(total: usize, start_at: usize) -> (s: Self)
        ensures
            s.valid(),
            s.start_at() == start_at,
            s.voter().total() == total,
            !s.voter().on_page(),
            s.voter().waiting().len() == 0,
            s.voter().passes().len() == 0,
    {
        GridSession { voter: PagedGridVoter::new(total), start_at }
    }

    /// The grid was scrolled to the next page.
    pub fn page_scrolled(&mut self)
        ensures
            final(self).valid(),
            final(self).start_at() == old(self).start_at(),
            final(self).voter().total() == old(self).voter().total(),
            !final(self).voter().on_page(),
            final(self).voter().waiting().len() == 0,
            final(self).voter().passes().len() == 0,
    {
        self.voter.reset_page();
    }

    /// Whether the icons of the page have to be looked at with this item.
    pub fn wants_pass(&self, idx: usize) -> (yes: bool)
        requires
            self.valid(),
        ensures
            yes == pass_due(
                idx - start_of_page(idx as int),
                self.voter().passes().len() as int,
            ),
    {
        self.voter.wants_pass(idx)
    }

    /// The picture with which what waits is settled at the end: that of the last
    /// item that waits.
    pub fn last_waiting(&self) -> (image: Option<&I>)
        ensures
            match image {
                Some(image) => self.voter().waiting().len() > 0 && *image
                    == self.voter().waiting().last().image,
                None => self.voter().waiting().len() == 0,
            },
    {
        match self.voter.last_waiting() {
            Some(d) => Some(&d.image),
            None => None,
        }
    }

    fn to_work(ready: Vec<ReadyItem<I, ()>>, start_at: usize) -> (work: Vec<WorkItem<I>>)
        requires
            forall|i: int| 0 <= i < ready@.len() ==> start_at <= (#[trigger] ready@[i]).idx,
        ensures
            work@ == work_for(ready@, start_at as int),
    {
        let ghost all = ready@;
        let mut ready = ready;
        let mut back: Vec<WorkItem<I>> = Vec::new();
        while ready.len() > 0
            invariant
                all.len() == ready@.len() + back@.len(),
                ready@ == all.take(ready@.len() as int),
                forall|i: int| 0 <= i < all.len() ==> start_at <= (#[trigger] all[i]).idx,
                forall|i: int|
                    0 <= i < back@.len() ==> #[trigger] back@[i] == work_for(
                        all,
                        start_at as int,
                    )[all.len() - 1 - i],
            decreases ready@.len(),
        {
            let ghost before = ready@;
            let item = ready.pop().unwrap();
            assert(item == all[before.len() - 1]);
            assert(ready@ =~= all.take(ready@.len() as int));
            back.push(
                WorkItem {
                    index: item.idx - start_at,
                    image: item.image,
                    metadata: item.metadata,
                },
            );
        }
        let mut work: Vec<WorkItem<I>> = Vec::new();
        while back.len() > 0
            invariant
                all.len() == work@.len() + back@.len(),
                forall|i: int|
                    0 <= i < back@.len() ==> #[trigger] back@[i] == work_for(
                        all,
                        start_at as int,
                    )[all.len() - 1 - i],
                work@ == work_for(all, start_at as int).take(work@.len() as int),
            decreases back@.len(),
        {
            let ghost done = work@;
            let item = back.pop().unwrap();
            work.push(item);
            assert(work@ =~= work_for(all, start_at as int).take(work@.len() as int));
        }
        assert(work@ =~= work_for(all, start_at as int));
        work
    }

    /// An item of the grid was shown. A worker that gave up stops the scan, and
    /// so does an item below the lowest rarity, after what waits has been
    /// settled with its picture; else the item is recorded.
    pub fn item(
        &mut self,
        idx: usize,
        image: I,
        below_min: bool,
        worker_stopped: bool,
        pass: Vec<GridIconResult>,
    ) -> (step: ItemStep<I>)
        requires
            old(self).valid(),
            old(self).start_at() <= idx,
            start_of_page(idx as int) <= old(self).voter().total(),
        ensures
            final(self).valid(),
            final(self).start_at() == old(self).start_at(),
            final(self).voter().total() == old(self).voter().total(),
            step.action == if worker_stopped || below_min {
                ScanAction::Stop
            } else {
                ScanAction::Continue
            },
            worker_stopped ==> step.work@.len() == 0 && *final(self) == *old(self),
            !worker_stopped && below_min ==> exists|ready: Seq<ReadyItem<I, ()>>|
                {
                    &&& step.work@ == #[trigger] work_for(ready, old(self).start_at())
                    &&& given_out(
                        ready,
                        old(self).voter().waiting(),
                        old(self).voter().page_start(),
                        old(self).voter().page_items(),
                        final(self).voter().passes(),
                    )
                    &&& final(self).voter().waiting().len() == 0
                    &&& same_page(old(self).voter(), final(self).voter())
                    &&& final(self).voter().passes() == if old(self).voter().passes().len() == 2 {
                        old(self).voter().passes().push(pass@)
                    } else {
                        old(self).voter().passes()
                    }
                },
            !worker_stopped && !below_min ==> exists|ready: Seq<ReadyItem<I, ()>>|
                {
                    &&& step.work@ == #[trigger] work_for(ready, old(self).start_at())
                    &&& recorded(
                        old(self).voter(),
                        final(self).voter(),
                        Deferred { idx, image, payload: () },
                        pass@,
                        ready,
                    )
                },
    {
        let start_at: usize = self.start_at;
        if worker_stopped {
            return ItemStep { work: Vec::new(), action: ScanAction::Stop };
        }
        let ghost before = self.voter;
        if below_min {
            let ready = self.voter.early_stop_flush(pass);
            assert forall|i: int| 0 <= i < ready@.len() implies start_at <= (
            #[trigger] ready@[i]).idx by {
                assert(before.waiting()[i].idx == ready@[i].idx);
            }
            let ghost given = ready@;
            let work = Self::to_work(ready, start_at);
            assert(work@ == work_for(given, start_at as int));
            return ItemStep { work, action: ScanAction::Stop };
        }
        let ready = self.voter.record(idx, image, (), pass);
        let ghost given = ready@;
        let ghost item = Deferred { idx, image, payload: () };
        assert(recorded(before, self.voter, item, pass@, given));
        assert forall|i: int| 0 <= i < ready@.len() implies start_at <= (#[trigger] ready@[i]).idx by {
            let waiting = before.waiting();
            if ready@.len() == 1 && !(pass_due(
                idx - start_of_page(idx as int),
                before.passes().len() as int,
            ) && self.voter.passes().len() == 3) {
                assert(seq![item][i].idx == ready@[i].idx);
            } else {
                assert(waiting.push(item)[i].idx == ready@[i].idx);
                if i < waiting.len() {
                    assert(waiting[i].idx >= start_at);
                }
            }
        }
        let work = Self::to_work(ready, start_at);
        assert(work@ == work_for(given, start_at as int));
        ItemStep { work, action: ScanAction::Continue }
    }

    /// The scan of the grid has ended; what still waits is settled with a last
    /// look at the icons.
    pub fn finish(&mut self, pass: Vec<GridIconResult>) -> (work: Vec<WorkItem<I>>)
        requires
            old(self).valid(),
        ensures
            final(self).valid(),
            final(self).start_at() == old(self).start_at(),
            final(self).voter().total() == old(self).voter().total(),
            same_page(old(self).voter(), final(self).voter()),
            final(self).voter().passes() == if old(self).voter().waiting().len() > 0 {
                old(self).voter().passes().push(pass@)
            } else {
                old(self).voter().passes()
            },
            exists|ready: Seq<ReadyItem<I, ()>>|
                {
                    &&& work@ == #[trigger] work_for(ready, old(self).start_at())
                    &&& given_out(
                        ready,
                        old(self).voter().waiting(),
                        old(self).voter().page_start(),
                        old(self).voter().page_items(),
                        final(self).voter().passes(),
                    )
                },
            final(self).voter().waiting().len() == 0,
    {
        let start_at: usize = self.start_at;
        let ghost before = self.voter;
        let ready = self.voter.final_flush(pass);
        assert forall|i: int| 0 <= i < ready@.len() implies start_at <= (#[trigger] ready@[i]).idx by {
            assert(before.waiting()[i].idx == ready@[i].idx);
        }
        let ghost given = ready@;
        let work = Self::to_work(ready, start_at);
        assert(work@ == work_for(given, start_at as int));
        assert(work@ == work_for(given, old(self).start_at()) && given_out(
            given,
            old(self).voter().waiting(),
            old(self).voter().page_start(),
            old(self).voter().page_items(),
            self.voter().passes(),
        ));
        work
    }
}

/// The page did not change.
pub open spec fn same_page<I>(before: PagedGridVoter<I, ()>, after: PagedGridVoter<I, ()>) -> bool {
    &&& after.on_page() == before.on_page()
    &&& after.page_start() == before.page_start()
    &&& after.page_items() == before.page_items()
}

/// An item was recorded with the votes of its page: on the third look all that
/// waits is given out, between the second and the third the item waits, and
/// else it is given out alone.
pub open spec fn recorded<I>(
    before: PagedGridVoter<I, ()>,
    after: PagedGridVoter<I, ()>,
    item: Deferred<I, ()>,
    pass: Seq<GridIconResult>,
    ready: Seq<ReadyItem<I, ()>>,
) -> bool {
    let rel = item.idx - start_of_page(item.idx as int);
    let due = pass_due(rel, before.passes().len() as int);
    let passes = after.passes();
    let page_start = if before.on_page() {
        before.page_start()
    } else {
        start_of_page(item.idx as int)
    };
    let page_items = if before.on_page() {
        before.page_items()
    } else {
        items_of_page(before.total(), item.idx as int)
    };
    &&& after.on_page()
    &&& after.page_start() == page_start
    &&& after.page_items() == page_items
    &&& passes == if due {
        before.passes().push(pass)
    } else {
        before.passes()
    }
    &&& if due && passes.len() == 3 {
        given_out(ready, before.waiting().push(item), page_start, page_items, passes)
            && after.waiting().len() == 0
    } else if passes.len() == 2 && rel >= SECOND_PASS {
        ready.len() == 0 && after.waiting() == before.waiting().push(item)
    } else {
        given_out(ready, seq![item], page_start, page_items, passes) && after.waiting()
            == before.waiting()
    }
}

/// A greatest number of items counts from the first scanned one on; without one,
/// or where the backpack holds no more, all are scanned.
pub proof fn so_many_items_are_scanned(count: int, max_count: int, start_at: int)
    requires
        0 <= start_at <= count,
        0 <= max_count,
    ensures
        max_count == 0 ==> items_to_scan(count, max_count, start_at) == count,
        max_count > 0 ==> items_to_scan(count, max_count, start_at) - start_at == if max_count
            < count - start_at {
            max_count
        } else {
            count - start_at
        },
{
}

/// Work is numbered from the first scanned item on and keeps the order, the
/// pictures and the icons of the items.
pub proof fn work_is_numbered_from_the_start<I>(
    ready: Seq<ReadyItem<I, ()>>,
    start_at: int,
    i: int,
)
    requires
        0 <= i < ready.len(),
        0 <= start_at <= ready[i].idx,
    ensures
        work_for(ready, start_at).len() == ready.len(),
        work_for(ready, start_at)[i].index + start_at == ready[i].idx,
        work_for(ready, start_at)[i].image == ready[i].image,
        work_for(ready, start_at)[i].metadata == ready[i].metadata,
{
}

/// The first thirteen items of a page are given out at once; those after the
/// second pass wait; the item of the third pass gives out all that waited before
/// it, in their order, and every later one is given out at once.
pub proof fn items_wait_between_the_passes<I>(
    before: PagedGridVoter<I, ()>,
    after: PagedGridVoter<I, ()>,
    item: Deferred<I, ()>,
    pass: Seq<GridIconResult>,
    ready: Seq<ReadyItem<I, ()>>,
)
    requires
        recorded(before, after, item, pass, ready),
        before.passes().len() <= 3,
    ensures
        ({
            let rel = item.idx as int % 40;
            let n = before.passes().len();
            &&& rel < 13 ==> ready.len() == 1 && ready[0].idx == item.idx && after.waiting()
                == before.waiting()
            &&& rel == 13 && n == 1 ==> ready.len() == 0 && after.passes().len() == 2
            &&& 13 < rel < 26 && n == 2 ==> ready.len() == 0 && after.waiting()
                == before.waiting().push(item)
            &&& rel == 26 && n == 2 ==> {
                &&& after.passes().len() == 3
                &&& after.waiting().len() == 0
                &&& ready.len() == before.waiting().len() + 1
                &&& ready.last().idx == item.idx
                &&& forall|k: int|
                    0 <= k < before.waiting().len() ==> (#[trigger] ready[k]).idx
                        == before.waiting()[k].idx && ready[k].image == before.waiting()[k].image
            }
            &&& n == 3 ==> ready.len() == 1 && ready[0].idx == item.idx
            &&& rel == 0 && n == 0 ==> after.passes() == before.passes().push(pass)
            &&& rel != 0 && rel != 13 && rel != 26 ==> after.passes() == before.passes()
        }),
{
    let rel = item.idx as int % 40;
    assert(item.idx - start_of_page(item.idx as int) == rel);
    let all = before.waiting().push(item);
    if rel == 26 && before.passes().len() == 2 {
        assert(ready[ready.len() - 1].idx == all[all.len() - 1].idx);
        assert forall|k: int| 0 <= k < before.waiting().len() implies (#[trigger] ready[k]).idx
            == before.waiting()[k].idx && ready[k].image == before.waiting()[k].image by {
            assert(all[k] == before.waiting()[k]);
        }
    }
}

} // verus!
