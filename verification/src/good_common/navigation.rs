//! Moving through the backpack, and the numbers that it shows.
use crate::number::parse_i32;
use crate::patterns::{captures, group_chars};
use crate::scanner::common::constants::{GRID_COLS, GRID_ROWS};
use crate::text::same_text;
use vstd::prelude::*;

verus! {

/// Two numbers with a slash between them.
pub const SLASH_PATTERN: &'static str = "(\\d+)\\s*/\\s*(\\d+)";

/// A number.
pub const INTEGER_PATTERN: &'static str = "(\\d+)";

/// The wheel ticks that scroll a page.
pub const SCROLL_TICKS_PER_PAGE: i32 = 49;

/// After so many pages the scrolling is corrected by one tick.
pub const SCROLL_CORRECTION_INTERVAL: i32 = 3;

/// The number in a group of a match, `default` where it does not fit.
pub open spec fn group_number(groups: Seq<Option<Seq<char>>>, i: int, default: int) -> int {
    match crate::number::i32_of(crate::patterns::group(groups, i)) {
        Some(n) => n,
        None => default,
    }
}

/// The number in a group of a match, `default` where it does not fit.
pub fn group_i32(groups: &Vec<Option<String>>, i: usize, default: i32) -> (n: i32)
    ensures
        n == group_number(groups.deep_view(), i as int, default as int),
{
    match parse_i32(&group_chars(groups, i)) {
        Some(n) => n,
        None => default,
    }
}

/// The first number in a text, 0 where there is none.
pub open spec fn number_of(text: Seq<char>) -> int {
    match crate::patterns::first_match(INTEGER_PATTERN@, text) {
        Some(groups) => group_number(groups, 1, 0),
        None => 0,
    }
}

/// The first number in a text, 0 where there is none.
pub fn parse_number_from_text(text: &str) -> (n: i32)
    ensures
        n == number_of(text@),
{
    match captures(INTEGER_PATTERN, text) {
        Some(groups) => group_i32(&groups, 1, 0),
        None => 0,
    }
}

/// The number before a slash, else the first number.
pub open spec fn slash_number(text: Seq<char>) -> int {
    match crate::patterns::first_match(SLASH_PATTERN@, text) {
        Some(groups) => group_number(groups, 1, 0),
        None => number_of(text),
    }
}

/// The number before a slash, else the first number.
pub fn parse_slash_number(text: &str) -> (n: i32)
    ensures
        n == slash_number(text@),
{
    match captures(SLASH_PATTERN, text) {
        Some(groups) => group_i32(&groups, 1, 0),
        None => parse_number_from_text(text),
    }
}

/// The numbers before and behind a slash, 0 and 0 where there is none.
pub open spec fn slash_pair(text: Seq<char>) -> (int, int) {
    match crate::patterns::first_match(SLASH_PATTERN@, text) {
        Some(groups) => (group_number(groups, 1, 0), group_number(groups, 2, 0)),
        None => (0, 0),
    }
}

/// The numbers before and behind a slash, 0 and 0 where there is none.
pub fn parse_slash_pair(text: &str) -> (p: (i32, i32))
    ensures
        (p.0 as int, p.1 as int) == slash_pair(text@),
{
    match captures(SLASH_PATTERN, text) {
        Some(groups) => (group_i32(&groups, 1, 0), group_i32(&groups, 2, 0)),
        None => (0, 0),
    }
}

/// The item count and the capacity in the header of the backpack.
pub fn read_item_count(header: &str) -> (p: (i32, i32))
    ensures
        (p.0 as int, p.1 as int) == slash_pair(header@),
{
    parse_slash_pair(header)
}

/// A tab of the backpack.
#[derive(Debug, Clone, Copy, PartialEq, Eq, Structural)]
pub enum BackpackTab {
    Weapon,
    Artifact,
}

/// The tab of a name.
pub open spec fn tab_named(name: Seq<char>) -> Option<BackpackTab> {
    if name == "weapon"@ {
        Some(BackpackTab::Weapon)
    } else if name == "artifact"@ {
        Some(BackpackTab::Artifact)
    } else {
        None
    }
}

/// The tab of a name.
pub fn select_backpack_tab(tab: &str) -> (t: Option<BackpackTab>)
    ensures
        t == tab_named(tab@),
{
    proof {
        reveal_strlit("weapon");
        reveal_strlit("artifact");
    }
    if same_text(tab, "weapon") {
        Some(BackpackTab::Weapon)
    } else if same_text(tab, "artifact") {
        Some(BackpackTab::Artifact)
    } else {
        None
    }
}

/// The delay around a click on an item.
pub open spec fn delay_around(delay: int) -> int {
    if delay / 3 > 1 {
        delay / 3
    } else {
        1
    }
}

/// The delay around a click on an item: a third of the delay per item, but at
/// least one millisecond.
pub fn item_delay(delay: u64) -> (ms: u64)
    ensures
        ms == delay_around(delay as int),
{
    if delay / 3 > 1 {
        delay / 3
    } else {
        1
    }
}

/// The wheel ticks of one page: down, and up again for the correction.
#[derive(Debug, Clone, Copy, PartialEq, Eq, Structural)]
pub struct PageScroll {
    pub down: i32,
    pub up: i32,
}

/// The wheel ticks of the page that is scrolled as the `n`th: down, and up again.
pub open spec fn page_ticks(n: int) -> (int, int) {
    (
        SCROLL_TICKS_PER_PAGE as int,
        if n % SCROLL_CORRECTION_INTERVAL as int == 0 {
            1int
        } else {
            0int
        },
    )
}

/// Counts a scrolled page and says how the wheel is to turn.
pub fn scroll_grid_page(scroll_count: &mut i32) -> (scroll: PageScroll)
    requires
        0 <= *old(scroll_count) < i32::MAX,
    ensures
        *final(scroll_count) == *old(scroll_count) + 1,
        (scroll.down as int, scroll.up as int) == page_ticks(*final(scroll_count) as int),
{
    *scroll_count = *scroll_count + 1;
    PageScroll {
        down: SCROLL_TICKS_PER_PAGE,
        up: if *scroll_count % SCROLL_CORRECTION_INTERVAL == 0 {
            1
        } else {
            0
        },
    }
}

/// How many items a page has.
pub const PAGE_ITEMS: usize = 40;

/// How many rows so many items fill.
pub open spec fn rows_for(items: int) -> int {
    (items + GRID_COLS - 1) / GRID_COLS as int
}

/// The row and column in which an item is shown. A page that is not full is
/// shown at the bottom.
pub open spec fn shown_cell(total: int, k: int) -> (int, int) {
    let page = k / PAGE_ITEMS as int;
    let left = total - page * PAGE_ITEMS;
    let row = (k - page * PAGE_ITEMS) / GRID_COLS as int;
    (
        if left < PAGE_ITEMS {
            GRID_ROWS - rows_for(left) + row
        } else {
            row
        },
        k % GRID_COLS as int,
    )
}

/// What to do next in a walk over the backpack.
#[derive(Debug, Clone, Copy, PartialEq, Eq, Structural)]
pub enum WalkStep {
    /// Click the cell of an item.
    Click { row: usize, col: usize, index: usize },
    /// Scroll to the next page.
    ScrollPage,
    /// All items were clicked.
    Done,
}

/// A walk over all items of the backpack, page by page.
#[derive(Debug, Clone, Copy)]
pub struct BackpackWalk {
    pub total: usize,
    /// The next item.
    pub index: usize,
    /// The next item is on the page that is shown.
    pub shown: bool,
}

impl BackpackWalk {
    /// The walk after its next step, and that step.
    pub open spec fn walked(self) -> (BackpackWalk, WalkStep) {
        if !self.shown {
            (BackpackWalk { shown: true, ..self }, WalkStep::ScrollPage)
        } else if self.index >= self.total {
            (self, WalkStep::Done)
        } else {
            let cell = shown_cell(self.total as int, self.index as int);
            let next = self.index + 1;
            (
                BackpackWalk {
                    total: self.total,
                    index: next as usize,
                    shown: !(next % PAGE_ITEMS as int == 0 && next < self.total),
                },
                WalkStep::Click {
                    row: cell.0 as usize,
                    col: cell.1 as usize,
                    index: self.index,
                },
            )
        }
    }

    /// What every walk keeps to.
    pub open spec fn valid(&self) -> bool {
        self.index <= self.total && (!self.shown ==> self.index % PAGE_ITEMS == 0 && 0 < self.index
            < self.total)
    }
}

/// Starts a walk over so many items.
pub fn traverse_backpack_grid(total_count: usize) -> (walk: BackpackWalk)
    ensures
        walk.valid(),
        walk.total == total_count,
        walk.index == 0,
        walk.shown,
{
    BackpackWalk { total: total_count, index: 0, shown: true }
}

impl BackpackWalk {
    /// The next step of the walk. Each item is clicked once, in order, and the
    /// next page is scrolled to when there is one.
    pub fn next_step(&mut self) -> (step: WalkStep)
        requires
            old(self).valid(),
        ensures
            final(self).valid(),
            final(self).total == old(self).total,
            (*final(self), step) == old(self).walked(),
            step matches WalkStep::Click { row, col, .. } ==> row < GRID_ROWS && col < GRID_COLS,
    {
        if !self.shown {
            self.shown = true;
            return WalkStep::ScrollPage;
        }
        if self.index >= self.total {
            return WalkStep::Done;
        }
        let k: usize = self.index;
        let page: usize = k / PAGE_ITEMS;
        let left: usize = self.total - page * PAGE_ITEMS;
        let within: usize = (k - page * PAGE_ITEMS) / GRID_COLS;
        let row: usize = if left < PAGE_ITEMS {
            let rows: usize = (left + GRID_COLS - 1) / GRID_COLS;
            GRID_ROWS - rows + within
        } else {
            within
        };
        let col: usize = k % GRID_COLS;
        self.index = k + 1;
        self.shown = !(self.index % PAGE_ITEMS == 0 && self.index < self.total);
        WalkStep::Click { row, col, index: k }
    }
}

/// No two items of a page are shown in the same cell.
pub proof fn cells_of_a_page_differ(total: int, a: int, b: int)
    requires
        0 <= a < b < total,
        a / PAGE_ITEMS as int == b / PAGE_ITEMS as int,
    ensures
        shown_cell(total, a) != shown_cell(total, b),
{
    if shown_cell(total, a) == shown_cell(total, b) {
        let page = a / 40;
        assert((a - page * 40) / 8 == (b - page * 40) / 8);
        assert(a % 8 == b % 8);
    }
}

/// The grid has eight columns and five rows, and so forty items on a page. A full
/// page is filled row by row from the top; on a page that is not full the last
/// item stands in the last row. Items that follow each other stand side by side,
/// or one row lower at the left.
pub proof fn pages_are_filled_row_by_row(total: int, k: int)
    requires
        0 <= k < total,
    ensures
        shown_cell(total, k).1 == k % 8,
        0 <= shown_cell(total, k).0 < 5,
        total % 40 == 0 || k < total - total % 40 ==> shown_cell(total, k).0 == (k % 40) / 8,
        k == total - 1 && total % 40 != 0 ==> shown_cell(total, k).0 == 4,
        k + 1 < total && (k + 1) % 40 != 0 ==> {
            let here = shown_cell(total, k);
            let next = shown_cell(total, k + 1);
            if here.1 < 7 {
                next == (here.0, here.1 + 1)
            } else {
                next == (here.0 + 1, 0int)
            }
        },
{
    let page = k / 40;
    assert(k == 40 * page + k % 40);
    let left = total - page * 40;
    assert(left > k % 40);
    let last = total / 40;
    assert(total == 40 * last + total % 40);
    if left < 40 {
        assert(page == last);
    }
    if k + 1 < total && (k + 1) % 40 != 0 {
        assert((k + 1) / 40 == page);
        assert((k + 1) % 40 == k % 40 + 1);
    }
}

/// The rows that items fill are as few as hold them.
pub proof fn rows_hold_eight_items(items: int)
    requires
        0 <= items,
    ensures
        items <= 8 * rows_for(items) < items + 8,
{
}

/// A walk clicks its items one after the other, without gaps, scrolls exactly
/// before the first item of each further page, and is done after the last one.
pub proof fn walks_click_each_item_in_order(walk: BackpackWalk)
    requires
        walk.valid(),
    ensures
        ({
            let (next, step) = walk.walked();
            &&& next.valid()
            &&& next.total == walk.total
            &&& step is Done <==> walk.index == walk.total
            &&& step is ScrollPage <==> !walk.shown
            &&& step is ScrollPage ==> next.index == walk.index && walk.index % 40 == 0 && next.shown
            &&& step matches WalkStep::Click { row, col, index } ==> {
                &&& index == walk.index
                &&& next.index == walk.index + 1
                &&& (row as int, col as int) == shown_cell(walk.total as int, walk.index as int)
                &&& next.shown <==> next.index % 40 != 0 || next.index == walk.total
            }
        }),
{
    if walk.index < walk.total {
        pages_are_filled_row_by_row(walk.total as int, walk.index as int);
    }
}

/// A page is scrolled by 49 ticks, and every third one back by one.
pub proof fn every_third_page_is_corrected(n: int)
    ensures
        page_ticks(n).0 == 49,
        page_ticks(3 * n).1 == 1,
        page_ticks(3 * n + 1).1 == 0,
        page_ticks(3 * n + 2).1 == 0,
{
}

/// The delay around a click is a third of the delay, but not nothing.
pub proof fn delays_are_thirds(delay: int)
    requires
        0 <= delay,
    ensures
        delay >= 3 ==> 3 * delay_around(delay) <= delay < 3 * delay_around(delay) + 3,
        delay < 3 ==> delay_around(delay) == 1,
{
}

/// There is a tab for weapons and one for artifacts.
pub proof fn there_are_two_tabs(name: Seq<char>)
    ensures
        tab_named(name) == Some(BackpackTab::Weapon) <==> name == "weapon"@,
        tab_named(name) == Some(BackpackTab::Artifact) <==> name == "artifact"@,
{
    reveal_strlit("weapon");
    reveal_strlit("artifact");
    assert("weapon"@[0] != "artifact"@[0]);
}

/// In a header with a slash the count of items stands before it and the capacity
/// behind it; a single number is the first one, and 0 where there is none.
pub proof fn counts_stand_before_the_slash(
    text: Seq<char>,
    groups: Seq<Option<Seq<char>>>,
    count: int,
    capacity: int,
)
    requires
        crate::patterns::first_match("(\\d+)\\s*/\\s*(\\d+)"@, text) == Some(groups),
        groups.len() > 2,
        groups[1] is Some,
        groups[2] is Some,
        crate::number::i32_of(groups[1]->0) == Some(count),
        crate::number::i32_of(groups[2]->0) == Some(capacity),
    ensures
        slash_pair(text) == (count, capacity),
        slash_number(text) == count,
{
}

/// Without a slash there is no pair, and the first number counts alone.
pub proof fn single_numbers_count_alone(text: Seq<char>)
    requires
        crate::patterns::first_match("(\\d+)\\s*/\\s*(\\d+)"@, text) is None,
    ensures
        slash_pair(text) == (0int, 0int),
        slash_number(text) == number_of(text),
        crate::patterns::first_match("(\\d+)"@, text) is None ==> number_of(text) == 0,
        crate::patterns::first_match("(\\d+)"@, text) matches Some(groups) ==> (groups.len() > 1
            && groups[1] is Some && crate::number::i32_of(groups[1]->0) is Some ==> number_of(text)
            == crate::number::i32_of(groups[1]->0)->0),
{
}

} // verus!
