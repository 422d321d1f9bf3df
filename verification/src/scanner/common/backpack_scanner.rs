//! Walking over the backpack grid.
use crate::good_common::navigation::{
    rows_for, PAGE_ITEMS, SCROLL_CORRECTION_INTERVAL, SCROLL_TICKS_PER_PAGE,
};
use crate::scanner::common::constants::{GRID_COLS, GRID_ROWS};
use vstd::prelude::*;

verus! {

/// What to do after an item was handled.
#[derive(Debug, Clone, Copy, PartialEq, Eq, Structural)]
pub enum ScanAction {
    /// Go on.
    Continue,
    /// Stop at once.
    Stop,
}

/// Delays of a scan in milliseconds.
#[derive(Debug, Clone, Copy)]
pub struct BackpackScanConfig {
    pub delay_grid_item: u64,
    pub delay_scroll: u64,
    /// The delay after the panel has loaded.
    pub delay_after_panel: u64,
}

impl BackpackScanConfig {
    /// The delay before the first capture: half of the delay after the panel
    /// has loaded.
    pub fn first_delay(&self) -> (ms: u64)
        ensures
            ms == self.delay_after_panel / 2,
    {
        self.delay_after_panel / 2
    }

    /// Whether to wait the full delay and capture again: the icons had not
    /// settled and there is a delay.
    pub fn retries(&self, unsettled: bool) -> (yes: bool)
        ensures
            yes == (self.delay_after_panel > 0 && unsettled),
    {
        self.delay_after_panel > 0 && unsettled
    }
}

/// The wheel ticks for so many rows, to the nearest tick.
pub open spec fn row_ticks(rows: int) -> int {
    (2 * SCROLL_TICKS_PER_PAGE * rows + GRID_ROWS) / (2 * GRID_ROWS)
}

/// Counts scrolled pages and corrects the drift of the wheel.
#[derive(Debug, Clone, Copy)]
pub struct ScrollCounter {
    pub pages_scrolled: u32,
}

/// How many pages were scrolled, and the wheel ticks, when so many rows are
/// scrolled after so many pages.
pub open spec fn scrolled(pages: int, rows: int) -> (int, int) {
    if rows == GRID_ROWS {
        (
            pages + 1,
            row_ticks(rows) - if (pages + 1) % SCROLL_CORRECTION_INTERVAL as int == 0 {
                1int
            } else {
                0int
            },
        )
    } else {
        (pages, row_ticks(rows))
    }
}

impl ScrollCounter {
    /// Nothing was scrolled.
    pub fn new() -> (c: Self)
        ensures
            c.pages_scrolled == 0,
    {
        ScrollCounter { pages_scrolled: 0 }
    }

    /// The wheel ticks that scroll so many rows. Scrolling a whole page counts,
    /// and each time the interval is full one tick less is sent.
    pub fn scroll_rows(&mut self, row_count: usize) -> (ticks: u64)
        requires
            old(self).pages_scrolled < u32::MAX,
            row_count <= 0xffff_ffff,
        ensures
            (final(self).pages_scrolled as int, ticks as int) == scrolled(
                old(self).pages_scrolled as int,
                row_count as int,
            ),
    {
        let ticks: u64 = (98 * row_count as u64 + 5) / 10;
        assert(2 * SCROLL_TICKS_PER_PAGE == 98 && 2 * GRID_ROWS == 10);
        assert(ticks == row_ticks(row_count as int));
        if row_count == GRID_ROWS {
            self.pages_scrolled = self.pages_scrolled + 1;
            if self.pages_scrolled % SCROLL_CORRECTION_INTERVAL as u32 == 0 {
                return ticks - 1;
            }
        }
        ticks
    }
}

/// The first page that is scanned when the scan starts at an item.
pub open spec fn first_page(start_at: int) -> int {
    start_at / PAGE_ITEMS as int
}

/// The row and column in which an item is shown, where the scan began on a
/// page: the first page from the top; a later page that is not full is shown
/// at the bottom.
pub open spec fn scan_cell(total: int, first: int, k: int) -> (int, int) {
    let page = k / PAGE_ITEMS as int;
    let left = total - page * PAGE_ITEMS;
    let row = (k - page * PAGE_ITEMS) / GRID_COLS as int;
    (
        if page > first && rows_for(left) < GRID_ROWS {
            GRID_ROWS - rows_for(left) + row
        } else {
            row
        },
        k % GRID_COLS as int,
    )
}

/// What to do next in a scan of the grid.
#[derive(Debug, Clone, Copy, PartialEq, Eq, Structural)]
pub enum GridStep {
    /// Scroll so many rows to the page on which the scan starts.
    Jump { rows: usize },
    /// Click the cell of an item and capture the screen.
    Click { row: usize, col: usize, index: usize },
    /// Scroll so many rows to the next page.
    Scroll { rows: usize },
    /// All items were clicked.
    Done,
}

/// A scan of the grid from an item on.
#[derive(Debug, Clone, Copy)]
pub struct GridScan {
    pub total: usize,
    pub start_at: usize,
    /// The next item.
    pub index: usize,
    /// The page of the next item is shown.
    pub shown: bool,
}

impl GridScan {
    /// The scan after its next step, and that step.
    pub open spec fn stepped(self) -> (GridScan, GridStep) {
        let first = first_page(self.start_at as int);
        if !self.shown && self.index == self.start_at {
            (
                GridScan { shown: true, ..self },
                GridStep::Jump { rows: (first * GRID_ROWS) as usize },
            )
        } else if self.index >= self.total {
            (self, GridStep::Done)
        } else if !self.shown {
            let left = rows_for(self.total - self.index);
            (
                GridScan { shown: true, ..self },
                GridStep::Scroll {
                    rows: (if left < GRID_ROWS {
                        left
                    } else {
                        GRID_ROWS as int
                    }) as usize,
                },
            )
        } else {
            let cell = scan_cell(self.total as int, first, self.index as int);
            (
                GridScan {
                    index: (self.index + 1) as usize,
                    shown: (self.index + 1) % PAGE_ITEMS as int != 0,
                    ..self
                },
                GridStep::Click {
                    row: cell.0 as usize,
                    col: cell.1 as usize,
                    index: self.index,
                },
            )
        }
    }

    /// A scan of so many items that starts at an item.
    pub fn new(total: usize, start_at: usize) -> (s: Self)
        ensures
            s.total == total,
            s.start_at == start_at,
            s.index == start_at,
            s.shown == (first_page(start_at as int) == 0),
    {
        GridScan { total, start_at, index: start_at, shown: start_at / PAGE_ITEMS == 0 }
    }

    /// The next step of the scan: first a jump to the page of the first item,
    /// then each item in order, with a scroll before each further page.
    pub fn next_step(&mut self) -> (step: GridStep)
        ensures
            (*final(self), step) == old(self).stepped(),
            step matches GridStep::Click { row, col, .. } ==> row < GRID_ROWS && col < GRID_COLS,
    {
        let first: usize = self.start_at / PAGE_ITEMS;
        if !self.shown && self.index == self.start_at {
            self.shown = true;
            return GridStep::Jump { rows: first * GRID_ROWS };
        }
        if self.index >= self.total {
            return GridStep::Done;
        }
        if !self.shown {
            self.shown = true;
            let rest: usize = self.total - self.index;
            let rows: usize = rest / GRID_COLS + if rest % GRID_COLS == 0 {
                0
            } else {
                1
            };
            return GridStep::Scroll {
                rows: if rows < GRID_ROWS {
                    rows
                } else {
                    GRID_ROWS
                },
            };
        }
        let k: usize = self.index;
        let page: usize = k / PAGE_ITEMS;
        let left: usize = self.total - page * PAGE_ITEMS;
        let rows: usize = left / GRID_COLS + if left % GRID_COLS == 0 {
            0
        } else {
            1
        };
        let within: usize = (k - page * PAGE_ITEMS) / GRID_COLS;
        let row: usize = if page > first && rows < GRID_ROWS {
            GRID_ROWS - rows + within
        } else {
            within
        };
        self.index = k + 1;
        self.shown = self.index % PAGE_ITEMS != 0;
        GridStep::Click { row, col: k % GRID_COLS, index: k }
    }
}

/// No two items of a page are shown in the same cell.
pub proof fn scan_cells_of_a_page_differ(total: int, first: int, a: int, b: int)
    requires
        0 <= a < b < total,
        a / PAGE_ITEMS as int == b / PAGE_ITEMS as int,
    ensures
        scan_cell(total, first, a) != scan_cell(total, first, b),
{
    if scan_cell(total, first, a) == scan_cell(total, first, b) {
        let page = a / 40;
        assert((a - page * 40) / 8 == (b - page * 40) / 8);
        assert(a % 8 == b % 8);
    }
}

/// How the backpack is opened to a tab.
#[derive(Debug, Clone, Copy, PartialEq, Eq, Structural)]
pub enum OpenStep {
    /// Return to the main screen with at most so many presses of Escape, open
    /// the backpack, choose the tab and read the item count.
    Open { escapes: u32 },
    /// The backpack is open, with this count and capacity.
    Opened { count: i32, capacity: i32 },
}

/// The first step to open the backpack.
pub fn open_backpack_to_tab() -> (step: OpenStep)
    ensures
        step == (OpenStep::Open { escapes: 8 }),
{
    OpenStep::Open { escapes: 8 }
}

/// The step after the item count was read.
pub open spec fn opened(first_try: bool, count: i32, capacity: i32) -> OpenStep {
    if first_try && count == 0 {
        OpenStep::Open { escapes: 4 }
    } else {
        OpenStep::Opened { count, capacity }
    }
}

/// The step after the item count was read: a count of 0 on the first try leads
/// to a second one, whose count stands.
pub fn after_count(first_try: bool, count: i32, capacity: i32) -> (step: OpenStep)
    ensures
        step == opened(first_try, count, capacity),
{
    if first_try && count == 0 {
        OpenStep::Open { escapes: 4 }
    } else {
        OpenStep::Opened { count, capacity }
    }
}

/// Five rows are scrolled by 49 ticks, and fewer or more in proportion, to the
/// nearest tick; every third full page takes one tick less.
pub proof fn rows_are_scrolled_in_proportion(pages: int, rows: int)
    requires
        0 <= pages,
        0 <= rows,
    ensures
        -5 <= 10 * row_ticks(rows) - 98 * rows <= 5,
        row_ticks(5) == 49,
        scrolled(pages, 5).0 == pages + 1,
        scrolled(pages, 5).1 == if pages % 3 == 2 {
            48int
        } else {
            49
        },
        rows != 5 ==> scrolled(pages, rows) == (pages, row_ticks(rows)),
{
    assert(row_ticks(rows) == (98 * rows + 5) / 10);
}

/// The page on which a scan starts is filled row by row from the top; on a later
/// page that is not full the last item stands in the last row. Items that follow
/// each other on a page stand side by side, or one row lower at the left.
pub proof fn scanned_pages_are_filled_row_by_row(total: int, first: int, k: int)
    requires
        0 <= k < total,
        0 <= first <= k / 40,
    ensures
        scan_cell(total, first, k).1 == k % 8,
        0 <= scan_cell(total, first, k).0 < 5,
        k / 40 == first ==> scan_cell(total, first, k).0 == (k % 40) / 8,
        k / 40 > first && k == total - 1 ==> scan_cell(total, first, k).0 == 4 || (total - 1) % 40
            >= 32,
        k + 1 < total && (k + 1) % 40 != 0 ==> {
            let here = scan_cell(total, first, k);
            let next = scan_cell(total, first, k + 1);
            if here.1 < 7 {
                next == (here.0, here.1 + 1)
            } else {
                next == (here.0 + 1, 0int)
            }
        },
{
    let page = k / 40;
    assert(k == 40 * page + k % 40);
    if k + 1 < total && (k + 1) % 40 != 0 {
        assert((k + 1) / 40 == page);
        assert((k + 1) % 40 == k % 40 + 1);
    }
}

/// A scan that starts on a later page first scrolls the rows of the pages before
/// it; then it clicks its items one after the other without gaps, scrolls before
/// each further page as many rows as are left, up to five, and is done after the
/// last one.
pub proof fn scans_click_each_item_in_order(scan: GridScan)
    requires
        scan.start_at <= scan.index,
        scan.start_at <= 0x1000_0000,
        scan.index <= scan.total ==> scan.total <= 0x1000_0000,
    ensures
        ({
            let (next, step) = scan.stepped();
            &&& next.total == scan.total && next.start_at == scan.start_at
            &&& step matches GridStep::Jump { rows } ==> {
                &&& scan.index == scan.start_at
                &&& rows == 5 * (scan.start_at as int / 40)
                &&& next.index == scan.index && next.shown
            }
            &&& step is Done ==> scan.index >= scan.total && next == scan
            &&& step matches GridStep::Scroll { rows } ==> {
                &&& next.index == scan.index && next.shown
                &&& 1 <= rows <= 5
                &&& rows == 5 || (8 * rows >= scan.total - scan.index && 8 * (rows - 1)
                    < scan.total - scan.index)
            }
            &&& step matches GridStep::Click { row, col, index } ==> {
                &&& index == scan.index
                &&& next.index == scan.index + 1
                &&& (row as int, col as int) == scan_cell(
                    scan.total as int,
                    scan.start_at as int / 40,
                    scan.index as int,
                )
                &&& next.shown <==> next.index % 40 != 0
            }
            &&& scan.index < scan.total && scan.shown ==> step is Click
        }),
{
    if scan.index < scan.total {
        scanned_pages_are_filled_row_by_row(
            scan.total as int,
            scan.start_at as int / 40,
            scan.index as int,
        );
    }
}

/// A backpack that seems to be empty is opened once more, and then its count
/// stands.
pub proof fn empty_backpacks_are_opened_again(count: i32, capacity: i32)
    ensures
        opened(true, 0, capacity) == (OpenStep::Open { escapes: 4 }),
        opened(false, count, capacity) == (OpenStep::Opened { count, capacity }),
        count != 0 ==> opened(true, count, capacity) == (OpenStep::Opened { count, capacity }),
{
}

} // verus!
