//! Walking over the backpack, voting on icons and gathering results.
use good_scanner::good_common::navigation::{
    item_delay, parse_number_from_text, parse_slash_number, parse_slash_pair, read_item_count,
    scroll_grid_page, select_backpack_tab, traverse_backpack_grid, BackpackTab, WalkStep,
};
use good_scanner::scanner::common::backpack_scanner::{
    after_count, open_backpack_to_tab, BackpackScanConfig, GridScan, GridStep, OpenStep,
    ScanAction, ScrollCounter,
};
use good_scanner::scanner::common::grid_voter::{GridIconResult, PagedGridVoter};
use good_scanner::scanner::common::scan_session::{capped_total, GridSession};
use good_scanner::scanner::common::scan_worker::{Collector, Outcome};

#[test]
fn numbers_are_read_from_texts() {
    assert_eq!(parse_number_from_text("等级 85"), 85);
    assert_eq!(parse_number_from_text("none"), 0);
    assert_eq!(parse_slash_number("80 / 90"), 80);
    assert_eq!(parse_slash_number("80"), 80);
    assert_eq!(parse_slash_pair("圣遗物 1200/1800"), (1200, 1800));
    assert_eq!(parse_slash_pair("1200"), (0, 0));
    assert_eq!(read_item_count("武器 30 / 2000"), (30, 2000));
}

#[test]
fn tabs_have_names() {
    assert!(matches!(select_backpack_tab("weapon"), Some(BackpackTab::Weapon)));
    assert!(matches!(select_backpack_tab("artifact"), Some(BackpackTab::Artifact)));
    assert!(select_backpack_tab("food").is_none());
    assert_eq!(item_delay(120), 40);
    assert_eq!(item_delay(0), 1);
}

#[test]
fn every_third_page_is_scrolled_back_a_tick() {
    let mut count = 0;
    let ups: Vec<i32> = (0..6).map(|_| scroll_grid_page(&mut count).up).collect();
    assert_eq!(ups, vec![0, 0, 1, 0, 0, 1]);
    assert_eq!(count, 6);
    assert_eq!(scroll_grid_page(&mut count).down, 49);
}

#[test]
fn a_walk_clicks_each_item_once() {
    let mut walk = traverse_backpack_grid(50);
    let mut clicks = Vec::new();
    let mut scrolls = 0;
    loop {
        match walk.next_step() {
            WalkStep::Click { row, col, index } => clicks.push((row, col, index)),
            WalkStep::ScrollPage => scrolls += 1,
            WalkStep::Done => break,
        }
    }
    assert_eq!(clicks.len(), 50);
    assert_eq!(scrolls, 1);
    assert_eq!(clicks[0], (0, 0, 0));
    assert_eq!(clicks[39], (4, 7, 39));
    // the ten items of the last page fill two rows at the bottom
    assert_eq!(clicks[40], (3, 0, 40));
    assert_eq!(clicks[49], (4, 1, 49));
    assert!(matches!(traverse_backpack_grid(0).next_step(), WalkStep::Done));
}

#[test]
fn a_scan_jumps_to_its_first_page() {
    let mut scan = GridScan::new(90, 41);
    assert_eq!(scan.next_step(), GridStep::Jump { rows: 5 });
    assert_eq!(scan.next_step(), GridStep::Click { row: 0, col: 1, index: 41 });
    let mut last = GridStep::Done;
    loop {
        match scan.next_step() {
            GridStep::Done => break,
            GridStep::Scroll { rows } => assert_eq!(rows, 2),
            step => last = step,
        }
    }
    assert_eq!(last, GridStep::Click { row: 4, col: 1, index: 89 });
}

#[test]
fn rows_are_scrolled_by_ticks() {
    let mut counter = ScrollCounter::new();
    assert_eq!(counter.scroll_rows(1), 10);
    assert_eq!(counter.scroll_rows(2), 20);
    assert_eq!(counter.scroll_rows(5), 49);
    assert_eq!(counter.scroll_rows(5), 49);
    assert_eq!(counter.scroll_rows(5), 48);
    assert_eq!(counter.pages_scrolled, 3);
}

#[test]
fn delays_are_split_around_the_first_capture() {
    let config =
        BackpackScanConfig { delay_grid_item: 60, delay_scroll: 200, delay_after_panel: 101 };
    assert_eq!(config.first_delay(), 50);
    assert!(config.retries(true));
    assert!(!config.retries(false));
    let none = BackpackScanConfig { delay_grid_item: 60, delay_scroll: 200, delay_after_panel: 0 };
    assert!(!none.retries(true));
}

#[test]
fn a_backpack_that_did_not_open_is_opened_again() {
    assert!(matches!(open_backpack_to_tab(), OpenStep::Open { .. }));
    assert!(matches!(after_count(true, 0, 0), OpenStep::Open { .. }));
    assert_eq!(after_count(true, 5, 10), OpenStep::Opened { count: 5, capacity: 10 });
    assert_eq!(after_count(false, 0, 0), OpenStep::Opened { count: 0, capacity: 0 });
}

fn icons(n: usize, locked: bool) -> Vec<GridIconResult> {
    vec![GridIconResult { lock: locked, astral: false, elixir: false }; n]
}

#[test]
fn two_of_three_passes_decide() {
    let mut voter: PagedGridVoter<u32, ()> = PagedGridVoter::new(40);
    let mut ready = Vec::new();
    for idx in 0..40 {
        let pass = if voter.wants_pass(idx) {
            // the second pass disagrees with the others
            icons(40, idx != 13)
        } else {
            Vec::new()
        };
        ready.extend(voter.record(idx, idx as u32, (), pass));
    }
    ready.extend(voter.final_flush(icons(40, true)));
    assert_eq!(ready.len(), 40);
    for (i, item) in ready.iter().enumerate() {
        assert_eq!(item.idx, i);
        assert_eq!(item.image, i as u32);
        assert!(item.metadata.unwrap().lock);
    }
}

#[test]
fn items_between_the_second_pass_and_the_third_wait() {
    let mut voter: PagedGridVoter<u32, ()> = PagedGridVoter::new(100);
    for idx in 0..13 {
        let pass = if voter.wants_pass(idx) { icons(40, true) } else { Vec::new() };
        assert_eq!(voter.record(idx, idx as u32, (), pass).len(), 1);
    }
    assert!(voter.last_waiting().is_none());
    assert!(voter.wants_pass(13));
    assert!(voter.record(13, 13, (), icons(40, false)).is_empty());
    assert!(voter.record(14, 14, (), Vec::new()).is_empty());
    assert_eq!(voter.last_waiting().unwrap().idx, 14);
    // the third pass decides
    let flushed = voter.early_stop_flush(icons(40, false));
    assert_eq!(flushed.len(), 2);
    assert!(!flushed[0].metadata.unwrap().lock);
    voter.reset_page();
    assert!(voter.last_waiting().is_none());
}

#[test]
fn totals_are_capped() {
    assert_eq!(capped_total(100, 0, 0), 100);
    assert_eq!(capped_total(100, 10, 5), 15);
    assert_eq!(capped_total(8, 10, 5), 8);
}

#[test]
fn a_session_stops_below_the_lowest_rarity() {
    let mut session: GridSession<u32> = GridSession::new(40, 0);
    let mut work = Vec::new();
    for idx in 0..40 {
        let pass = if session.wants_pass(idx) { icons(40, true) } else { Vec::new() };
        let step = session.item(idx, idx as u32, idx == 30, false, pass);
        work.extend(step.work);
        if step.action == ScanAction::Stop {
            break;
        }
    }
    work.extend(session.finish(icons(40, true)));
    assert_eq!(work.len(), 30);
    assert!(work.iter().enumerate().all(|(i, w)| w.index == i && w.image == i as u32));
}

#[test]
fn the_last_item_that_waits_settles_the_rest() {
    let mut session: GridSession<u32> = GridSession::new(20, 0);
    let mut work = Vec::new();
    for idx in 0..20 {
        let pass = if session.wants_pass(idx) { icons(20, idx == 0) } else { Vec::new() };
        work.extend(session.item(idx, idx as u32, false, false, pass).work);
    }
    assert_eq!(work.len(), 13);
    assert_eq!(session.last_waiting(), Some(&19));
    work.extend(session.finish(icons(20, true)));
    assert_eq!(work.len(), 20);
    assert!(work[13].metadata.as_ref().unwrap().lock);
    assert_eq!(session.last_waiting(), None);
}

#[test]
fn results_come_out_in_order() {
    let mut c: Collector<u32> = Collector::new();
    c.accept(2, Outcome::Item(30));
    c.accept(0, Outcome::Item(10));
    assert_eq!(c.position(), 1);
    c.accept(1, Outcome::Skipped);
    assert_eq!(c.position(), 3);
    assert!(!c.stop_requested());
    c.accept(4, Outcome::Item(50));
    assert_eq!(c.finish(), vec![10, 30]);
}

#[test]
fn failures_in_a_row_stop_a_scan() {
    let mut c: Collector<u32> = Collector::new();
    for i in 0..9 {
        c.accept(i, Outcome::Failed);
    }
    assert!(!c.stop_requested());
    c.accept(9, Outcome::Failed);
    assert!(c.stop_requested());
    let mut d: Collector<u32> = Collector::new();
    for i in 0..30 {
        d.accept(i, if i % 10 == 9 { Outcome::Item(1) } else { Outcome::Failed });
    }
    assert!(!d.stop_requested());
}
