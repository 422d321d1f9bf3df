//! Rows of scanned artifacts: a row that was seen before is dropped.
use crate::good_artifact_scanner::scanner::ArtifactScanResult;
use crate::good_common::models::{GoodArtifact, GoodSubStat};
use crate::name_map::NameMap;
use crate::number::decimal_int_chars;
use crate::scanner::artifact::debug::{show_value, value_text};
use crate::scanner::artifact::scanner::ArtifactError;
use crate::scanner::common::backpack_scanner::ScanAction;
use crate::scanner::common::constants::GRID_COLS;
use crate::text::{append, copy_of, join_list, list_text, same_text, string_of, texts};
use vstd::prelude::*;

verus! {

/// The failures in a row after which a scan stops.
pub const MAX_FAILURES: u32 = 10;

/// A substat in a fingerprint.
pub open spec fn sub_text(sub: GoodSubStat) -> Seq<char> {
    sub.key@ + ":"@ + value_text(sub.value as int)
}

/// The substats of a fingerprint.
pub open spec fn sub_texts(subs: Seq<GoodSubStat>) -> Seq<Seq<char>> {
    Seq::new(subs.len(), |i: int| sub_text(subs[i]))
}

/// The text that stands for an artifact in its row.
pub open spec fn fingerprint(a: GoodArtifact) -> Seq<char> {
    a.set_key@ + "|"@ + a.slot_key@ + "|"@ + crate::number::decimal_int(a.level as int) + "|"@
        + a.main_stat_key@ + "|"@ + crate::number::decimal_int(a.rarity as int) + "|"@ + list_text(
        sub_texts(a.substats@),
        ";"@,
        a.substats@.len(),
    )
}

/// The text that stands for an artifact in its row.
pub fn artifact_fingerprint(a: &GoodArtifact) -> (text: String)
    ensures
        text@ == fingerprint(*a),
{
    let mut subs: Vec<String> = Vec::new();
    let mut i: usize = 0;
    while i < a.substats.len()
        invariant
            i <= a.substats@.len(),
            subs@.len() == i,
            forall|k: int| 0 <= k < i ==> (#[trigger] subs@[k])@ == sub_text(a.substats@[k]),
        decreases a.substats@.len() - i,
    {
        let mut text = copy_of(a.substats[i].key.as_str());
        append(&mut text, ":");
        append(&mut text, show_value(a.substats[i].value).as_str());
        subs.push(text);
        i = i + 1;
    }
    assert(texts(subs@) =~= sub_texts(a.substats@));
    let mut out = copy_of(a.set_key.as_str());
    append(&mut out, "|");
    append(&mut out, a.slot_key.as_str());
    append(&mut out, "|");
    append(&mut out, string_of(&decimal_int_chars(a.level as i64)).as_str());
    append(&mut out, "|");
    append(&mut out, a.main_stat_key.as_str());
    append(&mut out, "|");
    append(&mut out, string_of(&decimal_int_chars(a.rarity as i64)).as_str());
    append(&mut out, "|");
    append(&mut out, join_list(&subs, ";").as_str());
    out
}

/// Four stars and never levelled, of a set that comes with five stars.
pub open spec fn low_value(a: GoodArtifact, best: Map<Seq<char>, i32>) -> bool {
    a.rarity == 4 && a.level == 0 && best.contains_key(a.set_key@) && best[a.set_key@] >= 5
}

/// The artifacts without those of low value.
pub open spec fn valued(list: Seq<GoodArtifact>, best: Map<Seq<char>, i32>) -> Seq<GoodArtifact> {
    list.filter(|a: GoodArtifact| !low_value(a, best))
}

fn is_low_value(a: &GoodArtifact, best: &NameMap<i32>) -> (yes: bool)
    ensures
        yes == low_value(*a, best@),
{
    if a.rarity == 4 && a.level == 0 {
        match best.get(a.set_key.as_str()) {
            Some(max) => *max >= 5,
            None => false,
        }
    } else {
        false
    }
}

/// Drops the artifacts of low value.
pub fn drop_low_value(list: Vec<GoodArtifact>, best: &NameMap<i32>) -> (out: Vec<GoodArtifact>)
    ensures
        out@ == valued(list@, best@),
{
    let ghost keep = |a: GoodArtifact| !low_value(a, best@);
    let mut out: Vec<GoodArtifact> = Vec::new();
    let ghost all = list@;
    proof {
        reveal(Seq::filter);
        assert(all.take(0) =~= Seq::<GoodArtifact>::empty());
        assert(out@ =~= all.take(0).filter(keep));
    }
    for a in it: list
        invariant
            it.seq() == all,
            keep == (|a: GoodArtifact| !low_value(a, best@)),
            out@ == all.take(it.index() as int).filter(keep),
    {
        proof {
            reveal(Seq::filter);
            let k = it.index() as int;
            assert(all.take(k + 1).drop_last() =~= all.take(k));
            assert(all.take(k + 1).last() == a);
        }
        if !is_low_value(&a, best) {
            out.push(a);
        }
    }
    assert(all.take(all.len() as int) =~= all);
    out
}

/// What a scan has gathered: the artifacts of finished rows, the rows that were
/// seen on this page, and the row at hand.
pub struct Rows {
    pub kept: Seq<GoodArtifact>,
    pub seen: Seq<Seq<char>>,
    pub row: Seq<Seq<char>>,
    pub pending: Seq<GoodArtifact>,
    pub fails: int,
}

/// The text of a row.
pub open spec fn row_text(row: Seq<Seq<char>>) -> Seq<char> {
    list_text(row, ","@, row.len())
}

impl Rows {
    /// The row at hand was seen before.
    pub open spec fn repeated(self) -> bool {
        self.seen.contains(row_text(self.row))
    }

    /// One item more in the row.
    pub open spec fn with_item(
        self,
        result: Result<ArtifactScanResult, ArtifactError>,
        min_rarity: int,
    ) -> Rows {
        match result {
            Ok(ArtifactScanResult::Artifact(a)) => if a.rarity >= min_rarity {
                Rows {
                    row: self.row.push(fingerprint(a)),
                    pending: self.pending.push(a),
                    fails: 0,
                    ..self
                }
            } else {
                Rows { row: self.row.push(fingerprint(a)), ..self }
            },
            Ok(ArtifactScanResult::Skip) => Rows { row: self.row.push("skip"@), fails: 0, ..self },
            Ok(ArtifactScanResult::Stop) => self,
            Err(_) => Rows { row: self.row.push("null"@), fails: self.fails + 1, ..self },
        }
    }

    /// A full row is over: what it holds is kept unless the row is a repeated one.
    pub open spec fn with_row_closed(self) -> Rows {
        if self.row.len() < GRID_COLS {
            self
        } else if self.repeated() {
            Rows { row: Seq::empty(), pending: Seq::empty(), ..self }
        } else {
            Rows {
                kept: self.kept + self.pending,
                seen: self.seen.push(row_text(self.row)),
                row: Seq::empty(),
                pending: Seq::empty(),
                fails: 0,
            }
        }
    }

    /// The scan ends with this item.
    pub open spec fn ended_by(
        self,
        result: Result<ArtifactScanResult, ArtifactError>,
        go_on: bool,
    ) -> bool {
        match result {
            Ok(ArtifactScanResult::Stop) => true,
            Ok(_) => false,
            Err(_) => !go_on,
        }
    }

    /// After one item.
    pub open spec fn after(
        self,
        result: Result<ArtifactScanResult, ArtifactError>,
        min_rarity: int,
        go_on: bool,
    ) -> Rows {
        match result {
            Ok(ArtifactScanResult::Stop) => self,
            Err(_) => if go_on {
                self.with_item(result, min_rarity).with_row_closed()
            } else {
                Rows { row: self.row.push("null"@), ..self }
            },
            Ok(_) => self.with_item(result, min_rarity).with_row_closed(),
        }
    }

    /// What the scan does after an item.
    pub open spec fn action(
        self,
        result: Result<ArtifactScanResult, ArtifactError>,
        min_rarity: int,
        go_on: bool,
    ) -> ScanAction {
        if self.ended_by(result, go_on) || self.after(result, min_rarity, go_on).fails
            >= MAX_FAILURES {
            ScanAction::Stop
        } else {
            ScanAction::Continue
        }
    }

    /// On the next page.
    pub open spec fn scrolled(self) -> Rows {
        Rows { seen: Seq::empty(), row: Seq::empty(), pending: Seq::empty(), ..self }
    }

    /// All that is kept in the end: the last row counts though it is not full.
    pub open spec fn all_kept(self) -> Seq<GoodArtifact> {
        if self.row.len() > 0 && !self.repeated() {
            self.kept + self.pending
        } else {
            self.kept
        }
    }
}

/// The artifacts of a scan, row by row.
#[derive(Debug)]
pub struct RowScan {
    pub artifacts: Vec<GoodArtifact>,
    pub seen_rows: Vec<String>,
    pub current_row: Vec<String>,
    pub pending_row: Vec<GoodArtifact>,
    pub fail_count: u32,
}

impl View for RowScan {
    type V = Rows;

    open spec fn view(&self) -> Rows {
        Rows {
            kept: self.artifacts@,
            seen: texts(self.seen_rows@),
            row: texts(self.current_row@),
            pending: self.pending_row@,
            fails: self.fail_count as int,
        }
    }
}

impl RowScan {
    /// Nothing was scanned yet.
    pub fn new() -> (s: Self)
        ensures
            s@ == (Rows {
                kept: Seq::empty(),
                seen: Seq::empty(),
                row: Seq::empty(),
                pending: Seq::empty(),
                fails: 0,
            }),
    {
        let s = RowScan {
            artifacts: Vec::new(),
            seen_rows: Vec::new(),
            current_row: Vec::new(),
            pending_row: Vec::new(),
            fail_count: 0,
        };
        assert(texts(s.seen_rows@) =~= Seq::<Seq<char>>::empty());
        assert(texts(s.current_row@) =~= Seq::<Seq<char>>::empty());
        s
    }

    fn is_repeated(&self, row: &str) -> (yes: bool)
        ensures
            yes == texts(self.seen_rows@).contains(row@),
    {
        let ghost seen = texts(self.seen_rows@);
        let mut i: usize = 0;
        while i < self.seen_rows.len()
            invariant
                i <= self.seen_rows@.len(),
                seen == texts(self.seen_rows@),
                forall|k: int| 0 <= k < i ==> #[trigger] seen[k] != row@,
            decreases self.seen_rows@.len() - i,
        {
            if same_text(self.seen_rows[i].as_str(), row) {
                assert(seen[i as int] == row@);
                return true;
            }
            i = i + 1;
        }
        false
    }

    fn note(&mut self, text: String)
        ensures
            final(self)@ == (Rows { row: old(self)@.row.push(text@), ..old(self)@ }),
    {
        let ghost before = texts(self.current_row@);
        self.current_row.push(text);
        assert(texts(self.current_row@) =~= before.push(text@));
    }

    fn close_row(&mut self)
        ensures
            final(self)@ == old(self)@.with_row_closed(),
    {
        if self.current_row.len() < GRID_COLS {
            return ;
        }
        let row = join_list(&self.current_row, ",");
        if self.is_repeated(row.as_str()) {
            self.pending_row = Vec::new();
        } else {
            let ghost seen = texts(self.seen_rows@);
            self.seen_rows.push(row);
            assert(texts(self.seen_rows@) =~= seen.push(row@));
            self.artifacts.append(&mut self.pending_row);
            self.fail_count = 0;
        }
        self.current_row = Vec::new();
        assert(texts(self.current_row@) =~= Seq::<Seq<char>>::empty());
    }

    /// An item was scanned.
    pub fn item(
        &mut self,
        result: Result<ArtifactScanResult, ArtifactError>,
        min_rarity: i32,
        go_on: bool,
    ) -> (action: ScanAction)
        requires
            old(self).fail_count < MAX_FAILURES,
        ensures
            final(self)@ == old(self)@.after(result, min_rarity as int, go_on),
            action == old(self)@.action(result, min_rarity as int, go_on),
    {
        match result {
            Ok(ArtifactScanResult::Artifact(a)) => {
                let text = artifact_fingerprint(&a);
                self.note(text);
                if a.rarity >= min_rarity {
                    self.pending_row.push(a);
                    self.fail_count = 0;
                }
            },
            Ok(ArtifactScanResult::Stop) => {
                return ScanAction::Stop;
            },
            Ok(ArtifactScanResult::Skip) => {
                self.note(copy_of("skip"));
                self.fail_count = 0;
            },
            Err(_) => {
                self.note(copy_of("null"));
                if !go_on {
                    return ScanAction::Stop;
                }
                self.fail_count = self.fail_count + 1;
            },
        }
        assert(self@ == old(self)@.with_item(result, min_rarity as int));
        self.close_row();
        if self.fail_count >= MAX_FAILURES {
            ScanAction::Stop
        } else {
            ScanAction::Continue
        }
    }

    /// The grid was scrolled: the rows of the page before no longer count.
    pub fn page_scrolled(&mut self)
        ensures
            final(self)@ == old(self)@.scrolled(),
    {
        self.seen_rows = Vec::new();
        self.current_row = Vec::new();
        self.pending_row = Vec::new();
        assert(texts(self.seen_rows@) =~= Seq::<Seq<char>>::empty());
        assert(texts(self.current_row@) =~= Seq::<Seq<char>>::empty());
    }

    /// The artifacts of the scan, without those of low value.
    pub fn finish(self, best: &NameMap<i32>) -> (out: Vec<GoodArtifact>)
        ensures
            out@ == valued(self@.all_kept(), best@),
    {
        let mut kept = self;
        if kept.current_row.len() > 0 {
            let row = join_list(&kept.current_row, ",");
            if !kept.is_repeated(row.as_str()) {
                kept.artifacts.append(&mut kept.pending_row);
            }
        }
        drop_low_value(kept.artifacts, best)
    }
}

/// What is kept in the end was kept after a row or waits in the last one; no
/// artifact below the lowest rarity is ever among it.
pub proof fn only_rare_ones_are_kept(
    rows: Rows,
    result: Result<ArtifactScanResult, ArtifactError>,
    min_rarity: int,
    go_on: bool,
)
    requires
        forall|i: int|
            0 <= i < rows.kept.len() ==> (#[trigger] rows.kept[i]).rarity >= min_rarity,
        forall|i: int|
            0 <= i < rows.pending.len() ==> (#[trigger] rows.pending[i]).rarity >= min_rarity,
    ensures
        ({
            let next = rows.after(result, min_rarity, go_on);
            &&& forall|i: int|
                0 <= i < next.kept.len() ==> (#[trigger] next.kept[i]).rarity >= min_rarity
            &&& forall|i: int|
                0 <= i < next.pending.len() ==> (#[trigger] next.pending[i]).rarity >= min_rarity
            &&& forall|i: int|
                0 <= i < next.all_kept().len() ==> (#[trigger] next.all_kept()[i]).rarity
                    >= min_rarity
        }),
{
}

/// A full row that was seen before on its page adds nothing.
pub proof fn repeated_rows_add_nothing(rows: Rows)
    requires
        rows.row.len() >= GRID_COLS,
        rows.repeated(),
    ensures
        rows.with_row_closed().kept == rows.kept,
        rows.with_row_closed().seen == rows.seen,
        rows.with_row_closed().pending.len() == 0,
{
}

/// An artifact of a row with eight places waits for the others; with the eighth all
/// of them are kept in their order, unless the row was seen before.
pub proof fn eight_artifacts_make_a_row(
    rows: Rows,
    a: GoodArtifact,
    min_rarity: int,
    go_on: bool,
)
    requires
        rows.row.len() < 8,
        a.rarity >= min_rarity,
    ensures
        ({
            let item = Ok(ArtifactScanResult::Artifact(a));
            let next = rows.after(item, min_rarity, go_on);
            &&& rows.row.len() < 7 ==> {
                &&& next.row == rows.row.push(fingerprint(a))
                &&& next.pending == rows.pending.push(a)
                &&& next.kept == rows.kept
                &&& next.seen == rows.seen
                &&& next.fails == 0
            }
            &&& rows.row.len() == 7 ==> {
                &&& next.row.len() == 0
                &&& next.pending.len() == 0
                &&& next.kept == rows.kept || next.kept == rows.kept + rows.pending + seq![a]
                &&& next.kept != rows.kept ==> next.seen.contains(
                    row_text(rows.row.push(fingerprint(a))),
                )
                &&& rows.seen.len() == 0 ==> next.kept == rows.kept + rows.pending + seq![a]
                &&& next.fails == 0
            }
            &&& rows.action(item, min_rarity, go_on) is Continue
        }),
{
    let text = row_text(rows.row.push(fingerprint(a)));
    assert(rows.kept + rows.pending.push(a) =~= rows.kept + rows.pending + seq![a]);
    let seen = rows.seen.push(text);
    assert(seen[seen.len() - 1] == text);
    if rows.row.len() == 7 && rows.seen.len() == 0 {
        assert(!rows.seen.contains(text));
    }
}

/// Artifacts below the lowest rarity and skipped places fill their row, but nothing
/// of them is kept.
pub proof fn other_places_fill_the_row(rows: Rows, a: GoodArtifact, min_rarity: int, go_on: bool)
    requires
        rows.row.len() < 7,
        a.rarity < min_rarity,
    ensures
        rows.after(Ok(ArtifactScanResult::Artifact(a)), min_rarity, go_on).row == rows.row.push(
            fingerprint(a),
        ),
        rows.after(Ok(ArtifactScanResult::Artifact(a)), min_rarity, go_on).pending == rows.pending,
        rows.after(Ok(ArtifactScanResult::Artifact(a)), min_rarity, go_on).kept == rows.kept,
        rows.after(Ok(ArtifactScanResult::Skip), min_rarity, go_on).row == rows.row.push("skip"@),
        rows.after(Ok(ArtifactScanResult::Skip), min_rarity, go_on).pending == rows.pending,
        rows.after(Ok(ArtifactScanResult::Skip), min_rarity, go_on).kept == rows.kept,
        rows.after(Ok(ArtifactScanResult::Skip), min_rarity, go_on).fails == 0,
{
}

/// A stop ends the scan at once; a failure ends it where it is not to go on, and
/// where it is the tenth in a row, unless the row it ends is a new one.
pub proof fn ten_failures_end_the_rows(
    rows: Rows,
    e: ArtifactError,
    min_rarity: int,
    go_on: bool,
)
    requires
        0 <= rows.fails < 10,
        rows.row.len() < 8,
    ensures
        rows.action(Ok(ArtifactScanResult::Stop), min_rarity, go_on) is Stop,
        rows.after(Ok(ArtifactScanResult::Stop), min_rarity, go_on) == rows,
        rows.action(Ok(ArtifactScanResult::Skip), min_rarity, go_on) is Continue,
        rows.action(Err(e), min_rarity, false) is Stop,
        rows.row.len() < 7 ==> (rows.action(Err(e), min_rarity, true) is Stop <==> rows.fails == 9),
        rows.row.len() < 7 ==> rows.after(Err(e), min_rarity, true).fails == rows.fails + 1,
        rows.after(Err(e), min_rarity, true).kept.len() >= rows.kept.len(),
        rows.row.len() < 7 ==> rows.after(Err(e), min_rarity, true).pending == rows.pending
            && rows.after(Err(e), min_rarity, true).kept == rows.kept,
{
}

/// The next page starts with an empty row; what was kept stays.
pub proof fn pages_start_anew(rows: Rows)
    ensures
        rows.scrolled().kept == rows.kept,
        rows.scrolled().fails == rows.fails,
        rows.scrolled().row.len() == 0,
        rows.scrolled().pending.len() == 0,
        rows.scrolled().seen.len() == 0,
        rows.scrolled().all_kept() == rows.kept,
{
}

/// A last row that is not full counts unless it was seen before on its page.
pub proof fn last_rows_count(rows: Rows)
    requires
        rows.row.len() > 0,
    ensures
        rows.seen.len() == 0 ==> rows.all_kept() == rows.kept + rows.pending,
        rows.seen.contains(row_text(rows.row)) ==> rows.all_kept() == rows.kept,
        rows.seen.contains(row_text(rows.row)) || rows.all_kept() == rows.kept + rows.pending,
{
}

/// Of the artifacts only those with four stars at level zero are dropped whose set
/// has five stars at best; the others stay in their order.
pub proof fn low_artifacts_are_dropped(
    list: Seq<GoodArtifact>,
    a: GoodArtifact,
    best: Map<Seq<char>, i32>,
)
    ensures
        valued(Seq::empty(), best).len() == 0,
        a.rarity != 4 || a.level != 0 || !best.contains_key(a.set_key@) || best[a.set_key@] <= 4
            ==> valued(list.push(a), best) == valued(list, best).push(a),
        a.rarity == 4 && a.level == 0 && best.contains_key(a.set_key@) && best[a.set_key@] >= 5
            ==> valued(list.push(a), best) == valued(list, best),
{
    reveal(Seq::filter);
    assert(list.push(a).drop_last() =~= list);
    assert(list.push(a).last() == a);
}

/// Texts with the same end are told by what stands before it.
proof fn lemma_starts_are_told(x: Seq<char>, y: Seq<char>, s: Seq<char>)
    requires
        x + s == y + s,
    ensures
        x == y,
{
    assert((x + s).len() == x.len() + s.len());
    assert((y + s).len() == y.len() + s.len());
    assert(x =~= (x + s).take(x.len() as int));
    assert(y =~= (y + s).take(y.len() as int));
}

/// Texts with the same start are told by what stands after it.
proof fn lemma_ends_are_told(p: Seq<char>, x: Seq<char>, y: Seq<char>)
    requires
        p + x == p + y,
    ensures
        x == y,
{
    assert((p + x).len() == p.len() + x.len());
    assert((p + y).len() == p.len() + y.len());
    assert(x =~= (p + x).skip(p.len() as int));
    assert(y =~= (p + y).skip(p.len() as int));
}

/// Two artifacts that differ in their set, slot, level, main stat or rarity alone
/// have different texts.
pub proof fn artifacts_are_told_apart(a: GoodArtifact, b: GoodArtifact)
    requires
        a.substats@ == b.substats@,
    ensures
        a.slot_key@ == b.slot_key@ && a.level == b.level && a.main_stat_key@ == b.main_stat_key@
            && a.rarity == b.rarity && a.set_key@ != b.set_key@ ==> fingerprint(a) != fingerprint(
            b,
        ),
        a.set_key@ == b.set_key@ && a.level == b.level && a.main_stat_key@ == b.main_stat_key@
            && a.rarity == b.rarity && a.slot_key@ != b.slot_key@ ==> fingerprint(a)
            != fingerprint(b),
        a.set_key@ == b.set_key@ && a.slot_key@ == b.slot_key@ && a.main_stat_key@
            == b.main_stat_key@ && a.rarity == b.rarity && crate::number::decimal_int(
            a.level as int,
        ) != crate::number::decimal_int(b.level as int) ==> fingerprint(a) != fingerprint(b),
        a.set_key@ == b.set_key@ && a.slot_key@ == b.slot_key@ && a.level == b.level && a.rarity
            == b.rarity && a.main_stat_key@ != b.main_stat_key@ ==> fingerprint(a)
            != fingerprint(b),
        a.set_key@ == b.set_key@ && a.slot_key@ == b.slot_key@ && a.level == b.level
            && a.main_stat_key@ == b.main_stat_key@ && crate::number::decimal_int(a.rarity as int)
            != crate::number::decimal_int(b.rarity as int) ==> fingerprint(a) != fingerprint(b),
{
    let bar = "|"@;
    let rest = list_text(sub_texts(a.substats@), ";"@, a.substats@.len());
    let la = crate::number::decimal_int(a.level as int);
    let lb = crate::number::decimal_int(b.level as int);
    let ra = crate::number::decimal_int(a.rarity as int);
    let rb = crate::number::decimal_int(b.rarity as int);
    if fingerprint(a) == fingerprint(b) {
        let a1 = a.set_key@ + bar;
        let b1 = b.set_key@ + bar;
        let a3 = a1 + a.slot_key@ + bar;
        let b3 = b1 + b.slot_key@ + bar;
        let a5 = a3 + la + bar;
        let b5 = b3 + lb + bar;
        let a7 = a5 + a.main_stat_key@ + bar;
        let b7 = b5 + b.main_stat_key@ + bar;
        lemma_starts_are_told(a7 + ra + bar, b7 + rb + bar, rest);
        lemma_starts_are_told(a7 + ra, b7 + rb, bar);
        if a7 == b7 {
            lemma_ends_are_told(a7, ra, rb);
        }
        if a.rarity == b.rarity {
            lemma_starts_are_told(a7, b7, ra);
            lemma_starts_are_told(a5 + a.main_stat_key@, b5 + b.main_stat_key@, bar);
            if a5 == b5 {
                lemma_ends_are_told(a5, a.main_stat_key@, b.main_stat_key@);
            }
            if a.main_stat_key@ == b.main_stat_key@ {
                lemma_starts_are_told(a5, b5, a.main_stat_key@);
                lemma_starts_are_told(a3 + la, b3 + lb, bar);
                if a3 == b3 {
                    lemma_ends_are_told(a3, la, lb);
                }
                if a.level == b.level {
                    lemma_starts_are_told(a3, b3, la);
                    lemma_starts_are_told(a1 + a.slot_key@, b1 + b.slot_key@, bar);
                    if a1 == b1 {
                        lemma_ends_are_told(a1, a.slot_key@, b.slot_key@);
                    }
                    if a.slot_key@ == b.slot_key@ {
                        lemma_starts_are_told(a1, b1, a.slot_key@);
                        lemma_starts_are_told(a.set_key@, b.set_key@, bar);
                    }
                }
            }
        }
    }
}

/// Two artifacts that differ only in what is written of their substats have
/// different texts.
pub proof fn substats_tell_artifacts_apart(a: GoodArtifact, b: GoodArtifact)
    requires
        a.set_key@ == b.set_key@,
        a.slot_key@ == b.slot_key@,
        a.level == b.level,
        a.main_stat_key@ == b.main_stat_key@,
        a.rarity == b.rarity,
        list_text(sub_texts(a.substats@), ";"@, a.substats@.len()) != list_text(
            sub_texts(b.substats@),
            ";"@,
            b.substats@.len(),
        ),
    ensures
        fingerprint(a) != fingerprint(b),
{
    let bar = "|"@;
    let start = a.set_key@ + bar + a.slot_key@ + bar + crate::number::decimal_int(a.level as int)
        + bar + a.main_stat_key@ + bar + crate::number::decimal_int(a.rarity as int) + bar;
    if fingerprint(a) == fingerprint(b) {
        lemma_ends_are_told(
            start,
            list_text(sub_texts(a.substats@), ";"@, a.substats@.len()),
            list_text(sub_texts(b.substats@), ";"@, b.substats@.len()),
        );
    }
}

/// Two substats that differ in their keys alone, or in what is written of their
/// values alone, are written in different ways.
pub proof fn substats_are_told_apart(s: GoodSubStat, t: GoodSubStat)
    ensures
        s.value == t.value && s.key@ != t.key@ ==> sub_text(s) != sub_text(t),
        s.key@ == t.key@ && value_text(s.value as int) != value_text(t.value as int) ==> sub_text(s)
            != sub_text(t),
{
    if sub_text(s) == sub_text(t) {
        if s.value == t.value {
            lemma_starts_are_told(s.key@ + ":"@, t.key@ + ":"@, value_text(s.value as int));
            lemma_starts_are_told(s.key@, t.key@, ":"@);
        }
        if s.key@ == t.key@ {
            lemma_ends_are_told(
                s.key@ + ":"@,
                value_text(s.value as int),
                value_text(t.value as int),
            );
        }
    }
}

} // verus!
