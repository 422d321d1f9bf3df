//! Which scans to run, and the name of the export.
use crate::number::padded_chars;
use crate::scanner::common::mappings::NameOverrides;
use crate::text::{copy_of, string_of};
use vstd::prelude::*;
use vstd::string::*;

verus! {

/// Settings of the application.
#[derive(Clone, Debug)]
pub struct GoodScannerConfig {
    pub scan_characters: bool,
    pub scan_weapons: bool,
    pub scan_artifacts: bool,
    /// Scan everything.
    pub scan_all: bool,
    /// Where the export goes.
    pub output_dir: String,
    /// The names that the player gave.
    pub traveler_name: Option<String>,
    pub wanderer_name: Option<String>,
    pub manekin_name: Option<String>,
    pub manekina_name: Option<String>,
}

/// Which scans to run.
#[derive(Debug, Clone, Copy, PartialEq, Eq, Structural)]
pub struct ScanPlan {
    pub characters: bool,
    pub weapons: bool,
    pub artifacts: bool,
    /// The backpack is already open when the artifact scan starts.
    pub backpack_open: bool,
}

impl GoodScannerConfig {
    /// Everything is scanned: it was asked for, or nothing was.
    pub open spec fn scans_all(&self) -> bool {
        self.scan_all || (!self.scan_characters && !self.scan_weapons && !self.scan_artifacts)
    }

    /// Which scans are run.
    pub open spec fn planned(&self) -> ScanPlan {
        ScanPlan {
            characters: self.scan_characters || self.scans_all(),
            weapons: self.scan_weapons || self.scans_all(),
            artifacts: self.scan_artifacts || self.scans_all(),
            backpack_open: self.scan_weapons || self.scans_all(),
        }
    }

    /// Which scans to run: those that were asked for, and all of them where none
    /// was. After weapons the backpack is still open.
    pub fn scan_plan(&self) -> (plan: ScanPlan)
        ensures
            plan == self.planned(),
    {
        let all = self.scan_all || (!self.scan_characters && !self.scan_weapons
            && !self.scan_artifacts);
        let weapons = self.scan_weapons || all;
        ScanPlan {
            characters: self.scan_characters || all,
            weapons,
            artifacts: self.scan_artifacts || all,
            backpack_open: weapons,
        }
    }

    /// The names that the player gave.
    pub fn name_overrides(&self) -> (o: NameOverrides)
        ensures
            o.traveler_name == self.traveler_name,
            o.wanderer_name == self.wanderer_name,
            o.manekin_name == self.manekin_name,
            o.manekina_name == self.manekina_name,
    {
        NameOverrides {
            traveler_name: self.traveler_name.clone(),
            wanderer_name: self.wanderer_name.clone(),
            manekin_name: self.manekin_name.clone(),
            manekina_name: self.manekina_name.clone(),
        }
    }
}

/// A leap year of the Gregorian calendar.
pub open spec fn leap(y: int) -> bool {
    (y % 4 == 0 && y % 100 != 0) || y % 400 == 0
}

/// Whether a year is a leap year.
pub fn is_leap(y: i64) -> (yes: bool)
    requires
        y >= 0,
    ensures
        yes == leap(y as int),
{
    (y % 4 == 0 && y % 100 != 0) || y % 400 == 0
}

/// How many days a year has.
pub open spec fn year_days(y: int) -> int {
    if leap(y) {
        366
    } else {
        365
    }
}

/// How many days a month has.
pub open spec fn month_days(y: int, m: int) -> int {
    if m == 2 {
        if leap(y) {
            29
        } else {
            28
        }
    } else if m == 4 || m == 6 || m == 9 || m == 11 {
        30
    } else {
        31
    }
}

/// The days from the first day of 1970 to the first day of a year.
pub open spec fn days_before_year(y: int) -> int
    decreases y - 1970,
{
    if y <= 1970 {
        0
    } else {
        days_before_year(y - 1) + year_days(y - 1)
    }
}

/// The days from the first day of a year to the first day of a month.
pub open spec fn days_before_month(y: int, m: int) -> int
    decreases m,
{
    if m <= 1 {
        0
    } else {
        days_before_month(y, m - 1) + month_days(y, m - 1)
    }
}

/// The date lies so many days behind the first day of 1970.
pub open spec fn is_date(days: int, y: int, m: int, d: int) -> bool {
    &&& y >= 1970
    &&& 1 <= m <= 12
    &&& 1 <= d <= month_days(y, m)
    &&& days == days_before_year(y) + days_before_month(y, m) + d - 1
}

/// A moment as text: `2024-01-15_12-30-45`.
pub open spec fn stamp_text(y: int, m: int, d: int, secs: int) -> Seq<char> {
    crate::number::padded(y as nat, 4) + seq!['-'] + crate::number::padded(m as nat, 2) + seq!['-']
        + crate::number::padded(d as nat, 2) + seq!['_'] + crate::number::padded(
        (secs / 3600) as nat,
        2,
    ) + seq!['-'] + crate::number::padded((secs % 3600 / 60) as nat, 2) + seq!['-']
        + crate::number::padded((secs % 60) as nat, 2)
}

fn days_in_month(y: i64, m: i64) -> (d: i64)
    requires
        y >= 0,
    ensures
        d == month_days(y as int, m as int),
        28 <= d <= 31,
{
    if m == 2 {
        if is_leap(y) {
            29
        } else {
            28
        }
    } else if m == 4 || m == 6 || m == 9 || m == 11 {
        30
    } else {
        31
    }
}

proof fn lemma_months_fill_year(y: int)
    ensures
        days_before_month(y, 12) + month_days(y, 12) == year_days(y),
{
    reveal_with_fuel(days_before_month, 13);
}

fn push_padded(out: &mut String, n: u64, width: usize)
    ensures
        final(out)@ == old(out)@ + crate::number::padded(n as nat, width as nat),
{
    let chars = padded_chars(n, width);
    out.append(string_of(&chars).as_str());
}

/// A moment, in seconds since the start of 1970, as text.
pub fn chrono_timestamp(now_secs: u64) -> (text: String)
    ensures
        exists|y: int, m: int, d: int| #[trigger]
            is_date(now_secs as int / 86400, y, m, d) && text@ == stamp_text(
                y,
                m,
                d,
                now_secs as int % 86400,
            ),
{
    let days: i64 = (now_secs / 86400) as i64;
    let secs: u64 = now_secs % 86400;
    let mut y: i64 = 1970;
    let mut d: i64 = days;
    while d >= 365 && (d >= 366 || !is_leap(y))
        invariant
            1970 <= y <= 1970 + days - d,
            0 <= d <= days <= 0xffff_ffff_ffff,
            days == days_before_year(y as int) + d,
        decreases d,
    {
        let len: i64 = if is_leap(y) {
            366
        } else {
            365
        };
        d = d - len;
        y = y + 1;
    }
    let ghost year_day = d as int;
    let mut m: i64 = 1;
    proof {
        lemma_months_fill_year(y as int);
    }
    while m < 12 && d >= days_in_month(y, m)
        invariant
            y >= 1970,
            1 <= m <= 12,
            0 <= d,
            0 <= year_day < year_days(y as int),
            days_before_month(y as int, 12) + month_days(y as int, 12) == year_days(y as int),
            year_day == days_before_month(y as int, m as int) + d,
        decreases 12 - m,
    {
        d = d - days_in_month(y, m);
        m = m + 1;
    }
    assert(is_date(days as int, y as int, m as int, d + 1));
    let mut text = String::new();
    push_padded(&mut text, y as u64, 4);
    text.push('-');
    push_padded(&mut text, m as u64, 2);
    text.push('-');
    push_padded(&mut text, (d + 1) as u64, 2);
    text.push('_');
    push_padded(&mut text, secs / 3600, 2);
    text.push('-');
    push_padded(&mut text, secs % 3600 / 60, 2);
    text.push('-');
    push_padded(&mut text, secs % 60, 2);
    proof {
        assert(secs as int == now_secs as int % 86400);
        assert(text@ =~= stamp_text(y as int, m as int, d + 1, secs as int));
    }
    text
}

/// The name of the export file.
pub fn export_filename(timestamp: &str) -> (name: String)
    ensures
        name@ == "good_export_"@ + timestamp@ + ".json"@,
{
    let mut name = copy_of("good_export_");
    name.append(timestamp);
    name.append(".json");
    name
}

proof fn lemma_year_order(a: int, b: int)
    requires
        1970 <= a < b,
    ensures
        days_before_year(a) + year_days(a) <= days_before_year(b),
    decreases b,
{
    if a + 1 < b {
        lemma_year_order(a, b - 1);
    }
}

proof fn lemma_month_order(y: int, a: int, b: int)
    requires
        1 <= a < b <= 12,
    ensures
        days_before_month(y, a) + month_days(y, a) <= days_before_month(y, b),
    decreases b,
{
    if a + 1 < b {
        lemma_month_order(y, a, b - 1);
    }
}

proof fn lemma_day_of_year(y: int, m: int, d: int)
    requires
        1 <= m <= 12,
        1 <= d <= month_days(y, m),
    ensures
        0 <= days_before_month(y, m) + d - 1 < year_days(y),
{
    lemma_months_fill_year(y);
    if m < 12 {
        lemma_month_order(y, m, 12);
    }
    lemma_month_nonneg(y, m);
}

proof fn lemma_month_nonneg(y: int, m: int)
    ensures
        days_before_month(y, m) >= 0,
    decreases m,
{
    if m > 1 {
        lemma_month_nonneg(y, m - 1);
    }
}

/// A day has one date only.
pub proof fn date_is_unique(days: int, y1: int, m1: int, d1: int, y2: int, m2: int, d2: int)
    requires
        is_date(days, y1, m1, d1),
        is_date(days, y2, m2, d2),
    ensures
        y1 == y2,
        m1 == m2,
        d1 == d2,
{
    lemma_day_of_year(y1, m1, d1);
    lemma_day_of_year(y2, m2, d2);
    if y1 < y2 {
        lemma_year_order(y1, y2);
    } else if y2 < y1 {
        lemma_year_order(y2, y1);
    } else if m1 < m2 {
        lemma_month_order(y1, m1, m2);
    } else if m2 < m1 {
        lemma_month_order(y1, m2, m1);
    }
}

/// What was asked for is scanned, all where that or nothing was asked for, and
/// nothing else; the backpack is open for the artifacts exactly after weapons.
pub proof fn what_was_asked_for_is_scanned(config: GoodScannerConfig)
    ensures
        ({
            let plan = config.planned();
            &&& config.scan_characters ==> plan.characters
            &&& config.scan_weapons ==> plan.weapons
            &&& config.scan_artifacts ==> plan.artifacts
            &&& config.scan_all ==> plan.characters && plan.weapons && plan.artifacts
            &&& plan.characters || plan.weapons || plan.artifacts
            &&& !config.scan_all && (config.scan_characters || config.scan_weapons
                || config.scan_artifacts) ==> plan.characters == config.scan_characters
                && plan.weapons == config.scan_weapons && plan.artifacts == config.scan_artifacts
            &&& !config.scan_characters && !config.scan_weapons && !config.scan_artifacts
                ==> plan.characters && plan.weapons && plan.artifacts
            &&& plan.backpack_open == plan.weapons
        }),
{
}

/// Years have 365 days, and one more every fourth year but for three centuries in
/// four; the months of a year together have its days.
pub proof fn years_have_their_days(y: int)
    requires
        y >= 0,
    ensures
        y % 4 != 0 ==> year_days(y) == 365,
        y % 4 == 0 && y % 100 != 0 ==> year_days(y) == 366,
        y % 100 == 0 ==> year_days(y) == if y % 400 == 0 {
            366int
        } else {
            365
        },
        days_before_month(y, 12) + month_days(y, 12) == year_days(y),
        days_before_month(y, 1) == 0,
        days_before_month(y, 2) == 31,
        days_before_month(y, 3) == year_days(y) - 306,
        days_before_month(y, 7) == year_days(y) - 184,
        days_before_month(y, 8) == year_days(y) - 153,
        days_before_month(y, 10) == year_days(y) - 92,
{
    reveal_with_fuel(days_before_month, 13);
}

/// The first day is that of the year 1970, and each day is followed by the next
/// day of the month, the first of the next month, or the first of the next year.
pub proof fn days_follow_each_other(days: int, y: int, m: int, d: int)
    requires
        is_date(days, y, m, d),
    ensures
        is_date(0, 1970, 1, 1),
        d < month_days(y, m) ==> is_date(days + 1, y, m, d + 1),
        d == month_days(y, m) && m < 12 ==> is_date(days + 1, y, m + 1, 1),
        d == month_days(y, m) && m == 12 ==> is_date(days + 1, y + 1, 1, 1),
{
    years_have_their_days(y);
    assert(days_before_year(1970) == 0);
    assert(days_before_month(1970, 1) == 0);
    if m < 12 {
        assert(days_before_month(y, m + 1) == days_before_month(y, m) + month_days(y, m));
    } else {
        assert(days_before_month(y + 1, 1) == 0);
        assert(days_before_year(y + 1) == days_before_year(y) + year_days(y));
    }
}

/// A time stamp tells the date and then the time of the day, of which the seconds
/// are those from midnight on.
pub proof fn stamps_tell_date_and_time(y: int, m: int, d: int, h: int, min: int, s: int)
    requires
        0 <= h < 24,
        0 <= min < 60,
        0 <= s < 60,
    ensures
        stamp_text(y, m, d, 3600 * h + 60 * min + s) == crate::number::padded(y as nat, 4) + seq![
            '-',
        ] + crate::number::padded(m as nat, 2) + seq!['-'] + crate::number::padded(d as nat, 2)
            + seq!['_'] + crate::number::padded(h as nat, 2) + seq!['-'] + crate::number::padded(
            min as nat,
            2,
        ) + seq!['-'] + crate::number::padded(s as nat, 2),
{
    let t = 3600 * h + 60 * min + s;
    assert(t / 3600 == h);
    assert(t % 3600 / 60 == min);
    assert(t % 60 == s);
}

} // verus!
