//! Versions, release tags and downloads.
//!
//! Releases carry the date as their tag (`v2026.03.27`); a build knows it as
//! the number `20260327`. Builds with a smaller number are development builds.
use crate::number::{decimal_chars, padded_chars, parse_u32};
use crate::text::{chars_of, copy_of, find_chars, string_of};
use vstd::prelude::*;
use vstd::string::*;

verus! {

/// The file of a release.
pub const ASSET_NAME: &'static str = "GOODScanner.exe";

/// The page that leads to the latest release.
pub const RELEASES_LATEST_URL: &'static str =
    "https://github.com/Anyrainel/GOODScanner/releases/latest";

/// A download of fewer bytes is an error page or was cut short.
pub const MIN_EXE_SIZE: usize = 1_000_000;

/// The first version number that is no development build.
pub const FIRST_RELEASE: u32 = 20_000_000;

/// Result of an update check.
#[derive(Debug)]
pub enum UpdateStatus {
    /// No newer release.
    UpToDate,
    /// A newer release.
    UpdateAvailable {
        current_version: String,
        latest_version: String,
        download_url: String,
    },
    /// A development build, which is not updated.
    DevBuild,
}

/// Why an update check failed.
#[derive(Debug)]
pub enum UpdateError {
    /// No source gave a release tag.
    NoTag,
    /// The release tag is not a date.
    BadTag(String),
}

/// The text without one `v` at its start.
pub open spec fn without_v(tag: Seq<char>) -> Seq<char> {
    if tag.len() > 0 && tag[0] == 'v' {
        tag.skip(1)
    } else {
        tag
    }
}

/// The number of a date: year, month and day in decimal.
pub open spec fn date_number(year: int, month: int, day: int) -> Option<int> {
    if year >= 2020 && 1 <= month <= 12 && 1 <= day <= 31 && year * 10000 + month * 100 + day
        <= u32::MAX {
        Some(year * 10000 + month * 100 + day)
    } else {
        None
    }
}

/// The number of a release tag: three numbers between points, with or without
/// a `v` before them, that make up a date.
pub open spec fn tag_number(tag: Seq<char>) -> Option<int> {
    let parts = crate::text::pieces(without_v(tag), '.');
    if parts.len() != 3 {
        None
    } else {
        match (
            crate::number::u32_of(parts[0]),
            crate::number::u32_of(parts[1]),
            crate::number::u32_of(parts[2]),
        ) {
            (Some(y), Some(m), Some(d)) => date_number(y, m, d),
            _ => None,
        }
    }
}

/// The number of a release tag like `"v2026.03.27"`.
pub fn parse_calver_tag(tag: &str) -> (n: Option<u32>)
    ensures
        match n {
            Some(n) => tag_number(tag@) == Some(n as int),
            None => tag_number(tag@) is None,
        },
{
    let chars = chars_of(tag);
    let from: usize = if chars.len() > 0 && chars[0] == 'v' {
        1
    } else {
        0
    };
    assert(chars@.skip(from as int) == without_v(tag@));
    let parts = crate::text::split_chars(&chars, from, '.');
    if parts.len() != 3 {
        return None;
    }
    let year: u32 = match parse_u32(&parts[0]) {
        Some(n) => n,
        None => {
            return None;
        },
    };
    let month: u32 = match parse_u32(&parts[1]) {
        Some(n) => n,
        None => {
            return None;
        },
    };
    let day: u32 = match parse_u32(&parts[2]) {
        Some(n) => n,
        None => {
            return None;
        },
    };
    if year < 2020 || month < 1 || month > 12 || day < 1 || day > 31 {
        return None;
    }
    let number: u64 = year as u64 * 10000 + month as u64 * 100 + day as u64;
    if number > 0xffff_ffff {
        return None;
    }
    Some(number as u32)
}

/// The number before the first point of a version.
pub open spec fn major_of(version: Seq<char>) -> Option<int> {
    crate::number::u32_of(crate::text::pieces(version, '.')[0])
}

fn major_number(version: &str) -> (n: Option<u32>)
    ensures
        match n {
            Some(n) => major_of(version@) == Some(n as int),
            None => major_of(version@) is None,
        },
{
    let chars = chars_of(version);
    assert(chars@.skip(0) == version@);
    let parts = crate::text::split_chars(&chars, 0, '.');
    parse_u32(&parts[0])
}

/// The version number of a build, nothing for a development build.
pub fn current_version_int(version: &str) -> (n: Option<u32>)
    ensures
        match n {
            Some(n) => release_of(version@) == Some(n as int),
            None => release_of(version@) is None,
        },
{
    match major_number(version) {
        Some(n) => if n < FIRST_RELEASE {
            None
        } else {
            Some(n)
        },
        None => None,
    }
}

/// The version of a build as it is shown: the date of a release, else the
/// version itself, each behind a `v`.
pub open spec fn shown_version(version: Seq<char>) -> Seq<char> {
    let major = match major_of(version) {
        Some(m) => m,
        None => 0,
    };
    if major >= FIRST_RELEASE {
        seq!['v'] + crate::number::decimal((major / 10000) as nat) + seq!['.']
            + crate::number::padded((major % 10000 / 100) as nat, 2) + seq!['.']
            + crate::number::padded((major % 100) as nat, 2)
    } else {
        seq!['v'] + version
    }
}

/// The version of a build as it is shown.
pub fn current_version_display(version: &str) -> (text: String)
    ensures
        text@ == shown_version(version@),
{
    let major: u32 = match major_number(version) {
        Some(n) => n,
        None => 0,
    };
    let mut text = String::new();
    text.push('v');
    if major >= FIRST_RELEASE {
        let year = string_of(&decimal_chars((major / 10000) as u64));
        let month = string_of(&padded_chars((major % 10000 / 100) as u64, 2));
        let day = string_of(&padded_chars((major % 100) as u64, 2));
        text.append(year.as_str());
        text.push('.');
        text.append(month.as_str());
        text.push('.');
        text.append(day.as_str());
    } else {
        text.append(version);
    }
    assert(text@ =~= shown_version(version@));
    text
}

/// A character at which a tag ends in an address.
pub open spec fn ends_tag(c: char) -> bool {
    c == '/' || c == '?' || c == '#'
}

/// What stands in an address behind the first `/releases/tag/`, up to the next
/// `/`, `?` or `#`.
pub open spec fn tag_part(url: Seq<char>, tag: Seq<char>) -> bool {
    exists|i: int, n: int|
        #![trigger crate::text::first_at(url, "/releases/tag/"@, i), url.subrange(i, n)]
        {
            let from = i + "/releases/tag/"@.len();
            &&& crate::text::first_at(url, "/releases/tag/"@, i)
            &&& from <= n <= url.len()
            &&& tag == url.subrange(from, n)
            &&& forall|k: int| from <= k < n ==> !ends_tag(#[trigger] url[k])
            &&& n < url.len() ==> ends_tag(url[n])
        }
}

/// The release tag in an address.
pub fn extract_tag_from_url(url: &str) -> (tag: Option<String>)
    ensures
        match tag {
            Some(t) => tag_part(url@, t@) && tag_number(t@) is Some,
            None => forall|t: Seq<char>| #[trigger] tag_part(url@, t) ==> tag_number(t) is None,
        },
{
    let chars = chars_of(url);
    let marker = chars_of("/releases/tag/");
    let len: usize = chars.len();
    let at: usize = match find_chars(&chars, &marker) {
        Some(i) => i,
        None => {
            proof {
                assert forall|t: Seq<char>| #[trigger] tag_part(url@, t) implies false by {
                    let i = choose|i: int, n: int|
                        #![trigger crate::text::first_at(url@, "/releases/tag/"@, i), url@.subrange(i, n)]
                        {
                            let from = i + "/releases/tag/"@.len();
                            &&& crate::text::first_at(url@, "/releases/tag/"@, i)
                            &&& from <= n <= url@.len()
                            &&& t == url@.subrange(from, n)
                            &&& forall|k: int| from <= k < n ==> !ends_tag(#[trigger] url@[k])
                            &&& n < url@.len() ==> ends_tag(url@[n])
                        };
                    assert(crate::text::occurs_at(url@, "/releases/tag/"@, i.0));
                }
            }
            return None;
        },
    };
    let from: usize = at + marker.len();
    let mut n: usize = from;
    let mut part: Vec<char> = Vec::new();
    while n < len && chars[n] != '/' && chars[n] != '?' && chars[n] != '#'
        invariant
            from <= n <= len,
            len == chars@.len(),
            part@ == chars@.subrange(from as int, n as int),
            forall|k: int| from <= k < n ==> !ends_tag(#[trigger] chars@[k]),
        decreases len - n,
    {
        part.push(chars[n]);
        n = n + 1;
    }
    proof {
        let ghost g = url@.subrange(at as int, n as int);
        assert(tag_part(url@, part@));
        assert forall|t: Seq<char>| #[trigger] tag_part(url@, t) implies t == part@ by {
            lemma_tag_part_unique(url@, t, part@);
        }
    }
    let tag = string_of(&part);
    if parse_calver_tag(tag.as_str()).is_some() {
        Some(tag)
    } else {
        None
    }
}

proof fn lemma_tag_part_unique(url: Seq<char>, a: Seq<char>, b: Seq<char>)
    requires
        tag_part(url, a),
        tag_part(url, b),
    ensures
        a == b,
{
    let mark = "/releases/tag/"@;
    let (i, n) = choose|i: int, n: int|
        #![trigger crate::text::first_at(url, mark, i), url.subrange(i, n)]
        {
            let from = i + mark.len();
            &&& crate::text::first_at(url, mark, i)
            &&& from <= n <= url.len()
            &&& a == url.subrange(from, n)
            &&& forall|k: int| from <= k < n ==> !ends_tag(#[trigger] url[k])
            &&& n < url.len() ==> ends_tag(url[n])
        };
    let (j, m) = choose|i: int, n: int|
        #![trigger crate::text::first_at(url, mark, i), url.subrange(i, n)]
        {
            let from = i + mark.len();
            &&& crate::text::first_at(url, mark, i)
            &&& from <= n <= url.len()
            &&& b == url.subrange(from, n)
            &&& forall|k: int| from <= k < n ==> !ends_tag(#[trigger] url[k])
            &&& n < url.len() ==> ends_tag(url[n])
        };
    assert(i == j);
    assert(n == m) by {
        if n < m {
            assert(!ends_tag(url[n]));
        }
        if m < n {
            assert(!ends_tag(url[m]));
        }
    }
}

/// A tag, where it is a date.
pub open spec fn dated_tag(tag: String) -> Option<String> {
    if tag_number(tag@) is Some {
        Some(tag)
    } else {
        None
    }
}

/// Keeps a tag that the release service named where it is a date.
pub fn accept_tag(tag: String) -> (kept: Option<String>)
    ensures
        kept == dated_tag(tag),
{
    if parse_calver_tag(tag.as_str()).is_some() {
        Some(tag)
    } else {
        None
    }
}

/// Where the file of a release is found.
pub open spec fn release_url(tag: Seq<char>) -> Seq<char> {
    "https://github.com/Anyrainel/GOODScanner/releases/download/"@ + tag + seq!['/'] + ASSET_NAME@
}

/// What is told of the build and the latest release: a build without a release
/// number is never updated; else the tag that the release service named counts
/// before the one that a redirect led to, and a later one is an update.
pub open spec fn update_told(
    version: Seq<char>,
    api_tag: Option<Seq<char>>,
    redirect_tag: Option<Seq<char>>,
    status: Result<UpdateStatus, UpdateError>,
) -> bool {
    let latest = if api_tag is Some {
        api_tag
    } else {
        redirect_tag
    };
    match major_of(version) {
        Some(current) => if current >= FIRST_RELEASE {
            match latest {
                None => status matches Err(UpdateError::NoTag),
                Some(tag) => match tag_number(tag) {
                    None => status matches Err(UpdateError::BadTag(t)) && t@ == tag,
                    Some(n) => if n <= current {
                        status matches Ok(UpdateStatus::UpToDate)
                    } else {
                        status matches Ok(
                            UpdateStatus::UpdateAvailable {
                                current_version,
                                latest_version,
                                download_url,
                            },
                        ) && current_version@ == shown_version(version) && latest_version@ == tag
                            && download_url@ == release_url(tag)
                    },
                },
            }
        } else {
            status matches Ok(UpdateStatus::DevBuild)
        },
        None => status matches Ok(UpdateStatus::DevBuild),
    }
}

/// Compares the build with the latest release. The tag that the release service
/// named counts before the one that a redirect led to.
pub fn check_for_update(
    version: &str,
    api_tag: Option<String>,
    redirect_tag: Option<String>,
) -> (status: Result<UpdateStatus, UpdateError>)
    ensures
        update_told(
            version@,
            crate::text::text_of(api_tag),
            crate::text::text_of(redirect_tag),
            status,
        ),
{
    let current: u32 = match current_version_int(version) {
        Some(v) => v,
        None => {
            return Ok(UpdateStatus::DevBuild);
        },
    };
    let latest = match api_tag {
        Some(t) => t,
        None => match redirect_tag {
            Some(t) => t,
            None => {
                return Err(UpdateError::NoTag);
            },
        },
    };
    let number: u32 = match parse_calver_tag(latest.as_str()) {
        Some(n) => n,
        None => {
            return Err(UpdateError::BadTag(latest));
        },
    };
    if number <= current {
        return Ok(UpdateStatus::UpToDate);
    }
    let mut url = copy_of("https://github.com/Anyrainel/GOODScanner/releases/download/");
    url.append(latest.as_str());
    url.push('/');
    url.append(ASSET_NAME);
    assert(url@ =~= release_url(latest@));
    Ok(
        UpdateStatus::UpdateAvailable {
            current_version: current_version_display(version),
            latest_version: latest,
            download_url: url,
        },
    )
}

/// How many download sources there are.
pub const SOURCES: usize = 3;

/// What a download source puts before the address: two mirrors, then the
/// address itself.
pub open spec fn source_prefix(i: int) -> Seq<char> {
    if i == 0 {
        "https://ghfast.top/"@
    } else if i == 1 {
        "https://gh-proxy.com/"@
    } else {
        Seq::empty()
    }
}

/// The address at a download source.
pub fn source_url(i: usize, url: &str) -> (out: String)
    ensures
        out@ == source_prefix(i as int) + url@,
{
    let mut out = if i == 0 {
        copy_of("https://ghfast.top/")
    } else if i == 1 {
        copy_of("https://gh-proxy.com/")
    } else {
        String::new()
    };
    out.append(url);
    out
}

/// What is wrong with a download.
#[derive(Debug, Clone, Copy, PartialEq, Eq, Structural)]
pub enum DownloadFault {
    /// It does not start like an executable.
    NotExecutable,
    /// It is too small.
    TooSmall,
}

/// What is wrong with downloaded bytes.
pub open spec fn download_fault(bytes: Seq<u8>) -> Option<DownloadFault> {
    if bytes.len() < 2 || bytes[0] != 0x4D || bytes[1] != 0x5A {
        Some(DownloadFault::NotExecutable)
    } else if bytes.len() < MIN_EXE_SIZE {
        Some(DownloadFault::TooSmall)
    } else {
        None
    }
}

/// What is wrong with downloaded bytes, if anything: an executable starts with
/// `MZ` and has a plausible size.
pub fn check_download(bytes: &[u8]) -> (fault: Option<DownloadFault>)
    ensures
        fault == download_fault(bytes@),
{
    if bytes.len() < 2 || bytes[0] != 0x4D || bytes[1] != 0x5A {
        Some(DownloadFault::NotExecutable)
    } else if bytes.len() < MIN_EXE_SIZE {
        Some(DownloadFault::TooSmall)
    } else {
        None
    }
}

/// What came of a try at a download source.
#[derive(Debug, Clone, Copy, PartialEq, Eq, Structural)]
pub enum Attempt {
    /// All bytes came, and this is wrong with them.
    Received(Option<DownloadFault>),
    /// The source answered with an error.
    Refused,
    /// There was no answer, or it was cut short.
    Failed,
}

/// What to do after a try at a download source.
#[derive(Debug, Clone, Copy, PartialEq, Eq, Structural)]
pub enum DownloadAction {
    /// Put the bytes in place of the running program.
    Install,
    /// Try the source of that number.
    Try(usize),
    /// All sources failed.
    GiveUp,
}

/// How a download goes on after a try at a source.
pub open spec fn next_source(source: int, attempt: Attempt) -> DownloadAction {
    if attempt == Attempt::Received(None) {
        DownloadAction::Install
    } else if source + 1 < SOURCES {
        DownloadAction::Try((source + 1) as usize)
    } else {
        DownloadAction::GiveUp
    }
}

/// Decides how a download goes on: a sound file is installed, anything else
/// leads to the next source, and behind the last one nothing is left.
pub fn after_attempt(source: usize, attempt: Attempt) -> (action: DownloadAction)
    ensures
        action == next_source(source as int, attempt),
{
    match attempt {
        Attempt::Received(None) => DownloadAction::Install,
        _ => {
            if source < SOURCES - 1 {
                DownloadAction::Try(source + 1)
            } else {
                DownloadAction::GiveUp
            }
        },
    }
}

/// What to do after the running program was moved aside and the new one was
/// written in its place.
#[derive(Debug, Clone, Copy, PartialEq, Eq, Structural)]
pub enum InstallAction {
    /// The update is complete.
    Done,
    /// Move the old program back.
    RollBack,
}

/// How an installation ends.
pub open spec fn installed(written: bool) -> InstallAction {
    if written {
        InstallAction::Done
    } else {
        InstallAction::RollBack
    }
}

/// Decides how an installation ends.
pub fn after_write(written: bool) -> (action: InstallAction)
    ensures
        action == installed(written),
{
    if written {
        InstallAction::Done
    } else {
        InstallAction::RollBack
    }
}

/// A release later in the calendar has the larger number.
pub proof fn later_date_is_newer(y1: int, m1: int, d1: int, y2: int, m2: int, d2: int)
    requires
        date_number(y1, m1, d1) is Some,
        date_number(y2, m2, d2) is Some,
    ensures
        date_number(y1, m1, d1)->0 < date_number(y2, m2, d2)->0 <==> (y1 < y2 || (y1 == y2 && (m1
            < m2 || (m1 == m2 && d1 < d2)))),
{
}

/// A tag is a date: its year, month and day with points between them, with or
/// without a letter in front; a date before 2020 or one that does not exist is
/// none.
pub proof fn tags_are_dates(year: Seq<char>, month: Seq<char>, day: Seq<char>, y: int, m: int, d: int)
    requires
        crate::number::u32_of(year) == Some(y),
        crate::number::u32_of(month) == Some(m),
        crate::number::u32_of(day) == Some(d),
        !year.contains('.'),
        !month.contains('.'),
        !day.contains('.'),
        year.len() > 0,
        year[0] != 'v',
        y < 10_000,
    ensures
        ({
            let tag = year.push('.') + (month.push('.') + day);
            let number = if 2020 <= y && 1 <= m <= 12 && 1 <= d <= 31 {
                Some(10_000 * y + 100 * m + d)
            } else {
                None
            };
            &&& tag_number(tag) == number
            &&& tag_number(seq!['v'] + tag) == number
        }),
{
    let rest = month.push('.') + day;
    let tag = year.push('.') + rest;
    crate::text_laws::texts_are_cut_at_separators(month, day, '.');
    crate::text_laws::texts_are_cut_at_separators(day, day, '.');
    crate::text_laws::texts_are_cut_at_separators(year, rest, '.');
    assert(crate::text::pieces(tag, '.') =~= seq![year, month, day]);
    assert(tag[0] == year[0]);
    assert((seq!['v'] + tag).skip(1) =~= tag);
}

/// A build tells of an update exactly where it is a release and the latest one is
/// later; the file of an update is that of its tag.
pub proof fn later_releases_are_updates(
    version: Seq<char>,
    api_tag: Option<Seq<char>>,
    redirect_tag: Option<Seq<char>>,
    status: Result<UpdateStatus, UpdateError>,
    current: int,
)
    requires
        update_told(version, api_tag, redirect_tag, status),
        major_of(version) == Some(current),
    ensures
        current < 20_000_000 ==> status matches Ok(UpdateStatus::DevBuild),
        current >= 20_000_000 && api_tag is None && redirect_tag is None ==> status matches Err(
            UpdateError::NoTag,
        ),
        current >= 20_000_000 && (api_tag matches Some(tag) && tag_number(tag) matches Some(n) && n
            > current) ==> (status matches Ok(
            UpdateStatus::UpdateAvailable { latest_version, download_url, .. },
        ) && latest_version@ == api_tag->0 && download_url@
            == "https://github.com/Anyrainel/GOODScanner/releases/download/"@ + api_tag->0 + "/"@
            + "GOODScanner.exe"@),
        current >= 20_000_000 && (api_tag matches Some(tag) && tag_number(tag) matches Some(n) && n
            <= current) ==> status matches Ok(UpdateStatus::UpToDate),
        current >= 20_000_000 && api_tag is None && (redirect_tag matches Some(tag) && tag_number(
            tag,
        ) matches Some(n) && n > current) ==> status matches Ok(
            UpdateStatus::UpdateAvailable { .. },
        ),
        current >= 20_000_000 && api_tag is None && (redirect_tag matches Some(tag) && tag_number(
            tag,
        ) matches Some(n) && n <= current) ==> status matches Ok(UpdateStatus::UpToDate),
{
    reveal_strlit("/");
    assert("/"@ =~= seq!['/']);
}

/// A download is sound where it starts like an executable and has at least a
/// million bytes.
pub proof fn sound_downloads_are_executables(bytes: Seq<u8>)
    ensures
        download_fault(bytes) is None <==> bytes.len() >= 1_000_000 && bytes[0] as int == 'M' as int
            && bytes[1] as int == 'Z' as int,
        download_fault(bytes) == Some(DownloadFault::TooSmall) <==> 2 <= bytes.len() < 1_000_000
            && bytes[0] as int == 'M' as int && bytes[1] as int == 'Z' as int,
{
}

/// A sound file is installed, whatever source it came from; else the three
/// sources are tried one after the other, two mirrors before the address itself.
pub proof fn three_sources_are_tried(source: int, attempt: Attempt)
    requires
        0 <= source < 3,
    ensures
        attempt == Attempt::Received(None) ==> next_source(source, attempt)
            == DownloadAction::Install,
        attempt != Attempt::Received(None) ==> next_source(source, attempt) == if source == 2 {
            DownloadAction::GiveUp
        } else {
            DownloadAction::Try((source + 1) as usize)
        },
        source_prefix(2).len() == 0,
        source_prefix(0) == "https://ghfast.top/"@,
        source_prefix(1) == "https://gh-proxy.com/"@,
{
}

/// A release is shown as its date, with two digits for month and day.
pub proof fn releases_are_shown_as_dates(version: Seq<char>, y: nat, m: nat, d: nat)
    requires
        2000 <= y,
        m < 100,
        d < 100,
        major_of(version) == Some((10_000 * y + 100 * m + d) as int),
    ensures
        shown_version(version) == seq!['v'] + crate::number::decimal(y) + seq!['.']
            + crate::number::padded(m, 2) + seq!['.'] + crate::number::padded(d, 2),
{
    let n = (10_000 * y + 100 * m + d) as int;
    assert(n / 10_000 == y);
    assert(n % 10_000 / 100 == m);
    assert(n % 100 == d);
}

/// The number of the release that a build is, where it is one.
pub open spec fn release_of(version: Seq<char>) -> Option<int> {
    match major_of(version) {
        Some(m) => if m < FIRST_RELEASE {
            None
        } else {
            Some(m)
        },
        None => None,
    }
}

/// A build is a release where its version starts with the number of a date; any
/// other build has no release to be compared with.
pub proof fn releases_have_the_number_of_a_date(version: Seq<char>, m: int)
    requires
        major_of(version) == Some(m),
    ensures
        m >= 20_000_000 ==> release_of(version) == Some(m),
        m < 20_000_000 ==> release_of(version) is None,
{
}

/// A tag that is no date is not kept, and a download that could not be written is
/// rolled back.
pub proof fn only_sound_steps_are_kept(tag: String)
    ensures
        tag_number(tag@) is None <==> dated_tag(tag) is None,
        dated_tag(tag) matches Some(t) ==> t == tag,
        installed(true) is Done,
        installed(false) is RollBack,
{
}

/// A release is downloaded from the folder of its tag.
pub proof fn releases_are_downloaded_by_their_tag(tag: Seq<char>)
    ensures
        release_url(tag) == "https://github.com/Anyrainel/GOODScanner/releases/download/"@ + tag
            + "/GOODScanner.exe"@,
{
    reveal_strlit("/GOODScanner.exe");
    reveal_strlit("GOODScanner.exe");
    assert(seq!['/'] + "GOODScanner.exe"@ =~= "/GOODScanner.exe"@);
    assert(release_url(tag) =~= "https://github.com/Anyrainel/GOODScanner/releases/download/"@ + tag
        + (seq!['/'] + "GOODScanner.exe"@));
}

} // verus!
