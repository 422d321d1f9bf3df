//! Jobs, their results, and what the server knows of them.
use crate::number::{decimal_chars, decimal_int_chars, padded_chars};
use crate::scanner::common::models::GoodArtifact;
use crate::text::{append, copy_of, joined, same_text, string_of, trim_text};
use vstd::prelude::*;

verus! {

/// What became of one instruction.
#[derive(Debug, Clone, Copy, PartialEq, Eq, Structural)]
pub enum InstructionStatus {
    Success,
    AlreadyCorrect,
    NotFound,
    UiError,
    Aborted,
}

/// What became of one instruction.
#[derive(Debug, Clone)]
pub struct InstructionResult {
    pub id: String,
    pub status: InstructionStatus,
}

/// How many instructions had which result.
#[derive(Debug, Clone, Copy, PartialEq, Eq, Structural)]
pub struct ManageSummary {
    pub total: usize,
    pub success: usize,
    pub already_correct: usize,
    pub not_found: usize,
    pub errors: usize,
    pub aborted: usize,
}

/// The results of a job.
#[derive(Debug, Clone)]
pub struct ManageResult {
    pub results: Vec<InstructionResult>,
    pub summary: ManageSummary,
}

/// How many of the first `n` instructions had this result.
pub open spec fn count_of(
    results: Seq<InstructionResult>,
    status: InstructionStatus,
    n: nat,
) -> nat
    decreases n,
{
    if n == 0 {
        0
    } else {
        count_of(results, status, (n - 1) as nat) + if results[n - 1].status == status {
            1nat
        } else {
            0nat
        }
    }
}

/// The summary counts the results.
pub open spec fn summarises(summary: ManageSummary, results: Seq<InstructionResult>) -> bool {
    let n = results.len();
    &&& summary.total == n
    &&& summary.success == count_of(results, InstructionStatus::Success, n)
    &&& summary.already_correct == count_of(results, InstructionStatus::AlreadyCorrect, n)
    &&& summary.not_found == count_of(results, InstructionStatus::NotFound, n)
    &&& summary.errors == count_of(results, InstructionStatus::UiError, n)
    &&& summary.aborted == count_of(results, InstructionStatus::Aborted, n)
}

impl ManageSummary {
    /// Counts the results.
    pub fn from_results(results: &Vec<InstructionResult>) -> (s: Self)
        ensures
            summarises(s, results@),
    {
        let mut s = ManageSummary {
            total: results.len(),
            success: 0,
            already_correct: 0,
            not_found: 0,
            errors: 0,
            aborted: 0,
        };
        let mut i: usize = 0;
        while i < results.len()
            invariant
                i <= results@.len(),
                s.total == results@.len(),
                s.success == count_of(results@, InstructionStatus::Success, i as nat),
                s.already_correct == count_of(
                    results@,
                    InstructionStatus::AlreadyCorrect,
                    i as nat,
                ),
                s.not_found == count_of(results@, InstructionStatus::NotFound, i as nat),
                s.errors == count_of(results@, InstructionStatus::UiError, i as nat),
                s.aborted == count_of(results@, InstructionStatus::Aborted, i as nat),
                s.success + s.already_correct + s.not_found + s.errors + s.aborted == i,
            decreases results@.len() - i,
        {
            match results[i].status {
                InstructionStatus::Success => {
                    s.success = s.success + 1;
                },
                InstructionStatus::AlreadyCorrect => {
                    s.already_correct = s.already_correct + 1;
                },
                InstructionStatus::NotFound => {
                    s.not_found = s.not_found + 1;
                },
                InstructionStatus::UiError => {
                    s.errors = s.errors + 1;
                },
                InstructionStatus::Aborted => {
                    s.aborted = s.aborted + 1;
                },
            }
            i = i + 1;
        }
        s
    }
}

/// Every instruction is counted once.
pub proof fn summary_counts_all(summary: ManageSummary, results: Seq<InstructionResult>)
    requires
        summarises(summary, results),
    ensures
        summary.success + summary.already_correct + summary.not_found + summary.errors
            + summary.aborted == summary.total,
        summary.total == results.len(),
{
    lemma_counts(results, results.len());
}

proof fn lemma_counts(results: Seq<InstructionResult>, n: nat)
    requires
        n <= results.len(),
    ensures
        count_of(results, InstructionStatus::Success, n) + count_of(
            results,
            InstructionStatus::AlreadyCorrect,
            n,
        ) + count_of(results, InstructionStatus::NotFound, n) + count_of(
            results,
            InstructionStatus::UiError,
            n,
        ) + count_of(results, InstructionStatus::Aborted, n) == n,
    decreases n,
{
    if n > 0 {
        lemma_counts(results, (n - 1) as nat);
    }
}

/// A job to lock and unlock artifacts.
#[derive(Debug, Clone)]
pub struct LockManageRequest {
    pub lock: Vec<GoodArtifact>,
    pub unlock: Vec<GoodArtifact>,
}

/// An artifact and who is to wear it.
#[derive(Debug, Clone)]
pub struct EquipInstruction {
    pub artifact: GoodArtifact,
    pub location: String,
}

/// A job to equip artifacts.
#[derive(Debug, Clone)]
pub struct EquipRequest {
    pub equip: Vec<EquipInstruction>,
}

/// A job.
#[derive(Debug)]
pub enum JobRequest {
    Manage(LockManageRequest),
    Equip(EquipRequest),
}

/// How many instructions a job has.
pub open spec fn job_size(job: JobRequest) -> int {
    match job {
        JobRequest::Manage(r) => (r.lock@.len() + r.unlock@.len()) as int,
        JobRequest::Equip(r) => r.equip@.len() as int,
    }
}

/// The job changes what is in the game.
pub open spec fn job_changes_game(job: JobRequest) -> bool {
    match job {
        JobRequest::Manage(r) => r.lock@.len() > 0 || r.unlock@.len() > 0,
        JobRequest::Equip(_) => true,
    }
}

/// Whether the job changes what is in the game.
pub fn changes_game(job: &JobRequest) -> (yes: bool)
    ensures
        yes == job_changes_game(*job),
{
    match job {
        JobRequest::Manage(r) => r.lock.len() > 0 || r.unlock.len() > 0,
        JobRequest::Equip(_) => true,
    }
}

/// Where a job stands.
#[derive(Debug, Clone, Copy, PartialEq, Eq, Structural)]
pub enum JobPhase {
    Idle,
    Running,
    Completed,
}

/// How far a job is.
#[derive(Debug, Clone)]
pub struct JobProgress {
    pub completed: usize,
    pub total: usize,
    pub current_id: String,
    pub phase: String,
}

/// What is known of the last job.
#[derive(Debug)]
pub struct JobState {
    pub state: JobPhase,
    pub job_id: Option<String>,
    pub progress: Option<JobProgress>,
    pub result: Option<ManageResult>,
}

impl JobState {
    /// No job has its result before it is completed, and a job has its name.
    pub open spec fn valid(&self) -> bool {
        match self.state {
            JobPhase::Idle => self.job_id is None && self.result is None,
            JobPhase::Running => self.job_id is Some && self.result is None,
            JobPhase::Completed => self.job_id is Some && self.result is Some,
        }
    }

    /// No job was submitted.
    pub fn idle() -> (s: Self)
        ensures
            s.valid(),
            s.state is Idle,
            s.progress is None,
    {
        JobState { state: JobPhase::Idle, job_id: None, progress: None, result: None }
    }

    /// A job of so many instructions has started.
    pub fn running(job_id: String, total: usize) -> (s: Self)
        ensures
            s.valid(),
            s.state is Running,
            s.job_id == Some(job_id),
            s.progress matches Some(p) && p.completed == 0 && p.total == total
                && p.current_id@.len() == 0 && p.phase@.len() == 0,
    {
        JobState {
            state: JobPhase::Running,
            job_id: Some(job_id),
            progress: Some(
                JobProgress {
                    completed: 0,
                    total,
                    current_id: String::new(),
                    phase: String::new(),
                },
            ),
            result: None,
        }
    }

    /// A job has ended.
    pub fn completed(job_id: String, result: ManageResult) -> (s: Self)
        ensures
            s.valid(),
            s.state is Completed,
            s.job_id == Some(job_id),
            s.result == Some(result),
            s.progress is None,
    {
        JobState {
            state: JobPhase::Completed,
            job_id: Some(job_id),
            progress: None,
            result: Some(result),
        }
    }
}

/// The result of a job whose game could not be reached: an error for each
/// instruction, numbered from zero.
pub open spec fn all_failed(result: ManageResult, n: int) -> bool {
    &&& result.results@.len() == n
    &&& forall|i: int|
        0 <= i < n ==> (#[trigger] result.results@[i]).status == InstructionStatus::UiError
            && result.results@[i].id@ == "item_"@ + crate::number::decimal(i as nat)
    &&& summarises(result.summary, result.results@)
}

/// The result of a job whose game could not be reached.
pub fn init_failure(n: usize) -> (result: ManageResult)
    ensures
        all_failed(result, n as int),
{
    let mut results: Vec<InstructionResult> = Vec::new();
    let mut i: usize = 0;
    while i < n
        invariant
            i <= n,
            results@.len() == i,
            forall|k: int|
                0 <= k < i ==> (#[trigger] results@[k]).status == InstructionStatus::UiError
                    && results@[k].id@ == "item_"@ + crate::number::decimal(k as nat),
        decreases n - i,
    {
        let number = string_of(&decimal_chars(i as u64));
        let id = joined("item_", number.as_str());
        results.push(InstructionResult { id, status: InstructionStatus::UiError });
        i = i + 1;
    }
    let summary = ManageSummary::from_results(&results);
    ManageResult { results, summary }
}

/// An empty text, by its white space too.
pub open spec fn blank(text: Seq<char>) -> bool {
    crate::text::trimmed(text).len() == 0
}

fn is_blank(text: &str) -> (yes: bool)
    ensures
        yes == blank(text@),
{
    let bare = trim_text(text);
    bare.as_str().is_empty()
}

/// What is wrong with an artifact of a request.
pub open spec fn artifact_fault(a: GoodArtifact) -> Option<Seq<char>> {
    if blank(a.set_key@) {
        Some("empty setKey"@)
    } else if blank(a.slot_key@) {
        Some("empty slotKey"@)
    } else if blank(a.main_stat_key@) {
        Some("empty mainStatKey"@)
    } else if a.rarity < 4 || a.rarity > 5 {
        Some(
            "invalid rarity: "@ + crate::number::decimal_int(a.rarity as int) + " (must be 4-5)"@,
        )
    } else if a.level < 0 || a.level > 20 {
        Some("invalid level: "@ + crate::number::decimal_int(a.level as int) + " (must be 0-20)"@)
    } else {
        None
    }
}

/// What is wrong with an artifact of a request.
pub fn validate_artifact(a: &GoodArtifact) -> (fault: Option<String>)
    ensures
        crate::text::text_of(fault) == artifact_fault(*a),
{
    if is_blank(a.set_key.as_str()) {
        return Some(copy_of("empty setKey"));
    }
    if is_blank(a.slot_key.as_str()) {
        return Some(copy_of("empty slotKey"));
    }
    if is_blank(a.main_stat_key.as_str()) {
        return Some(copy_of("empty mainStatKey"));
    }
    if a.rarity < 4 || a.rarity > 5 {
        let number = string_of(&decimal_int_chars(a.rarity as i64));
        let mut text = joined("invalid rarity: ", number.as_str());
        append(&mut text, " (must be 4-5)");
        return Some(text);
    }
    if a.level < 0 || a.level > 20 {
        let number = string_of(&decimal_int_chars(a.level as i64));
        let mut text = joined("invalid level: ", number.as_str());
        append(&mut text, " (must be 0-20)");
        return Some(text);
    }
    None
}

/// The artifacts of instructions.
pub open spec fn artifacts_of(list: Seq<EquipInstruction>) -> Seq<GoodArtifact> {
    Seq::new(list.len(), |i: int| list[i].artifact)
}

/// The first artifact of a list with a fault, from `i` on, as it is reported.
pub open spec fn first_fault(
    name: Seq<char>,
    list: Seq<GoodArtifact>,
    i: int,
) -> Option<Seq<char>>
    decreases list.len() - i,
{
    if i < 0 || i >= list.len() {
        None
    } else {
        match artifact_fault(list[i]) {
            Some(fault) => Some(name + "["@ + crate::number::decimal(i as nat) + "]: "@ + fault),
            None => first_fault(name, list, i + 1),
        }
    }
}

/// A fault of an artifact in a list, as it is reported.
fn report_fault(name: &str, i: usize, fault: &str) -> (text: String)
    ensures
        text@ == name@ + "["@ + crate::number::decimal(i as nat) + "]: "@ + fault@,
{
    let mut text = joined(name, "[");
    let number = string_of(&decimal_chars(i as u64));
    append(&mut text, number.as_str());
    append(&mut text, "]: ");
    append(&mut text, fault);
    text
}

/// The first artifact of a list with a fault.
pub fn find_fault(name: &str, list: &Vec<GoodArtifact>) -> (fault: Option<String>)
    ensures
        crate::text::text_of(fault) == first_fault(name@, list@, 0),
{
    let mut i: usize = 0;
    while i < list.len()
        invariant
            i <= list@.len(),
            first_fault(name@, list@, 0) == first_fault(name@, list@, i as int),
        decreases list@.len() - i,
    {
        match validate_artifact(&list[i]) {
            Some(fault) => {
                return Some(report_fault(name, i, fault.as_str()));
            },
            None => {},
        }
        i = i + 1;
    }
    None
}

/// The first instruction with a faulty artifact.
pub fn find_equip_fault(list: &Vec<EquipInstruction>) -> (fault: Option<String>)
    ensures
        crate::text::text_of(fault) == first_fault("equip"@, artifacts_of(list@), 0),
{
    let ghost all = artifacts_of(list@);
    let mut i: usize = 0;
    while i < list.len()
        invariant
            i <= list@.len(),
            all == artifacts_of(list@),
            first_fault("equip"@, all, 0) == first_fault("equip"@, all, i as int),
        decreases list@.len() - i,
    {
        assert(all[i as int] == list@[i as int].artifact);
        match validate_artifact(&list[i].artifact) {
            Some(fault) => {
                return Some(report_fault("equip", i, fault.as_str()));
            },
            None => {},
        }
        i = i + 1;
    }
    None
}

/// The time of day for the name of a file: hours, minutes, seconds and
/// milliseconds.
pub open spec fn time_text(secs: int, millis: int) -> Seq<char> {
    crate::number::padded(((secs / 3600) % 24) as nat, 2) + "-"@ + crate::number::padded(
        ((secs / 60) % 60) as nat,
        2,
    ) + "-"@ + crate::number::padded((secs % 60) as nat, 2) + "_"@ + crate::number::padded(
        millis as nat,
        3,
    )
}

/// The time of day for the name of a file.
pub fn timestamp_string(secs: u64, millis: u32) -> (text: String)
    ensures
        text@ == time_text(secs as int, millis as int),
{
    let mut text = string_of(&padded_chars((secs / 3600) % 24, 2));
    append(&mut text, "-");
    append(&mut text, string_of(&padded_chars((secs / 60) % 60, 2)).as_str());
    append(&mut text, "-");
    append(&mut text, string_of(&padded_chars(secs % 60, 2)).as_str());
    append(&mut text, "_");
    append(&mut text, string_of(&padded_chars(millis as u64, 3)).as_str());
    text
}

/// The name of the file that a request is kept in.
pub fn request_file(endpoint: &str, secs: u64, millis: u32) -> (name: String)
    ensures
        name@ == endpoint@ + "_"@ + time_text(secs as int, millis as int) + ".json"@,
{
    let mut name = joined(endpoint, "_");
    append(&mut name, timestamp_string(secs, millis).as_str());
    append(&mut name, ".json");
    name
}

/// The message where the server cannot start: the port is in use, or the reason.
pub open spec fn start_failure(port: u16, reason: Seq<char>) -> Seq<char> {
    let p = crate::number::decimal(port as nat);
    if crate::text::occurs_in(reason, "Address already in use"@) || crate::text::occurs_in(
        reason,
        "address is already in use"@,
    ) || crate::text::occurs_in(reason, "AddrInUse"@) || crate::text::occurs_in(reason, "10048"@) {
        "端口 "@ + p + " 已被占用，请更换端口 / Port "@ + p
            + " is already in use. Please choose a different port."@
    } else {
        "HTTP服务器启动失败 / HTTP server start failed on port "@ + p + ": "@ + reason
    }
}

/// The message where the server cannot start.
pub fn bind_error(port: u16, reason: &str) -> (text: String)
    ensures
        text@ == start_failure(port, reason@),
{
    let number = string_of(&decimal_chars(port as u64));
    let in_use = crate::text::has_text(reason, "Address already in use") || crate::text::has_text(
        reason,
        "address is already in use",
    ) || crate::text::has_text(reason, "AddrInUse") || crate::text::has_text(reason, "10048");
    if in_use {
        let mut text = joined("端口 ", number.as_str());
        append(&mut text, " 已被占用，请更换端口 / Port ");
        append(&mut text, number.as_str());
        append(&mut text, " is already in use. Please choose a different port.");
        text
    } else {
        let mut text = joined(
            "HTTP服务器启动失败 / HTTP server start failed on port ",
            number.as_str(),
        );
        append(&mut text, ": ");
        append(&mut text, reason);
        text
    }
}

/// Whether two names of jobs are the same.
pub fn same_job(state: &JobState, id: &str) -> (yes: bool)
    ensures
        yes == (crate::text::text_of(state.job_id) == Some(id@)),
{
    match &state.job_id {
        Some(actual) => same_text(actual.as_str(), id),
        None => false,
    }
}

/// Every result counts for its own status, and for no other.
pub proof fn results_count_for_their_status(
    results: Seq<InstructionResult>,
    status: InstructionStatus,
    n: nat,
)
    requires
        n < results.len(),
    ensures
        count_of(results, status, 0) == 0,
        results[n as int].status == status ==> count_of(results, status, n + 1) == count_of(
            results,
            status,
            n,
        ) + 1,
        results[n as int].status != status ==> count_of(results, status, n + 1) == count_of(
            results,
            status,
            n,
        ),
{
    reveal_with_fuel(count_of, 2);
}

/// A server that cannot start tells that its port is taken, by any of the four
/// words for that, or else the reason.
pub proof fn taken_ports_are_told(port: u16, reason: Seq<char>)
    ensures
        ({
            let p = crate::number::decimal(port as nat);
            let taken = "端口 "@ + p + " 已被占用，请更换端口 / Port "@ + p
                + " is already in use. Please choose a different port."@;
            &&& crate::text::occurs_in(reason, "Address already in use"@) ==> start_failure(
                port,
                reason,
            ) == taken
            &&& crate::text::occurs_in(reason, "address is already in use"@) ==> start_failure(
                port,
                reason,
            ) == taken
            &&& crate::text::occurs_in(reason, "AddrInUse"@) ==> start_failure(port, reason)
                == taken
            &&& crate::text::occurs_in(reason, "10048"@) ==> start_failure(port, reason) == taken
            &&& start_failure(port, reason) == taken || start_failure(port, reason)
                == "HTTP服务器启动失败 / HTTP server start failed on port "@ + p + ": "@ + reason
        }),
        !crate::text::occurs_in(reason, "Address already in use"@) && !crate::text::occurs_in(
            reason,
            "address is already in use"@,
        ) && !crate::text::occurs_in(reason, "AddrInUse"@) && !crate::text::occurs_in(
            reason,
            "10048"@,
        ) ==> start_failure(port, reason)
            == "HTTP服务器启动失败 / HTTP server start failed on port "@ + crate::number::decimal(
            port as nat,
        ) + ": "@ + reason,
{
}

} // verus!
