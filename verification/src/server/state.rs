//! What the server answers, and how jobs change what it knows.
use crate::lang::{localize, localized, Lang};
use crate::number::decimal_chars;
use crate::scanner::common::models::GoodArtifact;
use crate::server::jobs::{
    all_failed, artifacts_of, changes_game, find_equip_fault, find_fault, first_fault, init_failure,
    job_changes_game, job_size, same_job, EquipRequest, JobPhase, JobProgress, JobRequest,
    JobState, LockManageRequest, ManageResult, ManageSummary,
};
use crate::server::origin::{
    answer_headers, bare_origin, check_origin, cors_headers, header_texts, origin_allowed,
    HeaderLine, OriginCheck,
};
use crate::server::routes::{route, routed, Method, Route};
use crate::text::{append, copy_of, joined, string_of, truth};
use vstd::prelude::*;

verus! {

/// The longest body of a request, in bytes.
pub const MAX_BODY_SIZE: usize = 5_242_880;

/// The artifacts of the last scan.
#[derive(Debug)]
pub enum ArtifactCache {
    /// There was no scan.
    Empty,
    /// The last scan was complete, and nothing was changed since.
    Complete(Vec<GoodArtifact>),
    /// The last scan was not complete, or something was changed since.
    Incomplete,
}

/// What an answer carries.
#[derive(Debug)]
pub enum ReplyBody {
    Empty,
    Text(String),
    /// Where the job stands.
    Status,
    /// The result of the job.
    JobResult,
    /// The artifacts of the last scan.
    Artifacts,
}

/// An answer.
#[derive(Debug)]
pub struct Reply {
    pub status: u16,
    pub body: ReplyBody,
}

/// The text of an error.
pub open spec fn error_text(msg: Seq<char>) -> Seq<char> {
    "{\"error\":\""@ + msg + "\"}"@
}

/// An answer with this text.
pub open spec fn text_reply(reply: Reply, status: int, text: Seq<char>) -> bool {
    reply.status == status && (reply.body matches ReplyBody::Text(t) && t@ == text)
}

/// An answer with this error.
pub open spec fn error_reply(reply: Reply, status: int, msg: Seq<char>) -> bool {
    text_reply(reply, status, error_text(msg))
}

/// An answer with the half of this message that is in the language.
pub open spec fn local_reply(reply: Reply, status: int, msg: Seq<char>, english: bool) -> bool {
    exists|m: Seq<char>| #[trigger] localized(msg, english, m) && error_reply(reply, status, m)
}

/// An answer with an error.
pub fn error(status: u16, msg: &str) -> (reply: Reply)
    ensures
        error_reply(reply, status as int, msg@),
{
    let mut text = joined("{\"error\":\"", msg);
    append(&mut text, "\"}");
    Reply { status, body: ReplyBody::Text(text) }
}

fn local_error(lang: &Lang, status: u16, msg: &str) -> (reply: Reply)
    ensures
        local_reply(reply, status as int, msg@, lang.english),
{
    let half = localize(lang, msg);
    assert(localized(msg@, lang.english, half@));
    error(status, half.as_str())
}

/// The message that a body is too long.
pub open spec fn too_long_message(len: int) -> Seq<char> {
    let n = crate::number::decimal(len as nat);
    let max = crate::number::decimal(MAX_BODY_SIZE as nat);
    "请求体过大（"@ + n + " 字节，上限 "@ + max + " 字节）/ Request body too large: "@ + n
        + " bytes (max "@ + max + ")"@
}

/// A message with the same reason in both halves.
pub open spec fn reason_message(zh: Seq<char>, en: Seq<char>, reason: Seq<char>) -> Seq<char> {
    zh + reason + en + reason
}

/// The message that the manager is paused.
pub const PAUSED: &'static str =
    "管理器已暂停 / Manager is paused. Enable it in the GUI to accept requests.";

/// The message that a job is running.
pub const BUSY: &'static str =
    "正在执行其他任务 / Another job is already running. Poll GET /status for progress.";

/// The message that a request has no artifacts.
pub const NO_ARTIFACTS: &'static str =
    "lock 和 unlock 列表均为空 / Both lock and unlock lists are empty";

/// The message that a request has no instructions.
pub const NO_INSTRUCTIONS: &'static str = "equip 列表为空 / Equip list is empty";

/// The message that jobs cannot be executed.
pub const NO_EXECUTOR: &'static str = "执行线程不可用 / Execution thread unavailable";

/// The message that the last scan is of no use.
pub const SCAN_INCOMPLETE: &'static str =
    "上次扫描未完成，数据不可用 / Last scan was incomplete. Data unavailable.";

/// The message that there was no scan.
pub const NO_SCAN: &'static str =
    "没有可用的圣遗物数据，请先执行管理任务 / No artifact data available. Run a manage job first.";

/// A name of the form of random ones: 36 characters, of which four are hyphens
/// and the others lower-case hexadecimal digits, with those for the version and
/// the variant at their places.
pub open spec fn random_name(id: Seq<char>) -> bool {
    &&& id.len() == 36
    &&& forall|i: int|
        0 <= i < 36 ==> if i == 8 || i == 13 || i == 18 || i == 23 {
            #[trigger] id[i] == '-'
        } else {
            '0' <= id[i] <= '9' || 'a' <= id[i] <= 'f'
        }
    &&& id[14] == '4'
    &&& id[19] == '8' || id[19] == '9' || id[19] == 'a' || id[19] == 'b'
}

/// A random name for a job, by `uuid::Uuid::new_v4`: 36 characters, of which
/// four are hyphens and the others lower-case hexadecimal digits, with those for
/// the version and the variant at their places. The other digits are left to
/// chance.
#[verifier::external_body]
fn fresh_job_id() -> (id: String)
    ensures
        random_name(id@),
{
    uuid::Uuid::new_v4().to_string()
}

/// The text that says that a job was taken.
pub open spec fn accepted_text(job_id: Seq<char>, total: int) -> Seq<char> {
    "{\"jobId\":\""@ + job_id + "\",\"total\":"@ + crate::number::decimal(total as nat) + "}"@
}

fn accepted(job_id: &str, total: usize) -> (reply: Reply)
    ensures
        text_reply(reply, 202, accepted_text(job_id@, total as int)),
{
    let mut text = joined("{\"jobId\":\"", job_id);
    append(&mut text, "\",\"total\":");
    append(&mut text, string_of(&decimal_chars(total as u64)).as_str());
    append(&mut text, "}");
    Reply { status: 202, body: ReplyBody::Text(text) }
}

/// What came of submitting a job: the answer, and the job to execute with its
/// name.
#[derive(Debug)]
pub struct Submission {
    pub reply: Reply,
    pub job: Option<(String, JobRequest)>,
}

/// What the server knows.
#[derive(Debug)]
pub struct ManagerServer {
    pub enabled: bool,
    pub lang: Lang,
    pub job: JobState,
    pub cache: ArtifactCache,
}

/// The body of a request: it could not be read, or it was read and its text
/// parsed.
#[derive(Debug)]
pub enum Body<R> {
    Unreadable(String),
    /// The length of the body in bytes, and the request or why it is none.
    Read { len: usize, parsed: Result<R, String> },
}

/// The request of a body that can be used.
pub open spec fn body_of<R>(body: Body<R>) -> Option<R> {
    match body {
        Body::Read { len, parsed: Ok(r) } => if len <= MAX_BODY_SIZE {
            Some(r)
        } else {
            None
        },
        _ => None,
    }
}

/// The answer to a body that cannot be used.
pub open spec fn body_refused<R>(body: Body<R>, english: bool, reply: Reply) -> bool {
    match body {
        Body::Unreadable(reason) => local_reply(
            reply,
            400,
            reason_message("读取请求体失败: "@, " / Failed to read body: "@, reason@),
            english,
        ),
        Body::Read { len, parsed } => if len > MAX_BODY_SIZE {
            local_reply(reply, 413, too_long_message(len as int), english)
        } else {
            match parsed {
                Ok(_) => false,
                Err(reason) => local_reply(
                    reply,
                    400,
                    reason_message("JSON解析失败: "@, " / JSON parse error: "@, reason@),
                    english,
                ),
            }
        },
    }
}

/// What is to be done for a request.
#[derive(Debug)]
pub enum Task {
    /// Send this answer.
    Answer(Reply),
    /// Read the body and handle the job to lock and unlock artifacts.
    Manage,
    /// Read the body and handle the job to equip artifacts.
    Equip,
}

/// What is to be done for a request, and the headers of its answer.
#[derive(Debug)]
pub struct Dispatch {
    pub task: Task,
    pub headers: Vec<HeaderLine>,
}

/// The headers of the answer to a page, or to another client.
pub open spec fn headers_for(route: Route, page: Option<Seq<char>>) -> Seq<
    (Seq<char>, Seq<char>),
> {
    if route is Preflight && page is None {
        Seq::empty()
    } else {
        answer_headers(page)
    }
}

/// What is to be done for what a request asks for.
pub open spec fn route_answered(
    server: ManagerServer,
    route: Route,
    game_alive: bool,
    task: Task,
) -> bool {
    match route {
        Route::Manage => task is Manage,
        Route::Equip => task is Equip,
        Route::Preflight => task matches Task::Answer(r) && r.status == 204 && r.body is Empty,
        Route::Status => task matches Task::Answer(r) && r.status == 200 && r.body is Status,
        Route::JobResult(id) => task matches Task::Answer(r) && result_answered(
            server.job,
            crate::text::text_of(id),
            r,
        ),
        Route::Health => task matches Task::Answer(r) && text_reply(
            r,
            200,
            health_text(server.enabled, server.job.state is Running, game_alive),
        ),
        Route::Artifacts => task matches Task::Answer(r) && artifacts_answered(
            server.cache,
            server.lang.english,
            r,
        ),
        Route::Unknown => task matches Task::Answer(r) && error_reply(r, 404, "Not Found"@),
    }
}

/// What a request gets, by its method, its address and the page that sent it.
pub open spec fn dispatched(
    server: ManagerServer,
    method: Method,
    url: Seq<char>,
    origin: Option<Seq<char>>,
    game_alive: bool,
    d: Dispatch,
) -> bool {
    if origin is Some && !origin_allowed(origin->0) {
        &&& d.task matches Task::Answer(r) && error_reply(r, 403, "Origin not allowed"@)
        &&& header_texts(d.headers@) == answer_headers(None)
    } else {
        let page = match origin {
            Some(o) => Some(bare_origin(o)),
            None => None,
        };
        exists|route: Route| #[trigger]
            routed(method, url, route) && route_answered(server, route, game_alive, d.task)
                && header_texts(d.headers@) == headers_for(route, page)
    }
}

/// Why a request to lock and unlock is not taken.
pub open spec fn manage_refused(
    request: LockManageRequest,
    english: bool,
    reply: Reply,
) -> bool {
    if request.lock@.len() == 0 && request.unlock@.len() == 0 {
        local_reply(reply, 400, NO_ARTIFACTS@, english)
    } else {
        match first_fault("lock"@, request.lock@, 0) {
            Some(fault) => error_reply(reply, 400, fault),
            None => match first_fault("unlock"@, request.unlock@, 0) {
                Some(fault) => error_reply(reply, 400, fault),
                None => false,
            },
        }
    }
}

/// The request to lock and unlock has artifacts, all without fault.
pub open spec fn manage_sound(request: LockManageRequest) -> bool {
    &&& request.lock@.len() > 0 || request.unlock@.len() > 0
    &&& first_fault("lock"@, request.lock@, 0) is None
    &&& first_fault("unlock"@, request.unlock@, 0) is None
}

/// Why a request to equip is not taken.
pub open spec fn equip_refused(request: EquipRequest, english: bool, reply: Reply) -> bool {
    if request.equip@.len() == 0 {
        local_reply(reply, 400, NO_INSTRUCTIONS@, english)
    } else {
        match first_fault("equip"@, artifacts_of(request.equip@), 0) {
            Some(fault) => error_reply(reply, 400, fault),
            None => false,
        }
    }
}

/// The request to equip has instructions, all without fault.
pub open spec fn equip_sound(request: EquipRequest) -> bool {
    &&& request.equip@.len() > 0
    &&& first_fault("equip"@, artifacts_of(request.equip@), 0) is None
}

/// A job was taken: it runs, it is handed on, and its name is answered.
pub open spec fn job_taken(
    before: ManagerServer,
    after: ManagerServer,
    job_id: Seq<char>,
    job: JobRequest,
    submission: Submission,
) -> bool {
    &&& text_reply(submission.reply, 202, accepted_text(job_id, job_size(job)))
    &&& submission.job matches Some((id, j)) && id@ == job_id && j == job
    &&& after.job.valid()
    &&& after.job.state is Running
    &&& crate::text::text_of(after.job.job_id) == Some(job_id)
    &&& (after.job.progress matches Some(p) && p.completed == 0 && p.total == job_size(job)
        && p.current_id@.len() == 0 && p.phase@.len() == 0)
    &&& after.enabled == before.enabled
    &&& after.lang == before.lang
    &&& after.cache == before.cache
}

/// The artifacts are of no use any more, if there are any.
pub open spec fn spoiled(cache: ArtifactCache) -> ArtifactCache {
    match cache {
        ArtifactCache::Complete(_) => ArtifactCache::Incomplete,
        other => other,
    }
}

/// The answer on the artifacts.
pub open spec fn artifacts_answered(cache: ArtifactCache, english: bool, reply: Reply) -> bool {
    match cache {
        ArtifactCache::Complete(_) => reply.status == 200 && reply.body is Artifacts,
        ArtifactCache::Incomplete => local_reply(reply, 503, SCAN_INCOMPLETE@, english),
        ArtifactCache::Empty => local_reply(reply, 404, NO_SCAN@, english),
    }
}

/// The answer on the result of a job.
pub open spec fn result_answered(job: JobState, id: Option<Seq<char>>, reply: Reply) -> bool {
    let asked = match id {
        Some(i) => i,
        None => Seq::empty(),
    };
    if asked.len() == 0 {
        error_reply(reply, 400, "missing required query parameter: jobId"@)
    } else if job.state is Idle || crate::text::text_of(job.job_id) != Some(asked) {
        error_reply(reply, 404, "job not found"@)
    } else if job.state is Running {
        error_reply(reply, 409, "job still running"@)
    } else if job.result is Some {
        reply.status == 200 && reply.body is JobResult
    } else {
        error_reply(reply, 500, "result data missing"@)
    }
}

/// The text on how the server is.
pub open spec fn health_text(enabled: bool, busy: bool, alive: bool) -> Seq<char> {
    "{\"status\":\"ok\",\"enabled\":"@ + crate::text::truth_text(enabled) + ",\"busy\":"@
        + crate::text::truth_text(busy) + ",\"gameAlive\":"@ + crate::text::truth_text(alive)
        + "}"@
}

impl ManagerServer {
    /// The state of the last job is in order.
    pub open spec fn valid(&self) -> bool {
        self.job.valid()
    }

    /// A job with a body of this announced length is looked at: the manager is
    /// not paused, no job is running, and the body is not too long.
    pub open spec fn takes_jobs(&self, body_length: Option<usize>) -> bool {
        self.enabled && !(self.job.state is Running) && (body_length is None || body_length->0
            <= MAX_BODY_SIZE)
    }

    /// The answer to a job that is not looked at.
    pub open spec fn turned_away(&self, body_length: Option<usize>, reply: Reply) -> bool {
        if !self.enabled {
            local_reply(reply, 503, PAUSED@, self.lang.english)
        } else if self.job.state is Running {
            local_reply(reply, 409, BUSY@, self.lang.english)
        } else {
            local_reply(
                reply,
                413,
                too_long_message(body_length->0 as int),
                self.lang.english,
            )
        }
    }

    /// Before the first job.
    pub fn new(enabled: bool, lang: Lang) -> (s: Self)
        ensures
            s.valid(),
            s.enabled == enabled,
            s.lang == lang,
            s.job.state is Idle,
            s.job.progress is None,
            s.cache is Empty,
    {
        ManagerServer { enabled, lang, job: JobState::idle(), cache: ArtifactCache::Empty }
    }

    /// The answer to a request of a page that may not talk to the server.
    pub fn refuse_origin() -> (reply: Reply)
        ensures
            error_reply(reply, 403, "Origin not allowed"@),
    {
        error(403, "Origin not allowed")
    }

    /// The answer to the question whether a page may send a request.
    pub fn preflight() -> (reply: Reply)
        ensures
            reply.status == 204,
            reply.body is Empty,
    {
        Reply { status: 204, body: ReplyBody::Empty }
    }

    /// The answer to a request for nothing that there is.
    pub fn unknown() -> (reply: Reply)
        ensures
            error_reply(reply, 404, "Not Found"@),
    {
        error(404, "Not Found")
    }

    /// The answer on how far the job is.
    pub fn status(&self) -> (reply: Reply)
        ensures
            reply.status == 200,
            reply.body is Status,
    {
        Reply { status: 200, body: ReplyBody::Status }
    }

    /// The answer on how the server is.
    pub fn health(&self, game_alive: bool) -> (reply: Reply)
        ensures
            text_reply(
                reply,
                200,
                health_text(self.enabled, self.job.state is Running, game_alive),
            ),
    {
        let mut text = joined("{\"status\":\"ok\",\"enabled\":", truth(self.enabled));
        append(&mut text, ",\"busy\":");
        append(&mut text, truth(self.is_busy()));
        append(&mut text, ",\"gameAlive\":");
        append(&mut text, truth(game_alive));
        append(&mut text, "}");
        Reply { status: 200, body: ReplyBody::Text(text) }
    }

    /// Whether a job is running.
    pub fn is_busy(&self) -> (yes: bool)
        ensures
            yes == (self.job.state is Running),
    {
        match self.job.state {
            JobPhase::Running => true,
            _ => false,
        }
    }

    /// The answer on the artifacts.
    pub fn artifacts(&self) -> (reply: Reply)
        ensures
            artifacts_answered(self.cache, self.lang.english, reply),
    {
        match &self.cache {
            ArtifactCache::Complete(_) => Reply { status: 200, body: ReplyBody::Artifacts },
            ArtifactCache::Incomplete => local_error(&self.lang, 503, SCAN_INCOMPLETE),
            ArtifactCache::Empty => local_error(&self.lang, 404, NO_SCAN),
        }
    }

    /// The answer on the result of a job.
    pub fn result(&self, id: &Option<String>) -> (reply: Reply)
        ensures
            result_answered(self.job, crate::text::text_of(*id), reply),
    {
        let asked = match id {
            Some(i) => i,
            None => {
                return error(400, "missing required query parameter: jobId");
            },
        };
        if asked.as_str().is_empty() {
            return error(400, "missing required query parameter: jobId");
        }
        match self.job.state {
            JobPhase::Idle => error(404, "job not found"),
            JobPhase::Running => if same_job(&self.job, asked.as_str()) {
                error(409, "job still running")
            } else {
                error(404, "job not found")
            },
            JobPhase::Completed => if !same_job(&self.job, asked.as_str()) {
                error(404, "job not found")
            } else if self.job.result.is_some() {
                Reply { status: 200, body: ReplyBody::JobResult }
            } else {
                error(500, "result data missing")
            },
        }
    }

    /// The answer to a job that is not looked at: the manager is paused, a job
    /// is running, or the body is announced to be too long.
    pub fn refuse(&self, body_length: Option<usize>) -> (refusal: Option<Reply>)
        ensures
            match refusal {
                Some(r) => !self.takes_jobs(body_length) && self.turned_away(body_length, r),
                None => self.takes_jobs(body_length),
            },
    {
        if !self.enabled {
            return Some(local_error(&self.lang, 503, PAUSED));
        }
        if self.is_busy() {
            return Some(local_error(&self.lang, 409, BUSY));
        }
        match body_length {
            Some(len) => self.refuse_size(len),
            None => None,
        }
    }

    /// The answer to a body that is too long.
    pub fn refuse_size(&self, len: usize) -> (refusal: Option<Reply>)
        ensures
            if len > MAX_BODY_SIZE {
                refusal matches Some(r) && local_reply(
                    r,
                    413,
                    too_long_message(len as int),
                    self.lang.english,
                )
            } else {
                refusal is None
            },
    {
        if len <= MAX_BODY_SIZE {
            return None;
        }
        let n = string_of(&decimal_chars(len as u64));
        let max = string_of(&decimal_chars(MAX_BODY_SIZE as u64));
        let mut text = joined("请求体过大（", n.as_str());
        append(&mut text, " 字节，上限 ");
        append(&mut text, max.as_str());
        append(&mut text, " 字节）/ Request body too large: ");
        append(&mut text, n.as_str());
        append(&mut text, " bytes (max ");
        append(&mut text, max.as_str());
        append(&mut text, ")");
        Some(local_error(&self.lang, 413, text.as_str()))
    }

    /// The answer to a body that could not be read.
    pub fn read_failed(&self, reason: &str) -> (reply: Reply)
        ensures
            local_reply(
                reply,
                400,
                reason_message("读取请求体失败: "@, " / Failed to read body: "@, reason@),
                self.lang.english,
            ),
    {
        let mut text = joined("读取请求体失败: ", reason);
        append(&mut text, " / Failed to read body: ");
        append(&mut text, reason);
        local_error(&self.lang, 400, text.as_str())
    }

    /// The answer to a body that could not be parsed.
    pub fn parse_failed(&self, reason: &str) -> (reply: Reply)
        ensures
            local_reply(
                reply,
                400,
                reason_message("JSON解析失败: "@, " / JSON parse error: "@, reason@),
                self.lang.english,
            ),
    {
        let mut text = joined("JSON解析失败: ", reason);
        append(&mut text, " / JSON parse error: ");
        append(&mut text, reason);
        local_error(&self.lang, 400, text.as_str())
    }

    fn start(&mut self, job_id: String, total: usize, job: JobRequest) -> (submission: Submission)
        requires
            total == job_size(job),
        ensures
            job_taken(*old(self), *final(self), job_id@, job, submission),
    {
        let reply = accepted(job_id.as_str(), total);
        self.job = JobState::running(copy_of(job_id.as_str()), total);
        Submission { reply, job: Some((job_id, job)) }
    }

    /// Takes a job to lock and unlock artifacts under a name, if it is sound.
    pub fn accept_manage(&mut self, request: LockManageRequest, job_id: String) -> (submission:
        Submission)
        requires
            old(self).valid(),
            request.lock@.len() + request.unlock@.len() <= usize::MAX,
        ensures
            final(self).valid(),
            if manage_sound(request) {
                job_taken(
                    *old(self),
                    *final(self),
                    job_id@,
                    JobRequest::Manage(request),
                    submission,
                )
            } else {
                &&& *final(self) == *old(self)
                &&& submission.job is None
                &&& manage_refused(request, old(self).lang.english, submission.reply)
            },
    {
        let locks: usize = request.lock.len();
        let unlocks: usize = request.unlock.len();
        if locks == 0 && unlocks == 0 {
            return Submission { reply: local_error(&self.lang, 400, NO_ARTIFACTS), job: None };
        }
        match find_fault("lock", &request.lock) {
            Some(fault) => {
                return Submission { reply: error(400, fault.as_str()), job: None };
            },
            None => {},
        }
        match find_fault("unlock", &request.unlock) {
            Some(fault) => {
                return Submission { reply: error(400, fault.as_str()), job: None };
            },
            None => {},
        }
        self.start(job_id, locks + unlocks, JobRequest::Manage(request))
    }

    /// Takes a job to equip artifacts under a name, if it is sound.
    pub fn accept_equip(&mut self, request: EquipRequest, job_id: String) -> (submission:
        Submission)
        requires
            old(self).valid(),
        ensures
            final(self).valid(),
            if equip_sound(request) {
                job_taken(
                    *old(self),
                    *final(self),
                    job_id@,
                    JobRequest::Equip(request),
                    submission,
                )
            } else {
                &&& *final(self) == *old(self)
                &&& submission.job is None
                &&& equip_refused(request, old(self).lang.english, submission.reply)
            },
    {
        let n: usize = request.equip.len();
        if n == 0 {
            return Submission { reply: local_error(&self.lang, 400, NO_INSTRUCTIONS), job: None };
        }
        match find_equip_fault(&request.equip) {
            Some(fault) => {
                return Submission { reply: error(400, fault.as_str()), job: None };
            },
            None => {},
        }
        self.start(job_id, n, JobRequest::Equip(request))
    }

    /// The answer to a body that cannot be used.
    fn refuse_body<R>(&self, body: &Body<R>) -> (refusal: Option<Reply>)
        ensures
            match refusal {
                Some(r) => body_refused(*body, self.lang.english, r) && body_of(*body) is None,
                None => body_of(*body) is Some,
            },
    {
        match body {
            Body::Unreadable(reason) => Some(self.read_failed(reason.as_str())),
            Body::Read { len, parsed } => {
                let refusal = self.refuse_size(*len);
                if refusal.is_some() {
                    return refusal;
                }
                match parsed {
                    Ok(_) => None,
                    Err(reason) => Some(self.parse_failed(reason.as_str())),
                }
            },
        }
    }

    /// Takes a job to lock and unlock artifacts under a name, if jobs are taken
    /// and this one is sound.
    pub fn submit_manage(
        &mut self,
        body_length: Option<usize>,
        body: Body<LockManageRequest>,
        job_id: String,
    ) -> (submission: Submission)
        requires
            old(self).valid(),
            body_of(body) matches Some(r) ==> r.lock@.len() + r.unlock@.len() <= usize::MAX,
        ensures
            final(self).valid(),
            if old(self).takes_jobs(body_length) && body_of(body) is Some && manage_sound(
                body_of(body)->0,
            ) {
                job_taken(
                    *old(self),
                    *final(self),
                    job_id@,
                    JobRequest::Manage(body_of(body)->0),
                    submission,
                )
            } else {
                &&& *final(self) == *old(self)
                &&& submission.job is None
                &&& if !old(self).takes_jobs(body_length) {
                    old(self).turned_away(body_length, submission.reply)
                } else if body_of(body) is None {
                    body_refused(body, old(self).lang.english, submission.reply)
                } else {
                    manage_refused(body_of(body)->0, old(self).lang.english, submission.reply)
                }
            },
    {
        match self.refuse(body_length) {
            Some(reply) => {
                return Submission { reply, job: None };
            },
            None => {},
        }
        match self.refuse_body(&body) {
            Some(reply) => Submission { reply, job: None },
            None => match body {
                Body::Read { len: _, parsed: Ok(request) } => self.accept_manage(request, job_id),
                _ => Submission { reply: ManagerServer::unknown(), job: None },
            },
        }
    }

    /// Takes a job to equip artifacts under a name, if jobs are taken and this
    /// one is sound.
    pub fn submit_equip(
        &mut self,
        body_length: Option<usize>,
        body: Body<EquipRequest>,
        job_id: String,
    ) -> (submission: Submission)
        requires
            old(self).valid(),
        ensures
            final(self).valid(),
            if old(self).takes_jobs(body_length) && body_of(body) is Some && equip_sound(
                body_of(body)->0,
            ) {
                job_taken(
                    *old(self),
                    *final(self),
                    job_id@,
                    JobRequest::Equip(body_of(body)->0),
                    submission,
                )
            } else {
                &&& *final(self) == *old(self)
                &&& submission.job is None
                &&& if !old(self).takes_jobs(body_length) {
                    old(self).turned_away(body_length, submission.reply)
                } else if body_of(body) is None {
                    body_refused(body, old(self).lang.english, submission.reply)
                } else {
                    equip_refused(body_of(body)->0, old(self).lang.english, submission.reply)
                }
            },
    {
        match self.refuse(body_length) {
            Some(reply) => {
                return Submission { reply, job: None };
            },
            None => {},
        }
        match self.refuse_body(&body) {
            Some(reply) => Submission { reply, job: None },
            None => match body {
                Body::Read { len: _, parsed: Ok(request) } => self.accept_equip(request, job_id),
                _ => Submission { reply: ManagerServer::unknown(), job: None },
            },
        }
    }

    /// Takes a job to lock and unlock artifacts under a fresh name, if jobs are
    /// taken and this one is sound.
    pub fn handle_manage(&mut self, body_length: Option<usize>, body: Body<LockManageRequest>) -> (
        submission: Submission)
        requires
            old(self).valid(),
            body_of(body) matches Some(r) ==> r.lock@.len() + r.unlock@.len() <= usize::MAX,
        ensures
            final(self).valid(),
            if old(self).takes_jobs(body_length) && body_of(body) is Some && manage_sound(
                body_of(body)->0,
            ) {
                exists|job_id: Seq<char>|
                    random_name(job_id) && #[trigger] job_taken(
                        *old(self),
                        *final(self),
                        job_id,
                        JobRequest::Manage(body_of(body)->0),
                        submission,
                    )
            } else {
                &&& *final(self) == *old(self)
                &&& submission.job is None
                &&& if !old(self).takes_jobs(body_length) {
                    old(self).turned_away(body_length, submission.reply)
                } else if body_of(body) is None {
                    body_refused(body, old(self).lang.english, submission.reply)
                } else {
                    manage_refused(body_of(body)->0, old(self).lang.english, submission.reply)
                }
            },
    {
        let job_id = fresh_job_id();
        self.submit_manage(body_length, body, job_id)
    }

    /// Takes a job to equip artifacts under a fresh name, if jobs are taken and
    /// this one is sound.
    pub fn handle_equip(&mut self, body_length: Option<usize>, body: Body<EquipRequest>) -> (
        submission: Submission)
        requires
            old(self).valid(),
        ensures
            final(self).valid(),
            if old(self).takes_jobs(body_length) && body_of(body) is Some && equip_sound(
                body_of(body)->0,
            ) {
                exists|job_id: Seq<char>|
                    random_name(job_id) && #[trigger] job_taken(
                        *old(self),
                        *final(self),
                        job_id,
                        JobRequest::Equip(body_of(body)->0),
                        submission,
                    )
            } else {
                &&& *final(self) == *old(self)
                &&& submission.job is None
                &&& if !old(self).takes_jobs(body_length) {
                    old(self).turned_away(body_length, submission.reply)
                } else if body_of(body) is None {
                    body_refused(body, old(self).lang.english, submission.reply)
                } else {
                    equip_refused(body_of(body)->0, old(self).lang.english, submission.reply)
                }
            },
    {
        let job_id = fresh_job_id();
        self.submit_equip(body_length, body, job_id)
    }

    /// What a request gets: an answer with its headers, or that its body is to be
    /// read and handled. A page that may not talk to the server is turned away
    /// before anything else.
    pub fn dispatch(
        &self,
        method: Method,
        url: &str,
        origin: &Option<String>,
        game_alive: bool,
    ) -> (d: Dispatch)
        ensures
            dispatched(*self, method, url@, crate::text::text_of(*origin), game_alive, d),
    {
        let page = match check_origin(origin) {
            OriginCheck::NoPage => None,
            OriginCheck::Allowed(o) => Some(o),
            OriginCheck::Refused => {
                return Dispatch {
                    task: Task::Answer(ManagerServer::refuse_origin()),
                    headers: cors_headers(&None),
                };
            },
        };
        let r = route(method, url);
        let headers = match (&r, &page) {
            (Route::Preflight, None) => Vec::new(),
            _ => cors_headers(&page),
        };
        let task = match r {
            Route::Preflight => Task::Answer(ManagerServer::preflight()),
            Route::Manage => Task::Manage,
            Route::Equip => Task::Equip,
            Route::Status => Task::Answer(self.status()),
            Route::JobResult(id) => Task::Answer(self.result(&id)),
            Route::Health => Task::Answer(self.health(game_alive)),
            Route::Artifacts => Task::Answer(self.artifacts()),
            Route::Unknown => Task::Answer(ManagerServer::unknown()),
        };
        let d = Dispatch { task, headers };
        proof {
            let o = crate::text::text_of(page);
            assert(header_texts(d.headers@) =~= headers_for(r, o));
            assert(route_answered(*self, r, game_alive, d.task));
            assert(routed(method, url@, r));
        }
        d
    }

    /// A job could not be handed on.
    pub fn unavailable(&mut self) -> (reply: Reply)
        ensures
            final(self).valid(),
            final(self).job.state is Idle,
            final(self).job.progress is None,
            final(self).enabled == old(self).enabled,
            final(self).lang == old(self).lang,
            final(self).cache == old(self).cache,
            local_reply(reply, 500, NO_EXECUTOR@, old(self).lang.english),
    {
        self.job = JobState::idle();
        local_error(&self.lang, 500, NO_EXECUTOR)
    }

    fn complete(&mut self, job_id: String, result: ManageResult)
        ensures
            final(self).valid(),
            final(self).job.state is Completed,
            final(self).job.progress is None,
            final(self).job.job_id == Some(job_id),
            final(self).job.result == Some(result),
            final(self).enabled == old(self).enabled,
            final(self).lang == old(self).lang,
            final(self).cache == old(self).cache,
    {
        self.job = JobState::completed(job_id, result);
    }

    /// The game could not be reached: every instruction of the job fails.
    pub fn init_failed(&mut self, job_id: String, job: &JobRequest)
        requires
            job_size(*job) <= usize::MAX,
        ensures
            final(self).valid(),
            final(self).job.state is Completed,
            final(self).job.progress is None,
            final(self).job.job_id == Some(job_id),
            final(self).job.result matches Some(r) && all_failed(r, job_size(*job)),
            final(self).enabled == old(self).enabled,
            final(self).lang == old(self).lang,
            final(self).cache == old(self).cache,
    {
        let n: usize = match job {
            JobRequest::Manage(r) => r.lock.len() + r.unlock.len(),
            JobRequest::Equip(r) => r.equip.len(),
        };
        self.complete(job_id, init_failure(n));
    }

    fn spoil_cache(&mut self)
        ensures
            final(self).cache == spoiled(old(self).cache),
            final(self).job == old(self).job,
            final(self).enabled == old(self).enabled,
            final(self).lang == old(self).lang,
    {
        let complete = match &self.cache {
            ArtifactCache::Complete(_) => true,
            _ => false,
        };
        if complete {
            self.cache = ArtifactCache::Incomplete;
        }
    }

    /// The execution of a job begins: what it will change is not served any
    /// more.
    pub fn begin(&mut self, job: &JobRequest)
        ensures
            final(self).job == old(self).job,
            final(self).enabled == old(self).enabled,
            final(self).lang == old(self).lang,
            final(self).cache == cache_after(old(self).cache, None, job_changes_game(*job)),
    {
        if changes_game(job) {
            self.spoil_cache();
        }
    }

    /// The job tells how far it is.
    pub fn progress(&mut self, progress: JobProgress)
        ensures
            old(self).valid() ==> final(self).valid(),
            final(self).job.state == old(self).job.state,
            final(self).job.result == old(self).job.result,
            final(self).job.job_id == old(self).job.job_id,
            final(self).job.progress == Some(progress),
            final(self).enabled == old(self).enabled,
            final(self).lang == old(self).lang,
            final(self).cache == old(self).cache,
    {
        self.job.progress = Some(progress);
    }

    /// The execution of a job broke off.
    pub fn panicked(&mut self, job_id: String)
        ensures
            final(self).valid(),
            final(self).job.state is Completed,
            final(self).job.progress is None,
            final(self).job.job_id == Some(job_id),
            final(self).job.result matches Some(r) && r.results@.len() == 0 && r.summary == (
            ManageSummary {
                total: 0,
                success: 0,
                already_correct: 0,
                not_found: 0,
                errors: 1,
                aborted: 0,
            }),
            final(self).enabled == old(self).enabled,
            final(self).lang == old(self).lang,
            final(self).cache == old(self).cache,
    {
        let summary = ManageSummary {
            total: 0,
            success: 0,
            already_correct: 0,
            not_found: 0,
            errors: 1,
            aborted: 0,
        };
        self.complete(job_id, ManageResult { results: Vec::new(), summary });
    }

    /// A job was executed; `changes` tells whether it changed what is in the
    /// game. Its scan is served from now on, and without one what was served
    /// before is spoiled by the changes.
    pub fn finished(
        &mut self,
        job_id: String,
        result: ManageResult,
        snapshot: Option<Vec<GoodArtifact>>,
        changes: bool,
    )
        ensures
            final(self).valid(),
            final(self).job.state is Completed,
            final(self).job.progress is None,
            final(self).job.job_id == Some(job_id),
            final(self).job.result == Some(result),
            final(self).enabled == old(self).enabled,
            final(self).lang == old(self).lang,
            final(self).cache == cache_after(old(self).cache, snapshot, changes),
    {
        match snapshot {
            Some(artifacts) => {
                self.cache = ArtifactCache::Complete(artifacts);
            },
            None => {
                if changes {
                    self.spoil_cache();
                }
            },
        }
        self.complete(job_id, result);
    }
}

/// A page that is not known learns nothing but that it is turned away, whatever
/// it asks for.
pub proof fn unknown_pages_are_turned_away(
    server: ManagerServer,
    method: Method,
    url: Seq<char>,
    origin: Seq<char>,
    game_alive: bool,
    d: Dispatch,
)
    requires
        dispatched(server, method, url, Some(origin), game_alive, d),
        !origin_allowed(origin),
    ensures
        d.task matches Task::Answer(r) && r.status == 403,
        forall|i: int|
            0 <= i < d.headers@.len() ==> (#[trigger] d.headers@[i]).0@
                != "Access-Control-Allow-Origin"@,
{
    let texts = header_texts(d.headers@);
    assert(texts.len() == 1);
    assert(texts[0].0 == "Content-Type"@);
    assert("Content-Type"@ != "Access-Control-Allow-Origin"@) by {
        reveal_strlit("Content-Type");
        reveal_strlit("Access-Control-Allow-Origin");
        assert("Content-Type"@.len() != "Access-Control-Allow-Origin"@.len());
    }
    assert forall|i: int| 0 <= i < d.headers@.len() implies (#[trigger] d.headers@[i]).0@
        != "Access-Control-Allow-Origin"@ by {
        assert(texts[i].0 == d.headers@[i].0@);
    }
}

/// From the begin of a job that changes the game on, no artifacts of an earlier
/// scan are served, whatever becomes of the job; after it only its own scan is.
pub proof fn stale_artifacts_are_not_served(
    before: ArtifactCache,
    snapshot: Option<Vec<GoodArtifact>>,
    during: Reply,
    after: Reply,
    english: bool,
)
    requires
        artifacts_answered(spoiled(before), english, during),
        artifacts_answered(
            match snapshot {
                Some(artifacts) => ArtifactCache::Complete(artifacts),
                None => spoiled(spoiled(before)),
            },
            english,
            after,
        ),
    ensures
        during.status != 200,
        after.status == 200 <==> snapshot is Some,
{
}

/// The result of a job is answered under its name from its end on, as often as
/// it is asked for, and under no other name.
pub proof fn only_the_last_result_is_served(job: JobState, id: Seq<char>, reply: Reply)
    requires
        job.valid(),
        id.len() > 0,
        result_answered(job, Some(id), reply),
    ensures
        reply.status == 200 <==> job.state is Completed && crate::text::text_of(job.job_id)
            == Some(id),
        reply.status == 409 <==> job.state is Running && crate::text::text_of(job.job_id)
            == Some(id),
        reply.status == 200 || reply.status == 404 || reply.status == 409,
{
}

/// What is served after a job with or without a scan, by whether it changes what is
/// in the game.
pub open spec fn cache_after(
    cache: ArtifactCache,
    snapshot: Option<Vec<GoodArtifact>>,
    changes: bool,
) -> ArtifactCache {
    match snapshot {
        Some(artifacts) => ArtifactCache::Complete(artifacts),
        None => if changes {
            spoiled(cache)
        } else {
            cache
        },
    }
}

/// A scan is served from then on; a job without one leaves what is served, or spoils
/// it where it changes the game, and what is spoiled is not complete.
pub proof fn scans_are_served_until_the_game_changes(
    cache: ArtifactCache,
    artifacts: Vec<GoodArtifact>,
    changes: bool,
)
    ensures
        cache_after(cache, Some(artifacts), changes) == ArtifactCache::Complete(artifacts),
        cache_after(cache, None, false) == cache,
        !(cache_after(cache, None, true) is Complete),
        cache_after(cache_after(cache, Some(artifacts), changes), None, false)
            == ArtifactCache::Complete(artifacts),
{
}

/// A body that is too long is told by its length and by the most that is taken.
pub proof fn long_bodies_are_told(len: int)
    ensures
        too_long_message(len) == "请求体过大（"@ + crate::number::decimal(len as nat) + " 字节，上限 "@
            + crate::number::decimal(5 * 1024 * 1024) + " 字节）/ Request body too large: "@
            + crate::number::decimal(len as nat) + " bytes (max "@ + crate::number::decimal(
            5 * 1024 * 1024,
        ) + ")"@,
{
}

} // verus!
