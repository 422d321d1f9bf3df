//! What holds of requests, jobs and answers.
use crate::scanner::common::models::GoodArtifact;
use crate::server::jobs::{
    all_failed, artifact_fault, artifacts_of, blank, first_fault, job_changes_game, job_size,
    time_text, JobPhase, JobRequest, JobState, ManageResult,
};
use crate::server::origin::{
    answer_headers, bare_origin, begins, game_title, lower_ascii, origin_allowed, origin_in,
    same_but_case, HeaderLine,
};
use crate::server::routes::{first_parameter, queried_job, routed, Method, Route};
use crate::server::state::{
    accepted_text, body_of, body_refused, equip_refused, equip_sound, error_text, headers_for,
    health_text, job_taken, manage_refused, manage_sound, result_answered, route_answered, spoiled,
    ArtifactCache, Body, ManagerServer, Reply, Submission, Task,
};
use crate::text::{occurs_at, pieces, text_of};
use vstd::prelude::*;

verus! {

/// What a method and an address ask for. Any address may be asked about before a
/// request; jobs are posted to two addresses, and four others are got.
pub proof fn requests_find_their_routes(method: Method, url: Seq<char>, route: Route)
    requires
        routed(method, url, route),
    ensures
        route is Preflight <==> method is Options,
        route is Manage <==> method is Post && url == "/manage"@,
        route is Equip <==> method is Post && url == "/equip"@,
        route is Status <==> method is Get && url == "/status"@,
        route is Health <==> method is Get && url == "/health"@,
        route is Artifacts <==> method is Get && url == "/artifacts"@,
        route is JobResult <==> method is Get && url.len() >= 7 && url.take(7) == "/result"@,
        method is Other ==> route is Unknown,
{
    reveal_strlit("/manage");
    reveal_strlit("/equip");
    reveal_strlit("/status");
    reveal_strlit("/result");
    reveal_strlit("/health");
    reveal_strlit("/artifacts");
    assert("/manage"@[1] == 'm' && "/equip"@[1] == 'e' && "/status"@[1] == 's' && "/result"@[1]
        == 'r' && "/health"@[1] == 'h' && "/artifacts"@[1] == 'a');
    if url.len() >= 7 {
        assert(url.subrange(0, 7) =~= url.take(7));
        if url.take(7) == "/result"@ {
            assert(url[1] == url.take(7)[1]);
        }
    }
    if begins(url, "/result"@) {
        assert(url[1] == url.subrange(0, 7)[1]);
    }
}

/// The job that a result is asked for is what stands behind its name in the
/// query, alone or behind another parameter.
pub proof fn the_query_names_the_job(
    path: Seq<char>,
    other: Seq<char>,
    id: Seq<char>,
)
    requires
        !path.contains('?'),
        !other.contains('?'),
        !other.contains('&'),
        !begins(other, "jobId="@),
        !id.contains('?'),
        !id.contains('&'),
    ensures
        queried_job(path) is None,
        queried_job(path.push('?') + ("jobId="@ + id)) == Some(id),
        queried_job(path.push('?') + (other.push('&') + ("jobId="@ + id))) == Some(id),
{
    reveal_strlit("jobId=");
    let name = "jobId="@;
    let query = name + id;
    lemma_free(name, id, '?');
    lemma_free(name, id, '&');
    crate::text_laws::texts_are_cut_at_separators(path, query, '?');
    crate::text_laws::texts_are_cut_at_separators(query, query, '?');
    crate::text_laws::texts_are_cut_at_separators(query, query, '&');
    let parts = pieces(path.push('?') + query, '?');
    assert(parts =~= seq![path, query]);
    assert(query.subrange(0, name.len() as int) =~= name);
    assert(query.skip(name.len() as int) =~= id);
    assert(pieces(query, '&')[0] == query);
    let both = other.push('&') + query;
    assert(!both.contains('?')) by {
        if both.contains('?') {
            let i = choose|i: int| 0 <= i < both.len() && both[i] == '?';
            if i < other.len() {
                assert(other[i] == '?');
            } else if i > other.len() {
                assert(query[i - other.len() - 1] == '?');
            }
        }
    }
    crate::text_laws::texts_are_cut_at_separators(path, both, '?');
    crate::text_laws::texts_are_cut_at_separators(both, both, '?');
    let more = pieces(path.push('?') + both, '?');
    assert(more =~= seq![path, both]);
    crate::text_laws::texts_are_cut_at_separators(other, query, '&');
    let params = pieces(both, '&');
    assert(params =~= seq![other, query]);
    reveal_with_fuel(first_parameter, 3);
}

proof fn lemma_free(name: Seq<char>, id: Seq<char>, c: char)
    requires
        name == "jobId="@,
        c == '?' || c == '&',
        !id.contains(c),
    ensures
        !(name + id).contains(c),
{
    reveal_strlit("jobId=");
    let all = name + id;
    if all.contains(c) {
        let i = choose|i: int| 0 <= i < all.len() && all[i] == c;
        if i < name.len() {
            assert(name[i] == c);
        } else {
            assert(id[i - name.len()] == c);
        }
    }
}

proof fn lemma_bare(text: Seq<char>)
    requires
        text.len() > 0,
        text.last() != '/',
    ensures
        bare_origin(text) == text,
{
}

proof fn lemma_begins(head: Seq<char>, rest: Seq<char>, mark: char)
    requires
        rest.len() > 0,
    ensures
        begins(head + rest, head.push(mark)) == (rest[0] == mark),
{
    let all = head + rest;
    let n = head.len() as int;
    let cut = all.subrange(0, n + 1);
    assert(cut =~= head.push(rest[0]));
    assert(cut[n] == rest[0]);
    assert(head.push(mark)[n] == mark);
    if rest[0] == mark {
        assert(occurs_at(all, head.push(mark), 0));
    }
}

/// The pages of the web site are allowed, and those of this machine with any port
/// or none; nothing may follow their names but a port of this machine and slashes,
/// and no other page is allowed.
pub proof fn few_pages_are_allowed(rest: Seq<char>)
    requires
        rest.len() > 0,
        rest.last() != '/',
    ensures
        origin_allowed("https://ggartifact.com"@),
        origin_allowed("http://ggartifact.com"@),
        origin_allowed("http://localhost"@),
        origin_allowed("http://127.0.0.1"@),
        !origin_allowed("https://ggartifact.com"@ + rest),
        !origin_allowed("http://ggartifact.com"@ + rest),
        origin_allowed("http://localhost"@ + rest) <==> rest[0] == ':',
        origin_allowed("http://127.0.0.1"@ + rest) <==> rest[0] == ':',
        origin_allowed(rest) ==> rest == "https://ggartifact.com"@ || rest
            == "http://ggartifact.com"@ || begins(rest, "http://localhost"@) || begins(
            rest,
            "http://127.0.0.1"@,
        ),
{
    reveal_strlit("https://ggartifact.com");
    reveal_strlit("http://ggartifact.com");
    reveal_strlit("http://localhost");
    reveal_strlit("http://localhost:");
    reveal_strlit("http://127.0.0.1");
    reveal_strlit("http://127.0.0.1:");
    let a = "https://ggartifact.com"@;
    let b = "http://ggartifact.com"@;
    let c = "http://localhost"@;
    let d = "http://127.0.0.1"@;
    lemma_bare(a);
    lemma_bare(b);
    lemma_bare(c);
    lemma_bare(d);
    lemma_bare(rest);
    assert("http://localhost:"@ =~= c.push(':'));
    assert("http://127.0.0.1:"@ =~= d.push(':'));
    lemma_begins(c, rest, ':');
    lemma_begins(d, rest, ':');
    assert((a + rest).last() == rest.last() && (b + rest).last() == rest.last() && (c + rest).last()
        == rest.last() && (d + rest).last() == rest.last());
    lemma_bare(a + rest);
    lemma_bare(b + rest);
    lemma_bare(c + rest);
    lemma_bare(d + rest);
    assert((a + rest)[4] == 's' && (b + rest)[7] == 'g' && (c + rest)[7] == 'l' && (d + rest)[7]
        == '1');
    assert(a[4] == 's' && b[4] == ':' && c[4] == ':' && d[4] == ':' && b[7] == 'g' && c[7] == 'l'
        && d[7] == '1');
    lemma_not_begun(a + rest, "http://localhost:"@, 4);
    lemma_not_begun(a + rest, "http://127.0.0.1:"@, 4);
    lemma_not_begun(b + rest, "http://localhost:"@, 7);
    lemma_not_begun(b + rest, "http://127.0.0.1:"@, 7);
    lemma_not_begun(c + rest, "http://127.0.0.1:"@, 7);
    lemma_not_begun(d + rest, "http://localhost:"@, 7);
    if begins(rest, "http://localhost:"@) {
        assert(rest.subrange(0, 16) =~= rest.subrange(0, 17).take(16));
        assert(c.push(':').take(16) =~= c);
        assert(begins(rest, c));
    }
    if begins(rest, "http://127.0.0.1:"@) {
        assert(rest.subrange(0, 16) =~= rest.subrange(0, 17).take(16));
        assert(d.push(':').take(16) =~= d);
        assert(begins(rest, d));
    }
    if rest == c {
        assert(rest.subrange(0, 16) =~= rest);
    }
    if rest == d {
        assert(rest.subrange(0, 16) =~= rest);
    }
}

proof fn lemma_not_begun(text: Seq<char>, head: Seq<char>, i: int)
    requires
        0 <= i < head.len(),
        i < text.len(),
        text[i] != head[i],
    ensures
        !begins(text, head),
{
    if begins(text, head) {
        assert(text.subrange(0, head.len() as int)[i] == text[i]);
    }
}

/// The origin is the first header of that name, in small or capital letters.
pub proof fn the_first_origin_counts(headers: Seq<HeaderLine>, i: int)
    requires
        0 <= i < headers.len(),
        same_but_case(headers[i].0@, "origin"@),
        forall|k: int| 0 <= k < i ==> !same_but_case((#[trigger] headers[k]).0@, "origin"@),
    ensures
        origin_in(headers, 0) == Some(headers[i].1@),
{
    lemma_origin(headers, 0, i);
}

proof fn lemma_origin(headers: Seq<HeaderLine>, from: int, i: int)
    requires
        0 <= from <= i < headers.len(),
        same_but_case(headers[i].0@, "origin"@),
        forall|k: int| 0 <= k < i ==> !same_but_case((#[trigger] headers[k]).0@, "origin"@),
    ensures
        origin_in(headers, from) == Some(headers[i].1@),
    decreases i - from,
{
    if from < i {
        assert(!same_but_case(headers[from].0@, "origin"@));
        lemma_origin(headers, from + 1, i);
    }
}

/// A request without such a header has no origin.
pub proof fn without_the_header_there_is_no_origin(headers: Seq<HeaderLine>, from: int)
    requires
        0 <= from,
        forall|k: int|
            0 <= k < headers.len() ==> !same_but_case((#[trigger] headers[k]).0@, "origin"@),
    ensures
        origin_in(headers, from) is None,
    decreases headers.len() - from,
{
    if from < headers.len() {
        without_the_header_there_is_no_origin(headers, from + 1);
    }
}

/// Names are compared letter by letter, the 26 capital letters like the small
/// ones.
pub proof fn letters_are_compared_without_case(c: char, a: Seq<char>, b: Seq<char>, d: Seq<char>)
    ensures
        'A' <= c <= 'Z' ==> lower_ascii(c) as int == c as int + 32,
        !('A' <= c <= 'Z') ==> lower_ascii(c) == c,
        same_but_case(a, a),
        same_but_case(a, b) == same_but_case(b, a),
        same_but_case(a, b) && same_but_case(b, d) ==> same_but_case(a, d),
        same_but_case(a, b) ==> a.len() == b.len(),
{
    if same_but_case(a, b) {
        assert forall|i: int| 0 <= i < b.len() implies lower_ascii(#[trigger] b[i]) == lower_ascii(
            a[i],
        ) by {
            assert(lower_ascii(a[i]) == lower_ascii(b[i]));
        }
    }
    if same_but_case(b, a) {
        assert forall|i: int| 0 <= i < a.len() implies lower_ascii(#[trigger] a[i]) == lower_ascii(
            b[i],
        ) by {
            assert(lower_ascii(b[i]) == lower_ascii(a[i]));
        }
    }
    if same_but_case(a, b) && same_but_case(b, d) {
        assert forall|i: int| 0 <= i < a.len() implies lower_ascii(#[trigger] a[i]) == lower_ascii(
            d[i],
        ) by {
            assert(lower_ascii(b[i]) == lower_ascii(d[i]));
        }
    }
}

/// Every answer is JSON; an allowed page is told by its own name that it may read
/// the answer, that it may get and post, and that it may reach a private network.
pub proof fn answers_name_the_page(page: Seq<char>)
    ensures
        answer_headers(None) == seq![("Content-Type"@, "application/json; charset=utf-8"@)],
        ({
            let headers = answer_headers(Some(page));
            &&& headers.contains(("Access-Control-Allow-Origin"@, page))
            &&& headers.contains(("Access-Control-Allow-Methods"@, "GET, POST, OPTIONS"@))
            &&& headers.contains(("Access-Control-Allow-Headers"@, "Content-Type"@))
            &&& headers.contains(("Access-Control-Allow-Private-Network"@, "true"@))
            &&& headers.contains(("Content-Type"@, "application/json; charset=utf-8"@))
            &&& headers.len() == 5
        }),
        headers_for(Route::Preflight, None).len() == 0,
        headers_for(Route::Preflight, Some(page)) == answer_headers(Some(page)),
        headers_for(Route::Manage, None) == answer_headers(None),
{
    let h = answer_headers(Some(page));
    assert(h[0] == ("Access-Control-Allow-Origin"@, page) && h[1] == (
        "Access-Control-Allow-Methods"@,
        "GET, POST, OPTIONS"@,
    ) && h[2] == ("Access-Control-Allow-Headers"@, "Content-Type"@) && h[3] == (
        "Access-Control-Allow-Private-Network"@,
        "true"@,
    ) && h[4] == ("Content-Type"@, "application/json; charset=utf-8"@));
}

/// The game has one of two titles, with any white space around it.
pub proof fn the_game_has_two_titles(title: Seq<char>)
    ensures
        game_title(title) <==> crate::text::trimmed(title) == "原神"@ || crate::text::trimmed(title)
            == "Genshin Impact"@,
{
}

/// An artifact is without fault where its three keys are not blank, it has four or
/// five stars, and its level is from 0 to 20.
pub open spec fn faultless(a: GoodArtifact) -> bool {
    &&& crate::text::trimmed(a.set_key@).len() > 0
    &&& crate::text::trimmed(a.slot_key@).len() > 0
    &&& crate::text::trimmed(a.main_stat_key@).len() > 0
    &&& a.rarity == 4 || a.rarity == 5
    &&& 0 <= a.level <= 20
}

/// A fault is found exactly in an artifact that has one, and the message says in
/// what; a list is turned away for its first artifact with a fault, by its place.
pub proof fn faults_are_found(name: Seq<char>, list: Seq<GoodArtifact>, i: int)
    requires
        0 <= i <= list.len(),
        forall|k: int| 0 <= k < i ==> faultless(#[trigger] list[k]),
        i < list.len() ==> !faultless(list[i]),
    ensures
        i == list.len() ==> first_fault(name, list, 0) is None,
        i < list.len() ==> first_fault(name, list, 0) == Some(
            name + "["@ + crate::number::decimal(i as nat) + "]: "@ + artifact_fault(list[i])->0,
        ),
        i < list.len() ==> artifact_fault(list[i]) is Some,
{
    lemma_faults(name, list, 0, i);
    if i < list.len() {
        lemma_fault(list[i]);
    }
}

proof fn lemma_fault(a: GoodArtifact)
    ensures
        artifact_fault(a) is None <==> faultless(a),
        blank(a.set_key@) ==> artifact_fault(a) == Some("empty setKey"@),
        !blank(a.set_key@) && blank(a.slot_key@) ==> artifact_fault(a) == Some("empty slotKey"@),
        !blank(a.set_key@) && !blank(a.slot_key@) && blank(a.main_stat_key@) ==> artifact_fault(a)
            == Some("empty mainStatKey"@),
{
}

proof fn lemma_faults(name: Seq<char>, list: Seq<GoodArtifact>, from: int, i: int)
    requires
        0 <= from <= i <= list.len(),
        forall|k: int| 0 <= k < i ==> faultless(#[trigger] list[k]),
        i < list.len() ==> !faultless(list[i]),
    ensures
        i == list.len() ==> first_fault(name, list, from) is None,
        i < list.len() ==> first_fault(name, list, from) == Some(
            name + "["@ + crate::number::decimal(i as nat) + "]: "@ + artifact_fault(list[i])->0,
        ),
    decreases i - from,
{
    if from < i {
        assert(faultless(list[from]));
        lemma_faults(name, list, from + 1, i);
    }
}

/// A job to lock and unlock is sound where it names an artifact and none with a
/// fault; a job to equip is, where it has an instruction and none for an artifact
/// with a fault. Any other is answered with status 400.
pub proof fn sound_jobs_name_sound_artifacts(
    manage: crate::server::jobs::LockManageRequest,
    equip: crate::server::jobs::EquipRequest,
    english: bool,
    reply: Reply,
)
    ensures
        manage_sound(manage) <==> manage.lock@.len() + manage.unlock@.len() > 0 && (forall|k: int|
            0 <= k < manage.lock@.len() ==> faultless(#[trigger] manage.lock@[k])) && (forall|
            k: int,
        |
            0 <= k < manage.unlock@.len() ==> faultless(#[trigger] manage.unlock@[k])),
        equip_sound(equip) <==> equip.equip@.len() > 0 && (forall|k: int|
            0 <= k < equip.equip@.len() ==> faultless((#[trigger] equip.equip@[k]).artifact)),
        manage_refused(manage, english, reply) ==> !manage_sound(manage) && reply.status == 400,
        equip_refused(equip, english, reply) ==> !equip_sound(equip) && reply.status == 400,
{
    lemma_list_faults("lock"@, manage.lock@);
    lemma_list_faults("unlock"@, manage.unlock@);
    let list = artifacts_of(equip.equip@);
    lemma_list_faults("equip"@, list);
    assert forall|k: int| 0 <= k < list.len() implies #[trigger] list[k]
        == equip.equip@[k].artifact by {}
    if forall|k: int| 0 <= k < equip.equip@.len() ==> faultless((#[trigger] equip.equip@[k]).artifact) {
        assert forall|k: int| 0 <= k < list.len() implies faultless(#[trigger] list[k]) by {
            assert(faultless(equip.equip@[k].artifact));
        }
    }
    if forall|k: int| 0 <= k < list.len() ==> faultless(#[trigger] list[k]) {
        assert forall|k: int| 0 <= k < equip.equip@.len() implies faultless(
            (#[trigger] equip.equip@[k]).artifact,
        ) by {
            assert(faultless(list[k]));
        }
    }
}

proof fn lemma_list_faults(name: Seq<char>, list: Seq<GoodArtifact>)
    ensures
        first_fault(name, list, 0) is None <==> forall|k: int|
            0 <= k < list.len() ==> faultless(#[trigger] list[k]),
{
    let i = lemma_first(list, 0);
    faults_are_found(name, list, i);
}

proof fn lemma_first(list: Seq<GoodArtifact>, from: int) -> (i: int)
    requires
        0 <= from <= list.len(),
        forall|k: int| 0 <= k < from ==> faultless(#[trigger] list[k]),
    ensures
        from <= i <= list.len(),
        forall|k: int| 0 <= k < i ==> faultless(#[trigger] list[k]),
        i < list.len() ==> !faultless(list[i]),
    decreases list.len() - from,
{
    if from < list.len() && faultless(list[from]) {
        lemma_first(list, from + 1)
    } else {
        from
    }
}

/// A job has one instruction for each artifact that it names, and it changes the
/// game unless it names none to lock or unlock.
pub proof fn jobs_have_one_instruction_for_each_artifact(job: JobRequest)
    ensures
        job matches JobRequest::Manage(r) ==> job_size(job) == r.lock@.len() + r.unlock@.len()
            && job_changes_game(job) == (job_size(job) > 0),
        job matches JobRequest::Equip(r) ==> job_size(job) == r.equip@.len() && job_changes_game(
            job,
        ),
{
}

/// A server takes a job where it is enabled, no job runs, and the body has at most
/// five mebibytes; else it answers that it is paused, that it is busy, or that the
/// body is too long, the first of these that holds.
pub proof fn jobs_are_taken_one_at_a_time(
    server: ManagerServer,
    length: Option<usize>,
    reply: Reply,
)
    ensures
        server.takes_jobs(length) <==> server.enabled && !(server.job.state is Running) && (length
            is None || length->0 <= 5 * 1024 * 1024),
        server.turned_away(length, reply) ==> reply.status == if !server.enabled {
            503int
        } else if server.job.state is Running {
            409
        } else {
            413
        },
{
}

/// A body counts where it was read and parsed and has at most five mebibytes; else
/// the answer is 413 for one that is too long and 400 for any other.
pub proof fn bodies_are_read_in_full<R>(body: Body<R>, english: bool, reply: Reply)
    requires
        body_refused(body, english, reply),
    ensures
        body_of(body) is None,
        reply.status == if body matches Body::Read { len, .. } && len > 5 * 1024 * 1024 {
            413int
        } else {
            400
        },
{
}

/// A body that was read, parsed and is short enough counts.
pub proof fn short_bodies_count<R>(len: usize, request: R)
    ensures
        len <= 5 * 1024 * 1024 ==> body_of(Body::Read { len, parsed: Ok(request) }) == Some(
            request,
        ),
        len > 5 * 1024 * 1024 ==> body_of(Body::Read { len, parsed: Ok(request) }) is None,
{
}

/// A job that is taken runs under the name that is answered, with all of its
/// instructions to do, and nothing else of the server changes.
pub proof fn taken_jobs_run(
    before: ManagerServer,
    after: ManagerServer,
    id: Seq<char>,
    job: JobRequest,
    submission: Submission,
)
    requires
        job_taken(before, after, id, job, submission),
    ensures
        submission.reply.status == 202,
        submission.job matches Some((name, j)) && name@ == id && j == job,
        after.job.state is Running,
        text_of(after.job.job_id) == Some(id),
        !after.takes_jobs(None),
        after.job.progress matches Some(p) && p.completed == 0 && p.total == job_size(job),
        after.enabled == before.enabled,
        after.cache == before.cache,
        after.job.result is None,
{
}

/// Each request is answered with its status: 204 before a request, 200 for status
/// and health, 404 for an address that is not known; the artifacts come with 200
/// where a scan is complete, with 503 where the last one was not, and with 404
/// where there was none.
pub proof fn routes_have_their_status(
    server: ManagerServer,
    route: Route,
    game_alive: bool,
    task: Task,
)
    requires
        route_answered(server, route, game_alive, task),
    ensures
        route is Manage <==> task is Manage,
        route is Equip <==> task is Equip,
        route is Preflight ==> (task matches Task::Answer(r) && r.status == 204 && r.body is Empty),
        route is Status ==> (task matches Task::Answer(r) && r.status == 200 && r.body is Status),
        route is Health ==> (task matches Task::Answer(r) && r.status == 200),
        route is Unknown ==> (task matches Task::Answer(r) && r.status == 404),
        route is Artifacts ==> (task matches Task::Answer(r) && r.status == match server.cache {
            ArtifactCache::Complete(_) => 200int,
            ArtifactCache::Incomplete => 503,
            ArtifactCache::Empty => 404,
        }),
{
}

/// A result is asked for by a name; without one the answer is 400, under any name
/// but that of the last job 404, and while that job runs 409.
pub proof fn results_are_asked_for_by_name(job: JobState, id: Option<Seq<char>>, reply: Reply)
    requires
        job.valid(),
        result_answered(job, id, reply),
    ensures
        id is None || id->0.len() == 0 ==> reply.status == 400,
        id matches Some(i) && i.len() > 0 && text_of(job.job_id) != Some(i) ==> reply.status == 404,
        id matches Some(i) && i.len() > 0 && text_of(job.job_id) == Some(i) ==> reply.status
            == match job.state {
            JobPhase::Idle => 404int,
            JobPhase::Running => 409,
            JobPhase::Completed => 200,
        },
{
}

/// An error is told as JSON with one field, and a taken job with its name and the
/// number of its instructions.
pub proof fn answers_are_json(msg: Seq<char>, total: nat)
    ensures
        error_text(msg) == "{\"error\":\""@ + msg + "\"}"@,
        accepted_text(msg, total as int) == "{\"jobId\":\""@ + msg + "\",\"total\":"@
            + crate::number::decimal(total) + "}"@,
{
}

/// The health of the server tells whether it is enabled, whether a job runs, and
/// whether the game is there, each under its own name.
pub proof fn health_tells_three_things(enabled: bool, busy: bool, alive: bool)
    ensures
        health_text(enabled, busy, alive) == "{\"status\":\"ok\",\"enabled\":"@ + (if enabled {
            "true"@
        } else {
            "false"@
        }) + ",\"busy\":"@ + (if busy {
            "true"@
        } else {
            "false"@
        }) + ",\"gameAlive\":"@ + (if alive {
            "true"@
        } else {
            "false"@
        }) + "}"@,
{
}

/// A job that could not be done has one failed instruction for each of its own,
/// numbered from 0 on, and counts no other result.
pub proof fn failed_jobs_count_errors(result: ManageResult, n: int)
    requires
        0 <= n,
        all_failed(result, n),
    ensures
        result.summary.total == n,
        result.summary.errors == n,
        result.summary.success == 0,
        result.summary.already_correct == 0,
        result.summary.not_found == 0,
        result.summary.aborted == 0,
{
    lemma_failed(result, n, n as nat);
}

proof fn lemma_failed(result: ManageResult, n: int, k: nat)
    requires
        all_failed(result, n),
        k <= n,
    ensures
        crate::server::jobs::count_of(
            result.results@,
            crate::server::jobs::InstructionStatus::UiError,
            k,
        ) == k,
        crate::server::jobs::count_of(
            result.results@,
            crate::server::jobs::InstructionStatus::Success,
            k,
        ) == 0,
        crate::server::jobs::count_of(
            result.results@,
            crate::server::jobs::InstructionStatus::AlreadyCorrect,
            k,
        ) == 0,
        crate::server::jobs::count_of(
            result.results@,
            crate::server::jobs::InstructionStatus::NotFound,
            k,
        ) == 0,
        crate::server::jobs::count_of(
            result.results@,
            crate::server::jobs::InstructionStatus::Aborted,
            k,
        ) == 0,
    decreases k,
{
    if k > 0 {
        lemma_failed(result, n, (k - 1) as nat);
        assert(result.results@[k - 1].status == crate::server::jobs::InstructionStatus::UiError);
    }
}

/// A time is told in hours, minutes and seconds of the day, each with two digits,
/// and milliseconds with three: it is the same a day later.
pub proof fn times_are_told_by_the_day(h: int, m: int, s: int, millis: nat, day: int)
    requires
        0 <= h < 24,
        0 <= m < 60,
        0 <= s < 60,
        0 <= day,
    ensures
        time_text(86_400 * day + 3600 * h + 60 * m + s, millis as int) == crate::number::padded(
            h as nat,
            2,
        ) + "-"@ + crate::number::padded(m as nat, 2) + "-"@ + crate::number::padded(s as nat, 2)
            + "_"@ + crate::number::padded(millis, 3),
{
    let t = 86_400 * day + 3600 * h + 60 * m + s;
    assert(t / 3600 == 24 * day + h);
    assert(t / 60 == 1440 * day + 60 * h + m);
}

/// From the begin of a job that changes the game on, what was scanned before is
/// incomplete; where nothing was scanned, nothing is.
pub proof fn changes_spoil_what_was_scanned(cache: ArtifactCache)
    ensures
        !(spoiled(cache) is Complete),
        spoiled(cache) is Empty <==> cache is Empty,
        spoiled(spoiled(cache)) == spoiled(cache),
{
}

/// A second question mark ends the query, and the first job that is named in it is
/// the one that is asked for.
pub proof fn the_first_job_of_the_query_counts(
    path: Seq<char>,
    query: Seq<char>,
    rest: Seq<char>,
    id: Seq<char>,
)
    requires
        !path.contains('?'),
        !query.contains('?'),
        !id.contains('?'),
        !id.contains('&'),
    ensures
        queried_job(path.push('?') + (query.push('?') + rest)) == queried_job(
            path.push('?') + query,
        ),
        queried_job(path.push('?') + (("jobId="@ + id).push('&') + query)) == Some(id),
{
    crate::text_laws::texts_are_cut_at_separators(path, query.push('?') + rest, '?');
    crate::text_laws::texts_are_cut_at_separators(query, rest, '?');
    crate::text_laws::texts_are_cut_at_separators(path, query, '?');
    let long = pieces(path.push('?') + (query.push('?') + rest), '?');
    assert(long =~= seq![path] + (seq![query] + pieces(rest, '?')));
    assert(long[1] == query);
    let short = pieces(path.push('?') + query, '?');
    assert(short =~= seq![path, query]);
    reveal_strlit("jobId=");
    let name = "jobId="@;
    let named = name + id;
    lemma_free(name, id, '?');
    lemma_free(name, id, '&');
    let both = named.push('&') + query;
    assert(!both.contains('?')) by {
        if both.contains('?') {
            let i = choose|i: int| 0 <= i < both.len() && both[i] == '?';
            if i < named.len() {
                assert(named[i] == '?');
            } else if i > named.len() {
                assert(query[i - named.len() - 1] == '?');
            }
        }
    }
    crate::text_laws::texts_are_cut_at_separators(path, both, '?');
    crate::text_laws::texts_are_cut_at_separators(both, both, '?');
    crate::text_laws::texts_are_cut_at_separators(named, query, '&');
    let parts = pieces(path.push('?') + both, '?');
    assert(parts =~= seq![path, both]);
    let list = pieces(both, '&');
    assert(list[0] == named);
    assert(named.subrange(0, name.len() as int) =~= name);
    assert(named.skip(name.len() as int) =~= id);
}

} // verus!
