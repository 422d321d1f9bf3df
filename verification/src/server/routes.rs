//! Which request asks for what.
use crate::server::origin::{begins, begins_with};
use crate::text::{chars_of, matches_at, pieces, same_text, split_chars, string_of};
use vstd::prelude::*;

verus! {

/// The method of a request.
#[derive(Debug, Clone, Copy, PartialEq, Eq, Structural)]
pub enum Method {
    Get,
    Post,
    Options,
    Other,
}

/// What a request asks for.
#[derive(Debug)]
pub enum Route {
    /// Whether a page may send a request.
    Preflight,
    /// To lock and unlock artifacts.
    Manage,
    /// To equip artifacts.
    Equip,
    /// How far the job is.
    Status,
    /// The result of the job with this name.
    JobResult(Option<String>),
    /// How the server is.
    Health,
    /// The artifacts of the last scan.
    Artifacts,
    /// Nothing that there is.
    Unknown,
}

/// The first piece that starts with the name of the parameter, from `i` on.
pub open spec fn first_parameter(parts: Seq<Seq<char>>, name: Seq<char>, i: int) -> Option<
    Seq<char>,
>
    decreases parts.len() - i,
{
    if i < 0 || i >= parts.len() {
        None
    } else if begins(parts[i], name) {
        Some(parts[i].skip(name.len() as int))
    } else {
        first_parameter(parts, name, i + 1)
    }
}

/// The name of the job in the query of an address.
pub open spec fn queried_job(url: Seq<char>) -> Option<Seq<char>> {
    let parts = pieces(url, '?');
    if parts.len() < 2 {
        None
    } else {
        first_parameter(pieces(parts[1], '&'), "jobId="@, 0)
    }
}

fn rest_of(text: &Vec<char>, from: usize) -> (out: Vec<char>)
    requires
        from <= text@.len(),
    ensures
        out@ == text@.skip(from as int),
{
    let mut out: Vec<char> = Vec::new();
    let mut i: usize = from;
    while i < text.len()
        invariant
            from <= i <= text@.len(),
            out@ == text@.subrange(from as int, i as int),
        decreases text@.len() - i,
    {
        out.push(text[i]);
        i = i + 1;
        assert(text@.subrange(from as int, i as int) =~= text@.subrange(from as int, i - 1).push(
            text@[i - 1],
        ));
    }
    assert(out@ =~= text@.skip(from as int));
    out
}

/// The name of the job in the query of an address.
pub fn job_query(url: &str) -> (job: Option<String>)
    ensures
        crate::text::text_of(job) == queried_job(url@),
{
    let chars = chars_of(url);
    assert(chars@.skip(0) =~= url@);
    let parts = split_chars(&chars, 0, '?');
    if parts.len() < 2 {
        return None;
    }
    assert(parts@[1]@ == pieces(url@, '?')[1]);
    assert(parts@[1]@.skip(0) =~= parts@[1]@);
    let params = split_chars(&parts[1], 0, '&');
    let ghost all = pieces(parts@[1]@, '&');
    let name = chars_of("jobId=");
    assert(queried_job(url@) == first_parameter(all, "jobId="@, 0));
    let mut i: usize = 0;
    while i < params.len()
        invariant
            i <= params@.len(),
            name@ == "jobId="@,
            queried_job(url@) == first_parameter(all, "jobId="@, 0),
            params@.len() == all.len(),
            forall|k: int| 0 <= k < params@.len() ==> (#[trigger] params@[k])@ == all[k],
            first_parameter(all, "jobId="@, 0) == first_parameter(all, "jobId="@, i as int),
        decreases params@.len() - i,
    {
        assert(params@[i as int]@ == all[i as int]);
        if matches_at(&params[i], &name, 0) {
            let len: usize = name.len();
            return Some(string_of(&rest_of(&params[i], len)));
        }
        i = i + 1;
    }
    None
}

/// What a request asks for, by its method and its address.
pub open spec fn routed(method: Method, url: Seq<char>, route: Route) -> bool {
    match method {
        Method::Options => route is Preflight,
        Method::Post => if url == "/manage"@ {
            route is Manage
        } else if url == "/equip"@ {
            route is Equip
        } else {
            route is Unknown
        },
        Method::Get => if url == "/status"@ {
            route is Status
        } else if begins(url, "/result"@) {
            route matches Route::JobResult(id) && crate::text::text_of(id) == queried_job(url)
        } else if url == "/health"@ {
            route is Health
        } else if url == "/artifacts"@ {
            route is Artifacts
        } else {
            route is Unknown
        },
        Method::Other => route is Unknown,
    }
}

/// What a request asks for.
pub fn route(method: Method, url: &str) -> (r: Route)
    ensures
        routed(method, url@, r),
{
    match method {
        Method::Options => Route::Preflight,
        Method::Post => if same_text(url, "/manage") {
            Route::Manage
        } else if same_text(url, "/equip") {
            Route::Equip
        } else {
            Route::Unknown
        },
        Method::Get => if same_text(url, "/status") {
            Route::Status
        } else if begins_with(url, "/result") {
            Route::JobResult(job_query(url))
        } else if same_text(url, "/health") {
            Route::Health
        } else if same_text(url, "/artifacts") {
            Route::Artifacts
        } else {
            Route::Unknown
        },
        Method::Other => Route::Unknown,
    }
}

} // verus!
