//! What the server answers while jobs come and go.
use good_scanner::lang::Lang;
use good_scanner::scanner::common::models::{GoodArtifact, GoodSubStat};
use good_scanner::server::jobs::{
    bind_error, request_file, timestamp_string, EquipInstruction, EquipRequest, InstructionResult,
    InstructionStatus, JobPhase, JobProgress, JobRequest, LockManageRequest, ManageResult,
    ManageSummary,
};
use good_scanner::server::origin::{
    check_origin, cors_headers, get_origin, is_game_window_alive, is_origin_allowed, OriginCheck,
};
use good_scanner::server::routes::{route, Method, Route};
use good_scanner::server::state::{
    ArtifactCache, Body, ManagerServer, Reply, ReplyBody, Submission, Task, MAX_BODY_SIZE,
};

fn make_result(statuses: &[(&str, InstructionStatus)]) -> ManageResult {
    let results: Vec<InstructionResult> = statuses
        .iter()
        .map(|(id, status)| InstructionResult { id: id.to_string(), status: *status })
        .collect();
    let summary = ManageSummary::from_results(&results);
    ManageResult { results, summary }
}

fn make_artifact(set: &str, slot: &str, level: i32, locked: bool) -> GoodArtifact {
    GoodArtifact {
        set_key: set.to_string(),
        slot_key: slot.to_string(),
        rarity: 5,
        level,
        main_stat_key: "hp".to_string(),
        substats: vec![GoodSubStat {
            key: "critRate_".to_string(),
            value: 3_900_000,
            initial_value: None,
        }],
        location: String::new(),
        lock: locked,
        astral_mark: false,
        elixir_crafted: false,
        unactivated_substats: Vec::new(),
        total_rolls: None,
    }
}

/// A request to lock one artifact for each name.
fn make_manage_request(ids: &[&str]) -> LockManageRequest {
    LockManageRequest {
        lock: ids
            .iter()
            .map(|_id| {
                let mut a = make_artifact("GladiatorsFinale", "flower", 20, false);
                a.substats = Vec::new();
                a
            })
            .collect(),
        unlock: Vec::new(),
    }
}

fn server() -> ManagerServer {
    ManagerServer::new(true, Lang { english: true })
}

fn text(reply: &Reply) -> String {
    match &reply.body {
        ReplyBody::Text(t) => t.clone(),
        _ => String::new(),
    }
}

fn manage(server: &mut ManagerServer, request: LockManageRequest) -> Submission {
    server.handle_manage(Some(100), Body::Read { len: 100, parsed: Ok(request) })
}

fn equip(server: &mut ManagerServer, request: EquipRequest) -> Submission {
    server.handle_equip(Some(100), Body::Read { len: 100, parsed: Ok(request) })
}

/// Submits a job and gives back its name and the job.
fn submit(server: &mut ManagerServer, ids: &[&str]) -> (String, JobRequest) {
    assert!(server.refuse(Some(100)).is_none());
    let submission = manage(server, make_manage_request(ids));
    assert_eq!(submission.reply.status, 202);
    submission.job.unwrap()
}

/// Executes a job from its begin to its end.
fn execute(
    server: &mut ManagerServer,
    id: &str,
    job: &JobRequest,
    outcome: (ManageResult, Option<Vec<GoodArtifact>>),
) {
    server.begin(job);
    server.finished(id.to_string(), outcome.0, outcome.1, true);
}

/// Submits a job and executes it.
fn run(
    server: &mut ManagerServer,
    ids: &[&str],
    outcome: (ManageResult, Option<Vec<GoodArtifact>>),
) -> String {
    let (id, job) = submit(server, ids);
    execute(server, &id, &job, outcome);
    assert_eq!(server.job.state, JobPhase::Completed);
    id
}

#[test]
fn test_readonly_endpoints() {
    let mut server = server();

    // --- health returns ok when idle ---
    assert!(matches!(route(Method::Get, "/health"), Route::Health));
    let reply = server.health(false);
    assert_eq!(reply.status, 200);
    let body = text(&reply);
    assert!(body.contains("\"status\":\"ok\""));
    assert!(body.contains("\"enabled\":true"));
    assert!(body.contains("\"busy\":false"));

    // --- CORS: allowed origins ---
    let origin = Some("https://ggartifact.com".to_string());
    assert!(matches!(check_origin(&origin), OriginCheck::Allowed(_)));
    let headers = cors_headers(&origin);
    assert!(headers
        .iter()
        .any(|h| h.0 == "Access-Control-Allow-Origin" && h.1 == "https://ggartifact.com"));
    assert!(matches!(
        check_origin(&Some("http://localhost:3000".to_string())),
        OriginCheck::Allowed(_)
    ));
    assert!(matches!(
        check_origin(&Some("http://127.0.0.1:5173".to_string())),
        OriginCheck::Allowed(_)
    ));
    assert!(matches!(check_origin(&None), OriginCheck::NoPage));

    // --- CORS: disallowed origin returns 403 ---
    assert!(matches!(
        check_origin(&Some("https://evil.com".to_string())),
        OriginCheck::Refused
    ));
    let reply = ManagerServer::refuse_origin();
    assert_eq!(reply.status, 403);
    assert!(text(&reply).contains("Origin not allowed"));

    // --- CORS: preflight OPTIONS ---
    assert!(matches!(route(Method::Options, "/manage"), Route::Preflight));
    assert_eq!(ManagerServer::preflight().status, 204);

    // --- manage: empty instructions returns 400 ---
    assert!(matches!(route(Method::Post, "/manage"), Route::Manage));
    let submission =
        manage(&mut server, LockManageRequest { lock: Vec::new(), unlock: Vec::new() });
    assert_eq!(submission.reply.status, 400);
    assert!(submission.job.is_none());

    // --- manage: bad JSON returns 400 ---
    let bad: Body<LockManageRequest> =
        Body::Read { len: 8, parsed: Err("expected value at line 1 column 1".to_string()) };
    let reply = server.handle_manage(Some(8), bad).reply;
    assert_eq!(reply.status, 400);
    assert!(text(&reply).contains("JSON"));

    // --- status: idle before any job ---
    assert!(matches!(route(Method::Get, "/status"), Route::Status));
    assert_eq!(server.status().status, 200);
    assert_eq!(server.job.state, JobPhase::Idle);

    // --- result: 400 without jobId ---
    match route(Method::Get, "/result") {
        Route::JobResult(id) => assert_eq!(server.result(&id).status, 400),
        other => panic!("{:?}", other),
    }

    // --- result: 404 for unknown jobId ---
    match route(Method::Get, "/result?jobId=nonexistent") {
        Route::JobResult(id) => assert_eq!(server.result(&id).status, 404),
        other => panic!("{:?}", other),
    }

    // --- unknown route returns 404 ---
    assert!(matches!(route(Method::Get, "/nonexistent"), Route::Unknown));
    assert_eq!(ManagerServer::unknown().status, 404);

    // --- artifacts: 404 before any scan ---
    assert!(matches!(route(Method::Get, "/artifacts"), Route::Artifacts));
    assert_eq!(server.artifacts().status, 404);
}

#[test]
fn test_manage_accepts_valid_request() {
    let mut server = server();
    let submission = manage(&mut server, make_manage_request(&["a"]));
    assert_eq!(submission.reply.status, 202);
    let body = text(&submission.reply);
    let (id, job) = submission.job.unwrap();
    assert!(body.contains(&format!("\"jobId\":\"{}\"", id)));
    assert!(body.contains("\"total\":1"));
    execute(
        &mut server,
        &id,
        &job,
        (make_result(&[("a", InstructionStatus::Success)]), None),
    );
    assert_eq!(server.job.state, JobPhase::Completed);
}

#[test]
fn test_manage_disabled_returns_503() {
    let mut server = ManagerServer::new(false, Lang { english: true });
    assert_eq!(server.refuse(Some(100)).unwrap().status, 503);
    let submission = manage(&mut server, make_manage_request(&["a"]));
    assert_eq!(submission.reply.status, 503);
}

#[test]
fn test_busy_state_behavior() {
    let mut server = server();
    let (job_id, job) = submit(&mut server, &["a"]);
    server.begin(&job);

    // --- 409 when busy: second job rejected ---
    assert_eq!(server.refuse(Some(100)).unwrap().status, 409);
    let second = manage(&mut server, make_manage_request(&["b"]));
    assert_eq!(second.reply.status, 409);
    assert!(second.job.is_none());

    // --- health shows busy during job ---
    assert!(text(&server.health(false)).contains("\"busy\":true"));

    // --- result returns 409 when still running ---
    match route(Method::Get, &format!("/result?jobId={}", job_id)) {
        Route::JobResult(id) => assert_eq!(server.result(&id).status, 409),
        other => panic!("{:?}", other),
    }
}

#[test]
fn test_full_lifecycle_submit_poll_result() {
    let mut server = server();
    let job_id = run(
        &mut server,
        &["i1", "i2", "i3"],
        (
            make_result(&[
                ("i1", InstructionStatus::Success),
                ("i2", InstructionStatus::NotFound),
                ("i3", InstructionStatus::AlreadyCorrect),
            ]),
            None,
        ),
    );

    // Check status summary
    assert_eq!(server.status().status, 200);
    assert_eq!(server.job.state, JobPhase::Completed);
    let summary = server.job.result.as_ref().unwrap().summary;
    assert_eq!(summary.total, 3);
    assert_eq!(summary.success, 1);
    assert_eq!(summary.not_found, 1);
    assert_eq!(summary.already_correct, 1);

    // Get full result (with jobId)
    let reply = server.result(&Some(job_id.clone()));
    assert_eq!(reply.status, 200);
    assert!(matches!(reply.body, ReplyBody::JobResult));
    let results = &server.job.result.as_ref().unwrap().results;
    assert_eq!(results[0].id, "i1");
    assert_eq!(results[0].status, InstructionStatus::Success);
    assert_eq!(results[1].id, "i2");
    assert_eq!(results[1].status, InstructionStatus::NotFound);
    assert_eq!(results[2].id, "i3");
    assert_eq!(results[2].status, InstructionStatus::AlreadyCorrect);

    // Result is idempotent: second call returns same data
    assert_eq!(server.result(&Some(job_id)).status, 200);
}

#[test]
fn test_artifacts_returns_200_after_complete_scan() {
    let mut server = server();
    let artifacts = vec![
        make_artifact("GladiatorsFinale", "flower", 20, true),
        make_artifact("WanderersTroupe", "plume", 16, false),
    ];
    run(
        &mut server,
        &["a"],
        (make_result(&[("a", InstructionStatus::Success)]), Some(artifacts)),
    );

    let reply = server.artifacts();
    assert_eq!(reply.status, 200);
    assert!(matches!(reply.body, ReplyBody::Artifacts));
    match &server.cache {
        ArtifactCache::Complete(list) => {
            assert_eq!(list.len(), 2);
            assert_eq!(list[0].set_key, "GladiatorsFinale");
            assert_eq!(list[1].set_key, "WanderersTroupe");
        }
        other => panic!("{:?}", other),
    }
}

#[test]
fn test_artifacts_stays_404_after_no_snapshot_job() {
    let mut server = server();
    run(&mut server, &["a"], (make_result(&[("a", InstructionStatus::Success)]), None));
    assert_eq!(server.artifacts().status, 404);
}

#[test]
fn test_artifacts_returns_503_after_aborted_scan_invalidates_cache() {
    let mut server = server();
    // Job 1: complete scan with snapshot
    let artifacts = vec![make_artifact("GladiatorsFinale", "flower", 20, true)];
    run(
        &mut server,
        &["a"],
        (make_result(&[("a", InstructionStatus::Success)]), Some(artifacts)),
    );

    // Verify cache is populated
    assert_eq!(server.artifacts().status, 200);

    // Job 2: aborted, no snapshot
    run(&mut server, &["b"], (make_result(&[("b", InstructionStatus::Aborted)]), None));

    // Cache should now be 503 (Incomplete)
    assert_eq!(server.artifacts().status, 503);
}

#[test]
fn test_artifacts_invalidated_when_lock_job_returns_no_snapshot() {
    // An early stop returns all Success but no artifact snapshot. The cache must
    // still be invalidated because lock changes were applied in-game.
    let mut server = server();
    // Job 1: complete scan with snapshot
    let artifacts = vec![make_artifact("GladiatorsFinale", "flower", 20, true)];
    run(
        &mut server,
        &["a"],
        (make_result(&[("a", InstructionStatus::Success)]), Some(artifacts)),
    );
    assert_eq!(server.artifacts().status, 200);

    // Job 2: lock instructions present, Success status, but no snapshot
    run(&mut server, &["b"], (make_result(&[("b", InstructionStatus::Success)]), None));

    // Cache must be invalidated (503), not stale 200
    assert_eq!(server.artifacts().status, 503);
}

#[test]
fn test_artifacts_cleared_when_update_inventory_off_after_on() {
    // With the inventory update on, a full scan produces a snapshot. With it off
    // in the same session, the snapshot must be cleared: partial scans should
    // never serve stale data.
    let mut server = server();
    // Job 1: full scan with snapshot
    let artifacts = vec![
        make_artifact("GladiatorsFinale", "flower", 20, true),
        make_artifact("WanderersTroupe", "plume", 16, false),
    ];
    run(
        &mut server,
        &["a"],
        (make_result(&[("a", InstructionStatus::Success)]), Some(artifacts)),
    );
    assert_eq!(server.artifacts().status, 200);
    match &server.cache {
        ArtifactCache::Complete(list) => assert_eq!(list.len(), 2),
        other => panic!("{:?}", other),
    }

    // Job 2: lock changes applied, no snapshot
    run(&mut server, &["b"], (make_result(&[("b", InstructionStatus::Success)]), None));

    // Must NOT return the stale snapshot from job 1
    assert_ne!(
        server.artifacts().status,
        200,
        "/artifacts must not serve stale data after a scan with update_inventory OFF"
    );
}

#[test]
fn test_artifacts_cleared_immediately_when_job_starts() {
    // Even during execution, the artifacts of a previous scan must not be served.
    let mut server = server();
    // Job 1: full scan with snapshot
    let artifacts = vec![make_artifact("GladiatorsFinale", "flower", 20, true)];
    run(
        &mut server,
        &["a"],
        (make_result(&[("a", InstructionStatus::Success)]), Some(artifacts)),
    );
    assert_eq!(server.artifacts().status, 200);

    // Job 2: check the artifacts while it is still running
    let (id, job) = submit(&mut server, &["b"]);
    server.begin(&job);
    assert_ne!(
        server.artifacts().status,
        200,
        "/artifacts must be cleared as soon as a lock job starts, not after it finishes"
    );
    server.finished(id, make_result(&[("b", InstructionStatus::Success)]), None, true);
    assert_eq!(server.job.state, JobPhase::Completed);
}

#[test]
fn test_game_init_failure_produces_ui_error_results() {
    let mut server = server();
    let (job_id, job) = submit(&mut server, &["x", "y"]);
    server.init_failed(job_id.clone(), &job);

    // Check result
    assert_eq!(server.result(&Some(job_id)).status, 200);
    let results = &server.job.result.as_ref().unwrap().results;
    assert_eq!(results.len(), 2);
    assert_eq!(results[0].status, InstructionStatus::UiError);
    assert_eq!(results[1].status, InstructionStatus::UiError);
    assert_eq!(results[1].id, "item_1");
}

#[test]
fn test_sequential_jobs_reset_state() {
    let mut server = server();
    // Job 1
    let job1_id =
        run(&mut server, &["j1"], (make_result(&[("j1", InstructionStatus::Success)]), None));
    assert_eq!(server.result(&Some(job1_id.clone())).status, 200);
    {
        let results = &server.job.result.as_ref().unwrap().results;
        assert_eq!(results[0].id, "j1");
        assert_eq!(results[0].status, InstructionStatus::Success);
    }

    // Job 2
    let job2_id =
        run(&mut server, &["j2"], (make_result(&[("j2", InstructionStatus::NotFound)]), None));
    assert_eq!(server.result(&Some(job2_id)).status, 200);
    {
        let results = &server.job.result.as_ref().unwrap().results;
        assert_eq!(results[0].id, "j2");
        assert_eq!(results[0].status, InstructionStatus::NotFound);
    }

    // Job 1's result is gone, replaced by job 2
    assert_eq!(server.result(&Some(job1_id)).status, 404);
}

#[test]
fn names_of_jobs_differ_and_are_hexadecimal() {
    let mut first = server();
    let mut second = server();
    let (a, _) = submit(&mut first, &["x"]);
    let (b, _) = submit(&mut second, &["x"]);
    assert_ne!(a, b);
    assert_eq!(a.len(), 36);
    for (i, c) in a.chars().enumerate() {
        if i == 8 || i == 13 || i == 18 || i == 23 {
            assert_eq!(c, '-');
        } else {
            assert!(c.is_ascii_digit() || ('a'..='f').contains(&c));
        }
    }
}

#[test]
fn faults_of_artifacts_are_named_with_their_place() {
    let mut server = server();
    let mut request = make_manage_request(&["a", "b"]);
    request.lock[1].rarity = 6;
    let submission = manage(&mut server, request);
    assert_eq!(submission.reply.status, 400);
    assert!(submission.job.is_none());
    assert!(text(&submission.reply).contains("lock[1]"));
    assert_eq!(server.job.state, JobPhase::Idle);

    let mut request = make_manage_request(&[]);
    request.unlock.push(make_artifact("", "flower", 20, false));
    let submission = manage(&mut server, request);
    assert_eq!(submission.reply.status, 400);
    assert!(text(&submission.reply).contains("unlock[0]"));
}

#[test]
fn equipping_needs_instructions_without_fault() {
    let mut server = server();
    let none = equip(&mut server, EquipRequest { equip: Vec::new() });
    assert_eq!(none.reply.status, 400);
    let bad = equip(&mut server, EquipRequest {
        equip: vec![EquipInstruction {
            artifact: make_artifact("GladiatorsFinale", "", 20, false),
            location: "Furina".to_string(),
        }],
    });
    assert_eq!(bad.reply.status, 400);
    assert!(text(&bad.reply).contains("equip[0]"));
    let good = equip(&mut server, EquipRequest {
        equip: vec![EquipInstruction {
            artifact: make_artifact("GladiatorsFinale", "flower", 20, false),
            location: "Furina".to_string(),
        }],
    });
    assert_eq!(good.reply.status, 202);
    assert!(matches!(good.job, Some((_, JobRequest::Equip(_)))));
}

#[test]
fn long_bodies_are_refused() {
    let server = server();
    assert!(server.refuse(Some(MAX_BODY_SIZE)).is_none());
    assert!(server.refuse(None).is_none());
    let refusal = server.refuse(Some(MAX_BODY_SIZE + 1)).unwrap();
    assert_eq!(refusal.status, 413);
    assert_eq!(
        text(&refusal),
        "{\"error\":\"请求体过大（5242881 字节，上限 5242880 字节）/ Request body too large: 5242881 bytes (max 5242880)\"}"
    );
    assert_eq!(server.refuse_size(MAX_BODY_SIZE + 1).unwrap().status, 413);
}

#[test]
fn messages_come_in_the_language_of_the_user() {
    let chinese = ManagerServer::new(false, Lang { english: false });
    assert_eq!(text(&chinese.refuse(None).unwrap()), "{\"error\":\"管理器已暂停\"}");
    let english = ManagerServer::new(false, Lang { english: true });
    assert_eq!(
        text(&english.refuse(None).unwrap()),
        "{\"error\":\"Manager is paused. Enable it in the GUI to accept requests.\"}"
    );
    assert_eq!(english.read_failed("x").status, 400);
}

#[test]
fn a_job_that_cannot_be_handed_on_is_taken_back() {
    let mut server = server();
    submit(&mut server, &["a"]);
    assert!(server.is_busy());
    assert_eq!(server.unavailable().status, 500);
    assert!(!server.is_busy());
}

#[test]
fn a_job_that_broke_off_counts_one_error() {
    let mut server = server();
    let (id, job) = submit(&mut server, &["a"]);
    server.begin(&job);
    server.progress(JobProgress {
        completed: 1,
        total: 3,
        current_id: "a".to_string(),
        phase: "scan".to_string(),
    });
    assert_eq!(server.job.progress.as_ref().unwrap().completed, 1);
    server.panicked(id.clone());
    let summary = server.job.result.as_ref().unwrap().summary;
    assert_eq!((summary.total, summary.errors), (0, 1));
    assert_eq!(server.result(&Some(id)).status, 200);
}

#[test]
fn only_a_running_job_has_progress() {
    let mut server = server();
    assert!(server.job.progress.is_none());
    let (id, job) = submit(&mut server, &["a", "b"]);
    {
        let progress = server.job.progress.as_ref().unwrap();
        assert_eq!((progress.completed, progress.total), (0, 2));
        assert_eq!((progress.current_id.as_str(), progress.phase.as_str()), ("", ""));
    }
    server.begin(&job);
    server.panicked(id);
    assert!(server.job.progress.is_none());
    submit(&mut server, &["a"]);
    assert_eq!(server.unavailable().status, 500);
    assert!(server.job.progress.is_none());
}

#[test]
fn a_job_that_changes_nothing_keeps_what_was_scanned() {
    let mut server = server();
    let artifacts = vec![make_artifact("GladiatorsFinale", "flower", 20, true)];
    run(
        &mut server,
        &["a"],
        (make_result(&[("a", InstructionStatus::Success)]), Some(artifacts)),
    );
    server.finished("x".to_string(), make_result(&[]), None, false);
    assert_eq!(server.artifacts().status, 200);
}

#[test]
fn origins_are_compared_without_slashes_at_their_end() {
    assert!(is_origin_allowed("https://ggartifact.com"));
    assert!(is_origin_allowed("https://ggartifact.com/"));
    assert!(is_origin_allowed("http://localhost:3000/"));
    assert!(!is_origin_allowed("https://ggartifact.com.evil.com"));
    assert!(!is_origin_allowed(""));
    let headers = vec![
        ("Host".to_string(), "x".to_string()),
        ("ORIGIN".to_string(), "http://localhost:1".to_string()),
    ];
    assert_eq!(get_origin(&headers), Some("http://localhost:1".to_string()));
    assert_eq!(get_origin(&vec![]), None);
    assert!(cors_headers(&None).iter().all(|h| h.0 != "Access-Control-Allow-Origin"));
}

#[test]
fn the_game_is_alive_while_its_window_is_there() {
    assert!(!is_game_window_alive(&vec!["Notepad".to_string()]));
    assert!(is_game_window_alive(&vec!["Notepad".to_string(), "原神".to_string()]));
    assert!(is_game_window_alive(&vec!["Genshin Impact".to_string()]));
}

#[test]
fn times_of_the_day_are_written_with_two_digits() {
    // 1970-01-02, 03:04:05.006
    assert_eq!(timestamp_string(86_400 + 3 * 3600 + 4 * 60 + 5, 6), "03-04-05_006");
    assert_eq!(request_file("manage", 59, 7), "manage_00-00-59_007.json");
    assert_eq!(
        bind_error(8765, "os error 10048"),
        "端口 8765 已被占用，请更换端口 / Port 8765 is already in use. Please choose a different port."
    );
    assert_eq!(
        bind_error(8765, "denied"),
        "HTTP服务器启动失败 / HTTP server start failed on port 8765: denied"
    );
}

#[test]
fn other_methods_and_paths_are_unknown() {
    assert!(matches!(route(Method::Other, "/health"), Route::Unknown));
    assert!(matches!(route(Method::Post, "/health"), Route::Unknown));
    assert!(matches!(route(Method::Post, "/equip"), Route::Equip));
    match route(Method::Get, "/result?a=1&jobId=abc&b=2") {
        Route::JobResult(id) => assert_eq!(id, Some("abc".to_string())),
        other => panic!("{:?}", other),
    }
}

#[test]
fn bodies_that_cannot_be_used_are_refused() {
    let mut server = server();
    let unread = server.handle_equip(None, Body::Unreadable("reset".to_string()));
    assert_eq!(unread.reply.status, 400);
    assert_eq!(text(&unread.reply), "{\"error\":\"Failed to read body: reset\"}");
    let long = server.handle_manage(
        None,
        Body::Read { len: MAX_BODY_SIZE + 1, parsed: Ok(make_manage_request(&["a"])) },
    );
    assert_eq!(long.reply.status, 413);
    let named = server.submit_manage(
        None,
        Body::Read { len: 10, parsed: Ok(make_manage_request(&["a"])) },
        "name".to_string(),
    );
    assert_eq!(text(&named.reply), "{\"jobId\":\"name\",\"total\":1}");
}

#[test]
fn requests_are_dispatched_with_their_headers() {
    let server = server();
    let evil = Some("https://evil.com".to_string());
    let d = server.dispatch(Method::Post, "/manage", &evil, true);
    assert!(matches!(d.task, Task::Answer(r) if r.status == 403));
    assert_eq!(d.headers.len(), 1);
    let page = Some("http://localhost:3000/".to_string());
    let d = server.dispatch(Method::Post, "/manage", &page, true);
    assert!(matches!(d.task, Task::Manage));
    assert_eq!(d.headers[0].1, "http://localhost:3000");
    let d = server.dispatch(Method::Post, "/equip", &None, true);
    assert!(matches!(d.task, Task::Equip));
    assert_eq!(d.headers.len(), 1);
    let d = server.dispatch(Method::Options, "/manage", &None, true);
    assert!(matches!(d.task, Task::Answer(r) if r.status == 204));
    assert!(d.headers.is_empty());
    match server.dispatch(Method::Get, "/health", &None, true).task {
        Task::Answer(r) => assert_eq!(
            text(&r),
            "{\"status\":\"ok\",\"enabled\":true,\"busy\":false,\"gameAlive\":true}"
        ),
        other => panic!("{:?}", other),
    }
    for (url, status) in [("/status", 200), ("/artifacts", 404), ("/result", 400), ("/x", 404)] {
        match server.dispatch(Method::Get, url, &None, true).task {
            Task::Answer(r) => assert_eq!(r.status, status),
            other => panic!("{:?}", other),
        }
    }
}
