use jobd::dispatch::{
    create_response, create_stage, filter_stage, liveness_status, lookup_stage, manifest_stage,
    no_route_error, readiness_status, start_stage, CreateOptions, FilterEvent,
};
use jobd::engine::{classify_create, ContainerBrief, CreateReply, EngineFailure};
use jobd::text::job_path;

#[test]
fn created_answers_201_and_pre_existing_200_with_the_same_body() {
    let fresh = create_response("a".to_string(), true);
    assert_eq!(fresh.status, 201);
    assert_eq!(fresh.body.id, "a");
    assert_eq!(fresh.body.created, None);
    assert_eq!(fresh.body.status, None);

    let repeat = create_response("a".to_string(), false);
    assert_eq!(repeat.status, 200);
    assert_eq!(repeat.body.id, fresh.body.id);
    assert_eq!(repeat.body.created, fresh.body.created);
    assert_eq!(repeat.body.status, fresh.body.status);
}

#[test]
fn a_name_conflict_is_no_error() {
    assert!(matches!(classify_create(Ok(())), CreateReply::Created));
    let conflict = EngineFailure { server_status: Some(409), message: "conflict".to_string() };
    assert!(matches!(classify_create(Err(conflict)), CreateReply::PreExisting));
    let other = EngineFailure { server_status: Some(500), message: "boom".to_string() };
    match classify_create(Err(other)) {
        CreateReply::Failed(m) => assert_eq!(m, "boom"),
        _ => panic!("a 500 reply must surface as a failure"),
    }
    let transport = EngineFailure { server_status: None, message: "io".to_string() };
    assert!(matches!(classify_create(Err(transport)), CreateReply::Failed(_)));
}

#[test]
fn create_stage_maps_engine_failures_to_502() {
    assert!(matches!(create_stage(CreateReply::Created), Ok(true)));
    assert!(matches!(create_stage(CreateReply::PreExisting), Ok(false)));
    match create_stage(CreateReply::Failed("boom".to_string())) {
        Err(e) => {
            assert_eq!(e.status, 502);
            assert_eq!(e.message, "Server rejected job manifest: boom");
        },
        Ok(_) => panic!("an engine failure must reject the request"),
    }
}

#[test]
fn empty_filter_output_is_a_400() {
    match filter_stage(FilterEvent::Empty) {
        Err(e) => {
            assert_eq!(e.status, 400);
            assert_eq!(e.message, "Filter didn't produce results");
        },
        Ok(_) => panic!("an empty filter output must reject the request"),
    }
}

#[test]
fn filter_failures_are_a_400_with_the_cause() {
    assert!(filter_stage(FilterEvent::Produced).is_ok());
    match filter_stage(FilterEvent::Failed("bad program".to_string())) {
        Err(e) => {
            assert_eq!(e.status, 400);
            assert_eq!(e.message, "Filter failed: bad program");
        },
        Ok(_) => panic!("a filter failure must reject the request"),
    }
}

#[test]
fn an_unreadable_manifest_is_a_400() {
    match manifest_stage(Err("missing field Name".to_string())) {
        Err(e) => {
            assert_eq!(e.status, 400);
            assert_eq!(e.message, "Generated manifest is invalid: missing field Name");
        },
        Ok(_) => panic!("an unreadable manifest must reject the request"),
    }
    let opts = CreateOptions { name: "a".to_string(), platform: None };
    match manifest_stage(Ok(opts)) {
        Ok(o) => assert_eq!(o.name, "a"),
        Err(_) => panic!("readable options must pass through"),
    }
}

#[test]
fn start_failures_are_a_502() {
    assert!(start_stage(Ok(())).is_ok());
    match start_stage(Err("engine down".to_string())) {
        Err(e) => {
            assert_eq!(e.status, 502);
            assert_eq!(e.message, "engine down");
        },
        Ok(_) => panic!("a start failure must reject the request"),
    }
}

#[test]
fn retrieval_answers_with_the_requested_id() {
    let found = ContainerBrief {
        names: Some(vec!["/a".to_string()]),
        created: Some(12),
        status: Some("created".to_string()),
    };
    match lookup_stage("a".to_string(), Ok(Some(found))) {
        Ok(j) => {
            assert_eq!(j.id, "a");
            assert_eq!(j.created, Some(12));
            assert_eq!(j.status, Some("created".to_string()));
        },
        Err(_) => panic!("a found container must answer with its summary"),
    }
}

#[test]
fn a_missing_job_is_a_404_and_an_engine_failure_a_502() {
    match lookup_stage("missing".to_string(), Ok(None)) {
        Err(e) => {
            assert_eq!(e.status, 404);
            assert_eq!(e.message, "The specified job doesn't exist");
        },
        Ok(_) => panic!("a missing container must answer 404"),
    }
    match lookup_stage("a".to_string(), Err("engine down".to_string())) {
        Err(e) => assert_eq!(e.status, 502),
        Ok(_) => panic!("an engine failure must answer 502"),
    }
}

#[test]
fn repeated_creation_answers_201_then_200_for_one_container() {
    // First request: the engine accepts the creation.
    let first = create_stage(classify_create(Ok(()))).expect("acceptance must pass");
    let r1 = create_response("a".to_string(), first);
    assert_eq!(r1.status, 201);

    // The identical repeat: the engine reports the name conflict.
    let conflict = EngineFailure { server_status: Some(409), message: "conflict".to_string() };
    let second = create_stage(classify_create(Err(conflict))).expect("a conflict must pass");
    let r2 = create_response("a".to_string(), second);
    assert_eq!(r2.status, 200);

    // Both responses describe the same one container.
    assert_eq!(r2.body.id, r1.body.id);
    assert_eq!(r2.body.created, r1.body.created);
    assert_eq!(r2.body.status, r1.body.status);

    // Retrieving the job the first response named finds that container.
    let found = ContainerBrief { names: Some(vec!["/a".to_string()]), created: Some(5), status: None };
    let fetched = lookup_stage(r1.body.id.clone(), Ok(Some(found))).expect("the job must be found");
    assert_eq!(fetched.id, r1.body.id);
}

#[test]
fn health_statuses() {
    assert_eq!(liveness_status(), 204);
    assert_eq!(readiness_status(true), 204);
    assert_eq!(readiness_status(false), 503);
    let e = no_route_error();
    assert_eq!(e.status, 404);
    assert_eq!(e.message, "Route not found");
}

#[test]
fn trailing_slashes_collapse() {
    assert_eq!(job_path("x"), "/job/x");
    assert_eq!(job_path("x/"), "/job/x");
    assert_eq!(job_path("a/b"), "/job/a/b");
    assert_eq!(job_path("a/b/"), "/job/a/b");
    assert_eq!(job_path(""), "/job");
}
