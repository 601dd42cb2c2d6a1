//! The dispatcher's decisions: how each stage of a request — the filter
//! application, the manifest deserialization, the engine's answer — maps to
//! an HTTP status and body.
//!
//! The HTTP server performs each stage's outside work and hands the outcome
//! in as plain values; the functions here decide what it means. An `Err`
//! short-circuits the request with the carried status and message.

use crate::engine::{model_create, ContainerBrief, CreateReply, EngineModel};
use vstd::prelude::*;
use vstd::string::StringExecFns;

verus! {

/// A request rejection: the HTTP status to answer with and the message for
/// the error body.
#[derive(Debug)]
pub struct ApiError {
    /// The HTTP status code.
    pub status: u16,
    /// The message for the error body.
    pub message: String,
}

impl ApiError {
    /// A 400 rejection: the request (or what the filter made of it) is bad.
    pub fn bad_request(message: String) -> (e: ApiError)
        ensures
            e.status == 400,
            e.message == message,
    {
        ApiError { status: 400, message }
    }

    /// A 404 rejection: the addressed job does not exist.
    pub fn not_found(message: String) -> (e: ApiError)
        ensures
            e.status == 404,
            e.message == message,
    {
        ApiError { status: 404, message }
    }

    /// A 502 rejection: the engine failed.
    pub fn bad_gateway(message: String) -> (e: ApiError)
        ensures
            e.status == 502,
            e.message == message,
    {
        ApiError { status: 502, message }
    }
}

/// The response shape for a job: its id, and when known its creation stamp
/// and status.
pub struct JobSummary {
    /// The job's name.
    pub id: String,
    /// Creation timestamp, integer seconds, when known.
    pub created: Option<i64>,
    /// Engine-reported status, when known.
    pub status: Option<String>,
}

/// A successful response: the HTTP status and the job it describes.
pub struct HttpReply {
    /// The HTTP status code.
    pub status: u16,
    /// The response body.
    pub body: JobSummary,
}

/// What the filter application produced, reduced to plain values; the
/// produced manifest itself stays with the caller.
pub enum FilterEvent {
    /// The filter produced a first output value.
    Produced,
    /// The filter produced no output at all.
    Empty,
    /// Producing the first output failed, with the cause rendered as text.
    Failed(String),
}

/// Judge the filter application: a produced value lets the request continue;
/// an empty output or a filter failure rejects it as a bad request.
pub fn filter_stage(event: FilterEvent) -> (r: Result<(), ApiError>)
    ensures
        match event {
            FilterEvent::Produced => r is Ok,
            FilterEvent::Empty => r matches Err(e) && e.status == 400 && e.message@
                == "Filter didn't produce results"@,
            FilterEvent::Failed(m) => r matches Err(e) && e.status == 400 && e.message@
                == "Filter failed: "@ + m@,
        },
{
    match event {
        FilterEvent::Produced => Ok(()),
        FilterEvent::Empty => Err(
            ApiError::bad_request(String::from_str("Filter didn't produce results")),
        ),
        FilterEvent::Failed(m) => {
            let mut msg = String::from_str("Filter failed: ");
            msg.append(m.as_str());
            Err(ApiError::bad_request(msg))
        },
    }
}

/// The creation fields read from the manifest: the container's name and an
/// optional platform.
pub struct CreateOptions {
    /// The name the container is created under.
    pub name: String,
    /// The platform to create it for, when the manifest names one.
    pub platform: Option<String>,
}

/// Judge the manifest deserialization: a manifest that does not read as
/// creation options (or as engine configuration) rejects the request as a
/// bad request, with the underlying cause in the message.
pub fn manifest_stage(parsed: Result<CreateOptions, String>) -> (r: Result<CreateOptions, ApiError>)
    ensures
        match parsed {
            Ok(o) => r matches Ok(o2) && o2 == o,
            Err(m) => r matches Err(e) && e.status == 400 && e.message@
                == "Generated manifest is invalid: "@ + m@,
        },
{
    match parsed {
        Ok(o) => Ok(o),
        Err(m) => {
            let mut msg = String::from_str("Generated manifest is invalid: ");
            msg.append(m.as_str());
            Err(ApiError::bad_request(msg))
        },
    }
}

/// Judge the engine's answer to the creation call: acceptance and a name
/// conflict both let the request continue — the conflict meaning the
/// container pre-exists — while any other engine failure rejects the request
/// as a bad gateway.
pub fn create_stage(reply: CreateReply) -> (r: Result<bool, ApiError>)
    ensures
        match reply {
            CreateReply::Created => r matches Ok(b) && b,
            CreateReply::PreExisting => r matches Ok(b) && !b,
            CreateReply::Failed(m) => r matches Err(e) && e.status == 502 && e.message@
                == "Server rejected job manifest: "@ + m@,
        },
{
    match reply {
        CreateReply::Created => Ok(true),
        CreateReply::PreExisting => Ok(false),
        CreateReply::Failed(m) => {
            let mut msg = String::from_str("Server rejected job manifest: ");
            msg.append(m.as_str());
            Err(ApiError::bad_gateway(msg))
        },
    }
}

/// Judge an inline start issued right after creation: an engine failure
/// rejects the request as a bad gateway.
pub fn start_stage(outcome: Result<(), String>) -> (r: Result<(), ApiError>)
    ensures
        match outcome {
            Ok(()) => r is Ok,
            Err(m) => r matches Err(e) && e.status == 502 && e.message == m,
        },
{
    match outcome {
        Ok(()) => Ok(()),
        Err(m) => Err(ApiError::bad_gateway(m)),
    }
}

/// The status a creation request answers with: 201 for a newly created
/// container, 200 for a pre-existing one.
pub open spec fn spec_create_status(newly_created: bool) -> int {
    if newly_created {
        201
    } else {
        200
    }
}

/// The response to an accepted creation request. Only the status
/// distinguishes a fresh creation from a pre-existing container: the body
/// names the job and nothing else in both cases.
pub fn create_response(name: String, newly_created: bool) -> (r: HttpReply)
    ensures
        r.status == spec_create_status(newly_created),
        r.body.id == name,
        r.body.created is None,
        r.body.status is None,
{
    HttpReply {
        status: if newly_created {
            201
        } else {
            200
        },
        body: JobSummary { id: name, created: None, status: None },
    }
}

/// Judge a job retrieval: a found container answers with its summary under
/// the requested id; an absent one is 404; an engine failure is 502.
pub fn lookup_stage(id: String, outcome: Result<Option<ContainerBrief>, String>) -> (r: Result<
    JobSummary,
    ApiError,
>)
    ensures
        match outcome {
            Ok(found) => match found {
                Option::Some(c) => r matches Ok(j) && j.id == id && j.created == c.created
                    && j.status == c.status,
                Option::None => r matches Err(e) && e.status == 404 && e.message@
                    == "The specified job doesn't exist"@,
            },
            Err(m) => r matches Err(e) && e.status == 502 && e.message == m,
        },
{
    match outcome {
        Ok(found) => match found {
            Option::Some(c) => Ok(JobSummary { id, created: c.created, status: c.status }),
            Option::None => Err(
                ApiError::not_found(String::from_str("The specified job doesn't exist")),
            ),
        },
        Err(m) => Err(ApiError::bad_gateway(m)),
    }
}

/// The liveness answer: if the process can answer at all, it is alive.
pub fn liveness_status() -> (r: u16)
    ensures
        r == 204,
{
    204
}

/// The readiness answer: 204 when the engine answered the ping, 503 when it
/// did not.
pub fn readiness_status(ping_ok: bool) -> (r: u16)
    ensures
        r == if ping_ok {
            204int
        } else {
            503int
        },
{
    if ping_ok {
        204
    } else {
        503
    }
}

/// The rejection for a route the service does not serve.
pub fn no_route_error() -> (e: ApiError)
    ensures
        e.status == 404,
        e.message@ == "Route not found"@,
{
    ApiError::not_found(String::from_str("Route not found"))
}

/// Two identical creation requests reach the same terminal state. Against an
/// engine without the container: the first request is accepted and answers
/// 201, the second hits the name conflict and answers 200, and after both
/// exactly the one container exists — the engine's store gains the name once
/// and nothing else.
pub proof fn lemma_create_idempotent(e: EngineModel, name: Seq<char>)
    requires
        !e.names.contains(name),
    ensures
        ({
            let (e1, first) = model_create(e, name);
            let (e2, second) = model_create(e1, name);
            &&& first && !second
            &&& spec_create_status(first) == 201
            &&& spec_create_status(second) == 200
            &&& e1.names == e.names.insert(name)
            &&& e2 == e1
        }),
{
}

/// After a successful creation the engine knows the name: a retrieval finds
/// it, and `lookup_stage` then answers with a summary whose id is exactly
/// the requested name.
pub proof fn lemma_get_after_create(e: EngineModel, name: Seq<char>)
    requires
        !e.names.contains(name),
    ensures
        crate::engine::model_found(model_create(e, name).0, name),
{
}

} // verus!
