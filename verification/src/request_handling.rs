//! Serving service-control requests from other devices: what a request asks
//! this device to do, and the response once it is done.

use vstd::prelude::*;

use crate::model::copy_opt;
use crate::text::str_eq;
use crate::remote_logs::{
    bounded_service_log_response, is_bounded_log_response, is_log_response, limited_log_text, log_bounding_error,
    measured_overflow, rendered_log_text, MAX_CONTROL_FRAME_LEN, BoundedLogText, MAX_REMOTE_SERVICE_LOG_BYTES,
    MAX_REMOTE_SERVICE_LOG_TAIL,
};
use crate::service_control::{
    request_id_of, service_of, ServiceApplyOutcome, ServiceControlRequest, ServiceControlResponse, ServiceControlServiceRef,
};

verus! {

/// The work a request asks of the local runtime.
#[derive(Debug, Clone)]
pub enum ServiceControlAction {
    /// Apply a service manifest given as YAML.
    ApplyManifest { manifest_yaml: String },
    /// List the local services.
    ListServices,
    /// Read the last `tail` lines of a service's logs, at most `max_bytes`.
    ReadLogs { service: String, tail: usize, max_bytes: usize },
    /// Start a service and enable its endpoint listeners.
    Start { service: String },
    /// Stop a service and disable its endpoint listeners.
    Stop { service: String },
    /// Remove a service and disable its endpoint listeners.
    Remove { service: String },
}

/// A log line count held to between one and the remote maximum.
pub open spec fn clamped_tail(tail: usize) -> usize {
    if tail < 1 {
        1
    } else if tail > MAX_REMOTE_SERVICE_LOG_TAIL {
        MAX_REMOTE_SERVICE_LOG_TAIL
    } else {
        tail
    }
}

/// `usize::clamp(tail, 1, MAX_REMOTE_SERVICE_LOG_TAIL)`.
pub fn clamp_log_tail(tail: usize) -> (r: usize)
    ensures
        r == clamped_tail(tail),
{
    if tail < 1 {
        1
    } else if tail > MAX_REMOTE_SERVICE_LOG_TAIL {
        MAX_REMOTE_SERVICE_LOG_TAIL
    } else {
        tail
    }
}

/// The action a request asks for.
pub open spec fn action_for(request: ServiceControlRequest) -> ServiceControlAction {
    match request {
        ServiceControlRequest::PullService { manifest_yaml, .. } => ServiceControlAction::ApplyManifest {
            manifest_yaml,
        },
        ServiceControlRequest::ListServices { .. } => ServiceControlAction::ListServices,
        ServiceControlRequest::GetServiceLogs { service, tail, .. } => ServiceControlAction::ReadLogs {
            service,
            tail: clamped_tail(tail),
            max_bytes: MAX_REMOTE_SERVICE_LOG_BYTES,
        },
        ServiceControlRequest::StartService { service, .. } => ServiceControlAction::Start { service },
        ServiceControlRequest::StopService { service, .. } => ServiceControlAction::Stop { service },
        ServiceControlRequest::RemoveService { service, .. } => ServiceControlAction::Remove { service },
    }
}

/// What the runtime is asked to do for `request`; see `action_for`.
pub fn service_control_action(request: &ServiceControlRequest) -> (r: ServiceControlAction)
    ensures
        r == action_for(*request),
{
    match request {
        ServiceControlRequest::PullService { manifest_yaml, .. } => ServiceControlAction::ApplyManifest {
            manifest_yaml: manifest_yaml.clone(),
        },
        ServiceControlRequest::ListServices { .. } => ServiceControlAction::ListServices,
        ServiceControlRequest::GetServiceLogs { service, tail, .. } => ServiceControlAction::ReadLogs {
            service: service.clone(),
            tail: clamp_log_tail(*tail),
            max_bytes: MAX_REMOTE_SERVICE_LOG_BYTES,
        },
        ServiceControlRequest::StartService { service, .. } => ServiceControlAction::Start {
            service: service.clone(),
        },
        ServiceControlRequest::StopService { service, .. } => ServiceControlAction::Stop {
            service: service.clone(),
        },
        ServiceControlRequest::RemoveService { service, .. } => ServiceControlAction::Remove {
            service: service.clone(),
        },
    }
}

/// Each kind of request asks for its own kind of work and no other: a
/// start request starts, a stop request stops, a remove request removes,
/// a log request reads logs, a pull applies a manifest and a list request
/// lists; the work names the service the request names, a pull applies the
/// manifest it carries, and logs are read for between one and the remote
/// maximum of lines, the requested count when it is in that range, and at
/// most the remote byte limit.
pub proof fn law_action_keeps_request_kind_and_service(request: ServiceControlRequest)
    ensures
        (action_for(request) is Start) == (request is StartService),
        (action_for(request) is Stop) == (request is StopService),
        (action_for(request) is Remove) == (request is RemoveService),
        (action_for(request) is ReadLogs) == (request is GetServiceLogs),
        (action_for(request) is ApplyManifest) == (request is PullService),
        (action_for(request) is ListServices) == (request is ListServices),
        match action_for(request) {
            ServiceControlAction::Start { service } => service_of(request) == Some(service),
            ServiceControlAction::Stop { service } => service_of(request) == Some(service),
            ServiceControlAction::Remove { service } => service_of(request) == Some(service),
            ServiceControlAction::ReadLogs { service, tail, max_bytes } => {
                &&& service_of(request) == Some(service)
                &&& 1 <= tail <= MAX_REMOTE_SERVICE_LOG_TAIL
                &&& max_bytes == MAX_REMOTE_SERVICE_LOG_BYTES
                &&& (request matches ServiceControlRequest::GetServiceLogs { tail: t, .. } ==> (1 <= t
                    <= MAX_REMOTE_SERVICE_LOG_TAIL ==> tail == t))
            },
            ServiceControlAction::ApplyManifest { manifest_yaml } => request matches ServiceControlRequest::PullService {
                manifest_yaml: y,
                ..
            } && y == manifest_yaml,
            ServiceControlAction::ListServices => service_of(request) is None,
        },
{
}

/// How the runtime's work for a request ended.
#[derive(Debug, Clone)]
pub enum ServiceControlResult {
    /// A manifest was applied to the named service, with this outcome.
    Applied { service_name: String, outcome: ServiceApplyOutcome },
    /// The local services, encoded as JSON.
    Services { services_json: String },
    /// The logs read for a service.
    Logs { service: String, logs: BoundedLogText },
    /// A start, stop or remove of the service succeeded.
    Done { service: String },
    /// The work failed with this message.
    Failed { message: String },
}

/// `r` reports failed execution with `message`.
pub open spec fn is_execution_failure(r: ServiceControlResponse, request_id: Option<String>, message: Seq<char>) -> bool {
    &&& r.request_id == request_id
    &&& !r.ok
    &&& !r.forgotten_locally
    &&& r.service is None
    &&& r.services_json is None
    &&& r.logs_text is None
    &&& r.apply_outcome is None
    &&& r.error matches Some(e) && e.code@ == "execution_failed"@ && e.message@ == message
}

/// `r` is the response to work that ended with `result`; see
/// `service_control_response`.
pub open spec fn is_response_to<F: Fn(&ServiceControlResponse) -> Result<usize, String>>(
    r: ServiceControlResponse,
    request_id: Option<String>,
    result: ServiceControlResult,
    frame_len: F,
) -> bool {
    match result {
        ServiceControlResult::Applied { service_name, outcome } => {
            &&& r.request_id == request_id
            &&& r.ok == (outcome.failure is None)
            &&& !r.forgotten_locally
            &&& r.service == Some(ServiceControlServiceRef { name: service_name })
            &&& r.services_json is None
            &&& r.logs_text is None
            &&& r.apply_outcome == Some(outcome)
            &&& match outcome.failure {
                Some(f) => r.error matches Some(e) && e.code@ == "partial_apply"@ && e.message == f.message,
                None => r.error is None,
            }
        },
        ServiceControlResult::Services { services_json } => {
            &&& r.request_id == request_id
            &&& r.ok
            &&& !r.forgotten_locally
            &&& r.service is None
            &&& r.services_json == Some(services_json)
            &&& r.logs_text is None
            &&& r.apply_outcome is None
            &&& r.error is None
        },
        ServiceControlResult::Logs { service, logs } => is_bounded_log_response(
            r,
            frame_len,
            request_id,
            service,
            logs,
        ) || exists|e: String|
            log_bounding_error(frame_len, request_id, service, logs, e) && #[trigger] is_execution_failure(
                r,
                request_id,
                e@,
            ),
        ServiceControlResult::Done { service } => {
            &&& r.request_id == request_id
            &&& r.ok
            &&& !r.forgotten_locally
            &&& r.service == Some(ServiceControlServiceRef { name: service })
            &&& r.services_json is None
            &&& r.logs_text is None
            &&& r.apply_outcome is None
            &&& r.error is None
        },
        ServiceControlResult::Failed { message } => is_execution_failure(r, request_id, message@),
    }
}

/// The response to a request whose work ended with `result`: an apply
/// reports its outcome, a listing its JSON, logs the bounded log response
/// (see `bounded_service_log_response`), a start, stop or remove the
/// service; a failure, including one to bound the logs, is reported as
/// `execution_failed` with its message.
pub fn service_control_response<F: Fn(&ServiceControlResponse) -> Result<usize, String>>(
    request_id: Option<String>,
    result: ServiceControlResult,
    frame_len: F,
) -> (r: ServiceControlResponse)
    requires
        forall|c: &ServiceControlResponse| #[trigger] frame_len.requires((c,)),
    ensures
        is_response_to(r, request_id, result, frame_len),
{
    match result {
        ServiceControlResult::Applied { service_name, outcome } => ServiceControlResponse::applied(
            request_id,
            service_name,
            outcome,
        ),
        ServiceControlResult::Services { services_json } => ServiceControlResponse::success_services(
            request_id,
            services_json,
        ),
        ServiceControlResult::Logs { service, logs } => {
            match bounded_service_log_response(copy_opt(&request_id), service, logs, frame_len) {
                Ok(response) => response,
                Err(message) => {
                    let r = ServiceControlResponse::error(request_id, "execution_failed", message);
                    proof {
                        reveal_strlit("execution_failed");
                        assert(is_execution_failure(r, r.request_id, r.error->0.message@));
                    }
                    r
                },
            }
        },
        ServiceControlResult::Done { service } => ServiceControlResponse::success(request_id, service),
        ServiceControlResult::Failed { message } => ServiceControlResponse::error(
            request_id,
            "execution_failed",
            message,
        ),
    }
}

/// Whether `result` is what the runtime's work for `action` can end with:
/// a failure, or the outcome of that kind of work, for the service the
/// action names.
pub open spec fn answers(action: ServiceControlAction, result: ServiceControlResult) -> bool {
    match result {
        ServiceControlResult::Failed { .. } => true,
        ServiceControlResult::Applied { .. } => action is ApplyManifest,
        ServiceControlResult::Services { .. } => action is ListServices,
        ServiceControlResult::Logs { service, .. } => action matches ServiceControlAction::ReadLogs { service: s, .. }
            && s@ == service@,
        ServiceControlResult::Done { service } => match action {
            ServiceControlAction::Start { service: s } => s@ == service@,
            ServiceControlAction::Stop { service: s } => s@ == service@,
            ServiceControlAction::Remove { service: s } => s@ == service@,
            _ => false,
        },
    }
}

/// Whether `result` answers `action`; see `answers`.
pub fn result_answers(action: &ServiceControlAction, result: &ServiceControlResult) -> (r: bool)
    ensures
        r == answers(*action, *result),
{
    match result {
        ServiceControlResult::Failed { .. } => true,
        ServiceControlResult::Applied { .. } => matches!(action, ServiceControlAction::ApplyManifest { .. }),
        ServiceControlResult::Services { .. } => matches!(action, ServiceControlAction::ListServices),
        ServiceControlResult::Logs { service, .. } => match action {
            ServiceControlAction::ReadLogs { service: s, .. } => str_eq(s.as_str(), service.as_str()),
            _ => false,
        },
        ServiceControlResult::Done { service } => match action {
            ServiceControlAction::Start { service: s } => str_eq(s.as_str(), service.as_str()),
            ServiceControlAction::Stop { service: s } => str_eq(s.as_str(), service.as_str()),
            ServiceControlAction::Remove { service: s } => str_eq(s.as_str(), service.as_str()),
            _ => false,
        },
    }
}

/// Whether a request asks to start, stop or remove a service.
pub open spec fn changes_service(request: ServiceControlRequest) -> bool {
    request is StartService || request is StopService || request is RemoveService
}

/// The response a device sends to a service-control request, once the
/// runtime has done what the request asks (`service_control_action`) and
/// that work ended with `result`: it carries the request's id, and answers
/// as `service_control_response` does.
pub fn handle_request<F: Fn(&ServiceControlResponse) -> Result<usize, String>>(
    request: &ServiceControlRequest,
    result: ServiceControlResult,
    frame_len: F,
) -> (r: ServiceControlResponse)
    requires
        forall|c: &ServiceControlResponse| #[trigger] frame_len.requires((c,)),
        answers(action_for(*request), result),
    ensures
        is_response_to(r, request_id_of(*request), result, frame_len),
        r.request_id == request_id_of(*request),
        changes_service(*request) && !(result is Failed) ==> r.ok && r.service is Some && r.service->0.name@
            == service_of(*request)->0@,
        r.services_json is Some ==> request is ListServices,
        r.logs_text is Some ==> request is GetServiceLogs && r.service is Some && r.service->0.name@ == service_of(
            *request,
        )->0@,
        r.apply_outcome is Some ==> request is PullService,
{
    let request_id = match request {
        ServiceControlRequest::PullService { request_id, .. } => copy_opt(request_id),
        ServiceControlRequest::ListServices { request_id } => copy_opt(request_id),
        ServiceControlRequest::GetServiceLogs { request_id, .. } => copy_opt(request_id),
        ServiceControlRequest::StartService { request_id, .. } => copy_opt(request_id),
        ServiceControlRequest::StopService { request_id, .. } => copy_opt(request_id),
        ServiceControlRequest::RemoveService { request_id, .. } => copy_opt(request_id),
    };
    let ghost rid = request_id;
    let ghost res = result;
    let r = service_control_response(request_id, result, frame_len);
    proof {
        match res {
            ServiceControlResult::Logs { service, logs } => {
                if is_bounded_log_response(r, frame_len, rid, service, logs) {
                    let (content, truncated) = limited_log_text(logs.text@, logs.truncated);
                    let (text, n) = choose|text: Seq<char>, n: usize|
                        is_log_response(r, rid, service, text) && frame_len.ensures((&r,), Ok::<usize, String>(n))
                            && n <= MAX_CONTROL_FRAME_LEN && (text == rendered_log_text(content, truncated) || (
                        measured_overflow(frame_len, rid, service, rendered_log_text(content, truncated))
                            && exists|k: int|
                            0 <= k <= content.len() && text == rendered_log_text(#[trigger] content.skip(k), true)
                                && (k > 0 ==> measured_overflow(
                                frame_len,
                                rid,
                                service,
                                rendered_log_text(content.skip(k - 1), true),
                            ))));
                    assert(is_log_response(r, rid, service, text));
                } else {
                    let e = choose|e: String|
                        log_bounding_error(frame_len, rid, service, logs, e) && #[trigger] is_execution_failure(
                            r,
                            rid,
                            e@,
                        );
                    assert(is_execution_failure(r, rid, e@));
                }
            },
            _ => {},
        }
    }
    r
}

} // verus!
