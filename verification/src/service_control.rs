//! Requests and responses of the service-control protocol between devices.

use vstd::prelude::*;

use crate::model::{opt_text, ServiceStatus};
use crate::text::concat3;

verus! {

/// A request one device sends to manage a service on another.
#[derive(Debug, Clone)]
pub enum ServiceControlRequest {
    PullService { request_id: Option<String>, manifest_yaml: String },
    ListServices { request_id: Option<String> },
    GetServiceLogs { request_id: Option<String>, service: String, tail: usize },
    StartService { request_id: Option<String>, service: String },
    StopService { request_id: Option<String>, service: String },
    RemoveService { request_id: Option<String>, service: String },
}

/// The request id a request carries.
pub open spec fn request_id_of(r: ServiceControlRequest) -> Option<String> {
    match r {
        ServiceControlRequest::PullService { request_id, .. } => request_id,
        ServiceControlRequest::ListServices { request_id } => request_id,
        ServiceControlRequest::GetServiceLogs { request_id, .. } => request_id,
        ServiceControlRequest::StartService { request_id, .. } => request_id,
        ServiceControlRequest::StopService { request_id, .. } => request_id,
        ServiceControlRequest::RemoveService { request_id, .. } => request_id,
    }
}

/// The service a request names; pulling and listing name none.
pub open spec fn service_of(r: ServiceControlRequest) -> Option<String> {
    match r {
        ServiceControlRequest::PullService { .. } => None,
        ServiceControlRequest::ListServices { .. } => None,
        ServiceControlRequest::GetServiceLogs { service, .. } => Some(service),
        ServiceControlRequest::StartService { service, .. } => Some(service),
        ServiceControlRequest::StopService { service, .. } => Some(service),
        ServiceControlRequest::RemoveService { service, .. } => Some(service),
    }
}

impl ServiceControlRequest {
    /// The request id, if the request carries one.
    pub fn request_id(&self) -> (r: Option<&str>)
        ensures
            match r {
                Some(s) => opt_text(request_id_of(*self)) == Some(s@),
                None => request_id_of(*self) is None,
            },
    {
        let id = match self {
            ServiceControlRequest::PullService { request_id, .. } => request_id,
            ServiceControlRequest::ListServices { request_id } => request_id,
            ServiceControlRequest::GetServiceLogs { request_id, .. } => request_id,
            ServiceControlRequest::StartService { request_id, .. } => request_id,
            ServiceControlRequest::StopService { request_id, .. } => request_id,
            ServiceControlRequest::RemoveService { request_id, .. } => request_id,
        };
        match id {
            Some(s) => Some(s.as_str()),
            None => None,
        }
    }

    /// The service the request is about, if it names one.
    pub fn service_name(&self) -> (r: Option<String>)
        ensures
            r == service_of(*self),
    {
        match self {
            ServiceControlRequest::PullService { .. } => None,
            ServiceControlRequest::ListServices { .. } => None,
            ServiceControlRequest::GetServiceLogs { service, .. } => Some(service.clone()),
            ServiceControlRequest::StartService { service, .. } => Some(service.clone()),
            ServiceControlRequest::StopService { service, .. } => Some(service.clone()),
            ServiceControlRequest::RemoveService { service, .. } => Some(service.clone()),
        }
    }
}

/// Whether applying a manifest changed the stored definition.
#[derive(Debug, Clone, Copy, PartialEq, Eq, Structural)]
pub enum ServiceManifestChange {
    Created,
    Changed,
    Unchanged,
}

/// What applying a manifest did to the running workload.
#[derive(Debug, Clone, Copy, PartialEq, Eq, Structural)]
pub enum ServiceWorkloadAction {
    NoAction,
    Restarted,
}

/// The step of an apply that failed after the definition was stored.
#[derive(Debug, Clone, Copy, PartialEq, Eq, Structural)]
pub enum ServiceApplyFailureStage {
    Restart,
    FinalInspection,
}

/// A failure after the definition was stored.
#[derive(Debug, Clone)]
pub struct ServiceApplyFailure {
    pub stage: ServiceApplyFailureStage,
    pub message: String,
}

/// What applying a manifest did, including a late failure.
#[derive(Debug, Clone)]
pub struct ServiceApplyOutcome {
    pub manifest_change: ServiceManifestChange,
    pub workload_action: ServiceWorkloadAction,
    pub final_status: ServiceStatus,
    pub failure: Option<ServiceApplyFailure>,
}

impl ServiceApplyOutcome {
    /// The message of a late failure, if there was one.
    pub fn failure_summary(&self) -> (r: Option<String>)
        ensures
            match self.failure {
                Some(f) => r == Some(f.message),
                None => r is None,
            },
    {
        match &self.failure {
            Some(f) => Some(f.message.clone()),
            None => None,
        }
    }
}

/// The service a response is about.
#[derive(Debug, Clone)]
pub struct ServiceControlServiceRef {
    pub name: String,
}

/// An error a response reports.
#[derive(Debug, Clone)]
pub struct ServiceControlError {
    pub code: String,
    pub message: String,
}

/// The answer to a service-control request.
#[derive(Debug, Clone)]
pub struct ServiceControlResponse {
    pub request_id: Option<String>,
    pub ok: bool,
    pub forgotten_locally: bool,
    pub service: Option<ServiceControlServiceRef>,
    pub services_json: Option<String>,
    pub logs_text: Option<String>,
    pub apply_outcome: Option<ServiceApplyOutcome>,
    pub error: Option<ServiceControlError>,
}

/// The error `into_result` raises for a failed response: its code and
/// message joined by `: `, or the generic remote error when it carries none.
pub open spec fn failure_text(e: Option<ServiceControlError>) -> Seq<char> {
    match e {
        Some(err) => err.code@ + ": "@ + err.message@,
        None => "remote_error: remote service control failed"@,
    }
}

impl ServiceControlResponse {
    /// A successful response about a service.
    pub fn success(request_id: Option<String>, service_name: String) -> (r: Self)
        ensures
            r.request_id == request_id,
            r.ok,
            !r.forgotten_locally,
            r.service == Some(ServiceControlServiceRef { name: service_name }),
            r.services_json is None,
            r.logs_text is None,
            r.apply_outcome is None,
            r.error is None,
    {
        Self {
            request_id,
            ok: true,
            forgotten_locally: false,
            service: Some(ServiceControlServiceRef { name: service_name }),
            services_json: None,
            logs_text: None,
            apply_outcome: None,
            error: None,
        }
    }

    /// The response to an apply: it fails exactly when the outcome carries a
    /// late failure, reported under the code `partial_apply`.
    pub fn applied(request_id: Option<String>, service_name: String, apply_outcome: ServiceApplyOutcome) -> (r: Self)
        ensures
            r.request_id == request_id,
            r.ok == (apply_outcome.failure is None),
            !r.forgotten_locally,
            r.service == Some(ServiceControlServiceRef { name: service_name }),
            r.services_json is None,
            r.logs_text is None,
            r.apply_outcome == Some(apply_outcome),
            match apply_outcome.failure {
                Some(f) => r.error is Some && r.error->0.code@ == "partial_apply"@ && r.error->0.message
                    == f.message,
                None => r.error is None,
            },
    {
        let error = match apply_outcome.failure_summary() {
            Some(message) => Some(ServiceControlError { code: "partial_apply".to_owned(), message }),
            None => None,
        };
        Self {
            request_id,
            ok: error.is_none(),
            forgotten_locally: false,
            service: Some(ServiceControlServiceRef { name: service_name }),
            services_json: None,
            logs_text: None,
            apply_outcome: Some(apply_outcome),
            error,
        }
    }

    /// A successful response for a service forgotten on this device only.
    pub fn success_forgotten_locally(request_id: Option<String>, service_name: String) -> (r: Self)
        ensures
            r.request_id == request_id,
            r.ok,
            r.forgotten_locally,
            r.service == Some(ServiceControlServiceRef { name: service_name }),
            r.services_json is None,
            r.logs_text is None,
            r.apply_outcome is None,
            r.error is None,
    {
        Self {
            request_id,
            ok: true,
            forgotten_locally: true,
            service: Some(ServiceControlServiceRef { name: service_name }),
            services_json: None,
            logs_text: None,
            apply_outcome: None,
            error: None,
        }
    }

    /// A successful response carrying the service list.
    pub fn success_services(request_id: Option<String>, services_json: String) -> (r: Self)
        ensures
            r.request_id == request_id,
            r.ok,
            !r.forgotten_locally,
            r.service is None,
            r.services_json == Some(services_json),
            r.logs_text is None,
            r.apply_outcome is None,
            r.error is None,
    {
        Self {
            request_id,
            ok: true,
            forgotten_locally: false,
            service: None,
            services_json: Some(services_json),
            logs_text: None,
            apply_outcome: None,
            error: None,
        }
    }

    /// A successful response carrying a service's logs.
    pub fn success_logs(request_id: Option<String>, service_name: String, text: String) -> (r: Self)
        ensures
            r.request_id == request_id,
            r.ok,
            !r.forgotten_locally,
            r.service == Some(ServiceControlServiceRef { name: service_name }),
            r.services_json is None,
            r.logs_text == Some(text),
            r.apply_outcome is None,
            r.error is None,
    {
        Self {
            request_id,
            ok: true,
            forgotten_locally: false,
            service: Some(ServiceControlServiceRef { name: service_name }),
            services_json: None,
            logs_text: Some(text),
            apply_outcome: None,
            error: None,
        }
    }

    /// A failed response with an error code and message.
    pub fn error(request_id: Option<String>, code: &str, message: String) -> (r: Self)
        ensures
            r.request_id == request_id,
            !r.ok,
            !r.forgotten_locally,
            r.service is None,
            r.services_json is None,
            r.logs_text is None,
            r.apply_outcome is None,
            r.error is Some,
            r.error->0.code@ == code@,
            r.error->0.message == message,
    {
        Self {
            request_id,
            ok: false,
            forgotten_locally: false,
            service: None,
            services_json: None,
            logs_text: None,
            apply_outcome: None,
            error: Some(ServiceControlError { code: code.to_owned(), message }),
        }
    }

    /// The response itself when it succeeded, else its error as a message.
    pub fn into_result(self) -> (r: Result<Self, String>)
        ensures
            match r {
                Ok(s) => self.ok && s == self,
                Err(e) => !self.ok && e@ == failure_text(self.error),
            },
    {
        if self.ok {
            Ok(self)
        } else {
            match self.error {
                Some(error) => Err(concat3(error.code.as_str(), ": ", error.message.as_str())),
                None => {
                    proof {
                        reveal_strlit("remote_error: remote service control failed");
                        reveal_strlit("remote_error");
                        reveal_strlit(": ");
                        reveal_strlit("remote service control failed");
                    }
                    Err(concat3("remote_error", ": ", "remote service control failed"))
                },
            }
        }
    }

    /// Like `into_result`, but a partially applied response, whose outcome
    /// records a late failure, is kept as a result too.
    pub fn into_apply_result(self) -> (r: Result<Self, String>)
        ensures
            match r {
                Ok(s) => (self.ok || (self.apply_outcome matches Some(o) && o.failure is Some)) && s == self,
                Err(e) => !self.ok && !(self.apply_outcome matches Some(o) && o.failure is Some) && e@
                    == failure_text(self.error),
            },
    {
        let partial = match &self.apply_outcome {
            Some(outcome) => outcome.failure.is_some(),
            None => false,
        };
        if self.ok || partial {
            Ok(self)
        } else {
            self.into_result()
        }
    }
}

} // verus!
