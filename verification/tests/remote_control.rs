use fungi_daemon::remote_logs::{
    frame_length_prefix,
    bounded_service_log_response, limit_remote_log_content, remote_log_truncation_notice, render_remote_log_text,
    BoundedLogText, MAX_CONTROL_FRAME_LEN, MAX_REMOTE_SERVICE_LOG_BYTES,
};
use fungi_daemon::request_handling::{
    clamp_log_tail, handle_request, result_answers, service_control_action, service_control_response, ServiceControlAction,
    ServiceControlResult,
};
use fungi_daemon::service_control::{ServiceControlRequest, ServiceControlResponse};

/// The length of a string as JSON writes it, quotes included.
fn json_string_len(s: &str) -> usize {
    let mut n = 2;
    for c in s.chars() {
        n += match c {
            '"' | '\\' | '\n' | '\r' | '\t' | '\u{8}' | '\u{c}' => 2,
            c if (c as u32) < 0x20 => 6,
            c => c.len_utf8(),
        };
    }
    n
}

/// The encoded size of a logs response, measured by its strings plus the
/// fixed part of the object.
fn frame_len(response: &ServiceControlResponse) -> Result<usize, String> {
    let mut n = 200;
    if let Some(id) = &response.request_id {
        n += json_string_len(id);
    }
    if let Some(service) = &response.service {
        n += json_string_len(&service.name);
    }
    if let Some(text) = &response.logs_text {
        n += json_string_len(text);
    }
    Ok(n)
}

#[test]
fn short_remote_log_text_is_unchanged() {
    let response = bounded_service_log_response(
        None,
        "demo".to_string(),
        BoundedLogText { text: "hello\n".to_string(), truncated: false },
        frame_len,
    )
    .unwrap();
    assert_eq!(response.logs_text.as_deref(), Some("hello\n"));
}

#[test]
fn remote_log_text_is_limited_from_the_front_at_a_character_boundary() {
    let logs = BoundedLogText {
        text: format!("discarded\n{}", "界".repeat(MAX_REMOTE_SERVICE_LOG_BYTES)),
        truncated: false,
    };

    let response = bounded_service_log_response(None, "demo".to_string(), logs, frame_len).unwrap();
    let limited = response.logs_text.unwrap();

    assert!(limited.starts_with(remote_log_truncation_notice()));
    assert!(limited.ends_with('界'));
    assert!(limited.len() <= MAX_REMOTE_SERVICE_LOG_BYTES);
}

#[test]
fn control_heavy_logs_are_cut_until_the_frame_fits() {
    let response = bounded_service_log_response(
        Some("request".to_string()),
        "demo".to_string(),
        BoundedLogText { text: "\0".repeat(MAX_REMOTE_SERVICE_LOG_BYTES), truncated: false },
        frame_len,
    )
    .unwrap();

    assert!(frame_len(&response).unwrap() <= MAX_CONTROL_FRAME_LEN);
    let text = response.logs_text.as_deref().unwrap();
    assert!(text.starts_with(remote_log_truncation_notice()));
    let kept = text.len() - remote_log_truncation_notice().len();
    let mut longer = text.to_string();
    longer.push('\0');
    assert!(kept < MAX_REMOTE_SERVICE_LOG_BYTES);
    let bigger = ServiceControlResponse::success_logs(Some("request".to_string()), "demo".to_string(), longer);
    assert!(frame_len(&bigger).unwrap() > MAX_CONTROL_FRAME_LEN);
}

#[test]
fn already_truncated_text_keeps_room_for_the_notice() {
    let text = "a".repeat(MAX_REMOTE_SERVICE_LOG_BYTES);
    let (kept, truncated) = limit_remote_log_content(text, true);
    assert!(truncated);
    assert_eq!(kept.len(), MAX_REMOTE_SERVICE_LOG_BYTES - remote_log_truncation_notice().len());

    let (small, still) = limit_remote_log_content("abc".to_string(), true);
    assert_eq!(small, "abc");
    assert!(still);
}

#[test]
fn rendering_adds_the_notice_only_when_cut() {
    assert_eq!(render_remote_log_text("x", false), "x");
    assert_eq!(render_remote_log_text("x", true), format!("{}x", remote_log_truncation_notice()));
    assert_eq!(remote_log_truncation_notice(), "[fungi] remote log output truncated\n");
}

#[test]
fn measuring_errors_are_reported() {
    let result = bounded_service_log_response(
        None,
        "demo".to_string(),
        BoundedLogText { text: "x".to_string(), truncated: false },
        |_: &ServiceControlResponse| Err("boom".to_string()),
    );
    assert_eq!(result.unwrap_err(), "boom");
}

#[test]
fn log_requests_clamp_their_tail() {
    assert_eq!(clamp_log_tail(0), 1);
    assert_eq!(clamp_log_tail(50), 50);
    assert_eq!(clamp_log_tail(1_000_000), 2_000);
    let action = service_control_action(&ServiceControlRequest::GetServiceLogs {
        request_id: None,
        service: "web".into(),
        tail: 9_999,
    });
    match action {
        ServiceControlAction::ReadLogs { service, tail, max_bytes } => {
            assert_eq!(service, "web");
            assert_eq!(tail, 2_000);
            assert_eq!(max_bytes, MAX_REMOTE_SERVICE_LOG_BYTES);
        }
        _ => panic!("expected a log read"),
    }
}

#[test]
fn requests_map_to_runtime_actions() {
    let start = service_control_action(&ServiceControlRequest::StartService { request_id: None, service: "a".into() });
    assert!(matches!(start, ServiceControlAction::Start { ref service } if service == "a"));
    let list = service_control_action(&ServiceControlRequest::ListServices { request_id: Some("r".into()) });
    assert!(matches!(list, ServiceControlAction::ListServices));
}

#[test]
fn failed_work_is_reported_as_execution_failure() {
    let response = service_control_response(
        Some("r1".into()),
        ServiceControlResult::Failed { message: "service not found: x".into() },
        frame_len,
    );
    assert!(!response.ok);
    assert_eq!(response.request_id.as_deref(), Some("r1"));
    let error = response.error.unwrap();
    assert_eq!(error.code, "execution_failed");
    assert_eq!(error.message, "service not found: x");
}

#[test]
fn finished_work_names_the_service() {
    let response = service_control_response(None, ServiceControlResult::Done { service: "web".into() }, frame_len);
    assert!(response.ok);
    assert_eq!(response.service.unwrap().name, "web");
}

#[test]
fn failed_response_becomes_an_error_message() {
    let response = ServiceControlResponse::error(None, "execution_failed", "boom".into());
    assert_eq!(response.into_result().unwrap_err(), "execution_failed: boom");
}

/// The JSON object a logs response is sent as, built field by field.
fn response_json(response: &ServiceControlResponse) -> serde_json::Value {
    let mut object = serde_json::Map::new();
    let request_id = match &response.request_id {
        Some(id) => serde_json::Value::String(id.clone()),
        None => serde_json::Value::Null,
    };
    object.insert("request_id".to_string(), request_id);
    object.insert("ok".to_string(), serde_json::Value::Bool(response.ok));
    object.insert("forgotten_locally".to_string(), serde_json::Value::Bool(response.forgotten_locally));
    if let Some(service) = &response.service {
        let mut service_object = serde_json::Map::new();
        service_object.insert("name".to_string(), serde_json::Value::String(service.name.clone()));
        object.insert("service".to_string(), serde_json::Value::Object(service_object));
    }
    if let Some(text) = &response.logs_text {
        object.insert("logs_text".to_string(), serde_json::Value::String(text.clone()));
    }
    serde_json::Value::Object(object)
}

fn serialized_frame_len(response: &ServiceControlResponse) -> Result<usize, String> {
    serde_json::to_vec(&response_json(response)).map(|payload| payload.len()).map_err(|error| error.to_string())
}

#[test]
fn control_heavy_remote_logs_fit_the_serialized_frame_limit() {
    let response = bounded_service_log_response(
        Some("request".to_string()),
        "demo".to_string(),
        BoundedLogText { text: "\0".repeat(MAX_REMOTE_SERVICE_LOG_BYTES), truncated: false },
        serialized_frame_len,
    )
    .unwrap();
    let payload = serde_json::to_vec(&response_json(&response)).unwrap();

    assert!(payload.len() <= MAX_CONTROL_FRAME_LEN);
    assert!(response.logs_text.as_deref().unwrap().starts_with(remote_log_truncation_notice()));
}

#[test]
fn write_frame_rejects_oversized_outgoing_payloads() {
    let oversized = "\0".repeat(MAX_CONTROL_FRAME_LEN);
    let payload = serde_json::to_vec(&oversized).unwrap();

    let error = frame_length_prefix(payload.len()).unwrap_err();

    assert!(error.contains("frame too large"));
}

#[test]
fn handled_requests_carry_their_id_and_service() {
    let start = ServiceControlRequest::StartService { request_id: Some("r1".into()), service: "web".into() };
    let done = ServiceControlResult::Done { service: "web".into() };
    assert!(result_answers(&service_control_action(&start), &done));
    let response = handle_request(&start, done, frame_len);
    assert_eq!(response.request_id.as_deref(), Some("r1"));
    assert!(response.ok);
    assert_eq!(response.service.as_ref().map(|s| s.name.as_str()), Some("web"));

    let logs = ServiceControlRequest::GetServiceLogs { request_id: None, service: "db".into(), tail: 10 };
    let result = ServiceControlResult::Logs {
        service: "db".into(),
        logs: BoundedLogText { text: "line".into(), truncated: false },
    };
    let response = handle_request(&logs, result, frame_len);
    assert_eq!(response.logs_text.as_deref(), Some("line"));
    assert_eq!(response.service.as_ref().map(|s| s.name.as_str()), Some("db"));

    let failed = handle_request(
        &ServiceControlRequest::ListServices { request_id: Some("r2".into()) },
        ServiceControlResult::Failed { message: "boom".into() },
        frame_len,
    );
    assert!(!failed.ok);
    assert_eq!(failed.request_id.as_deref(), Some("r2"));
    assert_eq!(failed.error.as_ref().map(|e| e.message.as_str()), Some("boom"));
}

#[test]
fn results_must_answer_the_action_they_are_given_for() {
    let stop = service_control_action(&ServiceControlRequest::StopService { request_id: None, service: "web".into() });
    assert!(!result_answers(&stop, &ServiceControlResult::Done { service: "db".into() }));
    assert!(!result_answers(&stop, &ServiceControlResult::Services { services_json: "[]".into() }));
    assert!(result_answers(&stop, &ServiceControlResult::Failed { message: "x".into() }));
}
