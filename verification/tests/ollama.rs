use gitscribe_core::http::status_is_success;
use gitscribe_core::ollama::{
    call_ollama, list_ollama_models, models_url, parse_response, read_models, read_response,
    CallEvent, CallNext, CallPhase, CallStep, InferenceError, InferenceRequest,
    REQUEST_TIMEOUT_SECS,
};

fn none() -> Vec<String> {
    Vec::new()
}

#[test]
fn status_success_is_200_to_299() {
    assert!(!status_is_success(199));
    assert!(status_is_success(200));
    assert!(status_is_success(204));
    assert!(status_is_success(299));
    assert!(!status_is_success(300));
    assert!(!status_is_success(404));
    assert!(!status_is_success(500));
    assert!(!status_is_success(0));
}

#[test]
fn call_ollama_builds_the_request() {
    let system = "be brief".to_string();
    let (call, request) = call_ollama("llama3", "http://h/api/generate", "doc", Some(&system), true);
    assert_eq!(
        request,
        InferenceRequest {
            url: "http://h/api/generate".to_string(),
            model: "llama3".to_string(),
            prompt: "doc".to_string(),
            system: Some("be brief".to_string()),
            stream: true,
            timeout_secs: 300,
        }
    );
    assert_eq!(REQUEST_TIMEOUT_SECS, 300);
    assert_eq!(call.phase(), CallPhase::AwaitingStatus);
    let (_, request) = call_ollama("m", "u", "p", None, false);
    assert_eq!(request.system, None);
    assert!(!request.stream);
}

#[test]
fn whole_answer_with_status_200_yields_its_text() {
    let (mut call, _) = call_ollama("m", "u", "p", None, false);
    assert_eq!(call.step(CallEvent::Status(200)), CallStep { tokens: none(), next: CallNext::ReadBody });
    assert_eq!(call.phase(), CallPhase::ReadingBody);
    let step = call.step(CallEvent::Body(b"{\"response\":\"ok\"}".to_vec()));
    assert_eq!(step, CallStep { tokens: none(), next: CallNext::Finish(Ok("ok".to_string())) });
    assert_eq!(call.phase(), CallPhase::Done);
}

#[test]
fn status_500_yields_a_protocol_error() {
    let (mut call, _) = call_ollama("m", "u", "p", None, false);
    assert_eq!(call.step(CallEvent::Status(500)), CallStep { tokens: none(), next: CallNext::ReadBody });
    assert_eq!(call.phase(), CallPhase::ReadingErrorBody(500));
    let step = call.step(CallEvent::Body(b"boom".to_vec()));
    match step.next {
        CallNext::Finish(Err(error)) => {
            assert_eq!(error, InferenceError::Status { code: 500, body: "boom".to_string() });
            assert!(error.is_protocol());
            assert!(!error.is_transport());
        }
        other => panic!("{:?}", other),
    }
    assert_eq!(call.phase(), CallPhase::Done);
}

#[test]
fn status_500_in_streaming_mode_yields_a_protocol_error() {
    let (mut call, _) = call_ollama("m", "u", "p", None, true);
    assert_eq!(call.step(CallEvent::Status(500)).next, CallNext::ReadBody);
    let step = call.step(CallEvent::Failure("reset".to_string()));
    assert_eq!(
        step.next,
        CallNext::Finish(Err(InferenceError::Status { code: 500, body: String::new() }))
    );
}

#[test]
fn answer_without_response_is_a_protocol_error() {
    assert_eq!(parse_response(b"{\"other\":1}"), Err(InferenceError::MissingResponse));
    assert_eq!(parse_response(b"{\"response\":5}"), Err(InferenceError::MissingResponse));
    assert_eq!(parse_response(b"[]"), Err(InferenceError::MissingResponse));
    assert_eq!(parse_response(b"not json"), Err(InferenceError::MalformedBody));
    assert_eq!(parse_response(b""), Err(InferenceError::MalformedBody));
    assert_eq!(parse_response(b"{\"response\":\"a\xFF\"}"), Err(InferenceError::MalformedBody));
    assert_eq!(parse_response(b"{\"response\":\"ok\"}"), Ok("ok".to_string()));
    assert!(InferenceError::MissingResponse.is_protocol());
    assert!(InferenceError::MalformedBody.is_protocol());
}

#[test]
fn read_response_reads_a_parsed_body() {
    let doc: serde_json::Value = serde_json::from_str("{\"response\":\"text\"}").unwrap();
    assert_eq!(read_response(&doc), Ok("text".to_string()));
    let doc: serde_json::Value = serde_json::from_str("{\"response\":true}").unwrap();
    assert_eq!(read_response(&doc), Err(InferenceError::MissingResponse));
}

#[test]
fn transport_failure_ends_the_call() {
    let (mut call, _) = call_ollama("m", "u", "p", None, false);
    let step = call.step(CallEvent::Failure("timed out".to_string()));
    match step.next {
        CallNext::Finish(Err(error)) => {
            assert_eq!(error, InferenceError::Transport { detail: "timed out".to_string() });
            assert!(error.is_transport());
            assert!(!error.is_protocol());
        }
        other => panic!("{:?}", other),
    }
    assert_eq!(call.phase(), CallPhase::Done);
    assert_eq!(call.step(CallEvent::Status(200)).next, CallNext::Idle);
}

#[test]
fn streamed_answer_releases_tokens_as_lines_end() {
    let (mut call, request) = call_ollama("m", "u", "p", None, true);
    assert!(request.stream);
    assert_eq!(call.step(CallEvent::Status(200)), CallStep { tokens: none(), next: CallNext::ReadChunk });
    assert_eq!(call.phase(), CallPhase::Draining);
    let step = call.step(CallEvent::Chunk(b"{\"response\":\"Hel".to_vec()));
    assert_eq!(step, CallStep { tokens: none(), next: CallNext::ReadChunk });
    let step = call.step(CallEvent::Chunk(b"lo\",\"done\":false}\n{\"respo".to_vec()));
    assert_eq!(step, CallStep { tokens: vec!["Hello".to_string()], next: CallNext::ReadChunk });
    assert_eq!(call.text(), "Hello");
    let step = call.step(CallEvent::Chunk(b"nse\":\" world\",\"done\":true}\n".to_vec()));
    assert_eq!(
        step,
        CallStep {
            tokens: vec![" world".to_string()],
            next: CallNext::Finish(Ok("Hello world".to_string())),
        }
    );
    assert_eq!(call.phase(), CallPhase::Done);
    assert_eq!(call.step(CallEvent::Chunk(b"x".to_vec())).next, CallNext::Idle);
}

#[test]
fn streamed_answer_ends_with_the_stream() {
    let (mut call, _) = call_ollama("m", "u", "p", None, true);
    call.step(CallEvent::Status(200));
    call.step(CallEvent::Chunk(b"{\"response\":\"a\"}\n{\"response\":\"b\"}".to_vec()));
    let step = call.step(CallEvent::End);
    assert_eq!(
        step,
        CallStep { tokens: vec!["b".to_string()], next: CallNext::Finish(Ok("ab".to_string())) }
    );
}

#[test]
fn broken_stream_is_a_transport_error() {
    let (mut call, _) = call_ollama("m", "u", "p", None, true);
    call.step(CallEvent::Status(200));
    call.step(CallEvent::Chunk(b"{\"response\":\"a\"}\n".to_vec()));
    let step = call.step(CallEvent::Failure("reset".to_string()));
    assert_eq!(
        step.next,
        CallNext::Finish(Err(InferenceError::Transport { detail: "reset".to_string() }))
    );
}

#[test]
fn events_that_do_not_fit_change_nothing() {
    let (mut call, _) = call_ollama("m", "u", "p", None, true);
    assert_eq!(call.step(CallEvent::Chunk(b"x".to_vec())).next, CallNext::Idle);
    assert_eq!(call.step(CallEvent::End).next, CallNext::Idle);
    assert_eq!(call.step(CallEvent::Body(b"x".to_vec())).next, CallNext::Idle);
    assert_eq!(call.phase(), CallPhase::AwaitingStatus);
    call.step(CallEvent::Status(200));
    assert_eq!(call.step(CallEvent::Status(200)).next, CallNext::Idle);
    assert_eq!(call.step(CallEvent::Body(b"x".to_vec())).next, CallNext::Idle);
    assert_eq!(call.phase(), CallPhase::Draining);
}

#[test]
fn models_url_appends_the_path() {
    assert_eq!(models_url("http://localhost:11434"), "http://localhost:11434/api/tags");
    assert_eq!(models_url("http://localhost:11434/"), "http://localhost:11434/api/tags");
    assert_eq!(models_url("http://localhost:11434//"), "http://localhost:11434/api/tags");
}

#[test]
fn list_ollama_models_reads_the_names() {
    let body = b"{\"models\":[{\"name\":\"llama3\"},{\"size\":1},{\"name\":7},{\"name\":\"mistral\"}]}";
    assert_eq!(list_ollama_models(200, body), Ok(vec!["llama3".to_string(), "mistral".to_string()]));
    assert_eq!(list_ollama_models(200, b"{\"models\":[]}"), Ok(Vec::new()));
    assert_eq!(list_ollama_models(200, b"{\"models\":{}}"), Err(InferenceError::MissingModels));
    assert_eq!(list_ollama_models(200, b"{}"), Err(InferenceError::MissingModels));
    assert_eq!(list_ollama_models(200, b"<html>"), Err(InferenceError::MalformedBody));
    assert_eq!(
        list_ollama_models(503, b"down"),
        Err(InferenceError::Status { code: 503, body: "down".to_string() })
    );
    assert!(InferenceError::MissingModels.is_protocol());
}

#[test]
fn read_models_reads_a_parsed_listing() {
    let doc: serde_json::Value =
        serde_json::from_str("{\"models\":[{\"name\":\"a\"},{\"name\":\"b\"}]}").unwrap();
    assert_eq!(read_models(&doc), Ok(vec!["a".to_string(), "b".to_string()]));
}
