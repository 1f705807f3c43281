use memory_ingest::chunking::{
    chunk_request, chunk_request_body, embedding_endpoint, is_success, remote_failure,
    EMBEDDING_API_ENV_VAR, LATE_CHUNKING_PATH,
};
use memory_ingest::error::IngestError;

#[test]
fn names_of_the_configuration() {
    assert_eq!(EMBEDDING_API_ENV_VAR, "EMBEDDING_API_ENDPOINT");
    assert_eq!(LATE_CHUNKING_PATH, "/late-chunking");
}

#[test]
fn endpoint_is_base_then_path() {
    assert_eq!(
        embedding_endpoint(Some("http://localhost:8000"), "/late-chunking"),
        Ok("http://localhost:8000/late-chunking".to_string())
    );
    assert_eq!(embedding_endpoint(Some(""), "/x"), Ok("/x".to_string()));
    assert_eq!(
        embedding_endpoint(Some("https://api.example/"), "/late-chunking"),
        Ok("https://api.example//late-chunking".to_string())
    );
}

#[test]
fn endpoint_without_base_is_a_configuration_error() {
    assert_eq!(embedding_endpoint(None, "/late-chunking"), Err(IngestError::Configuration));
}

#[test]
fn request_body_holds_the_document_under_markdown() {
    assert_eq!(
        chunk_request_body("Hello world. Goodbye world."),
        "{\"markdown\":\"Hello world. Goodbye world.\"}"
    );
}

#[test]
fn request_body_of_an_empty_document() {
    assert_eq!(chunk_request_body(""), "{\"markdown\":\"\"}");
}

#[test]
fn request_body_escapes_the_document() {
    assert_eq!(
        chunk_request_body("# Title\n\"quoted\" \\ \u{01}"),
        "{\"markdown\":\"# Title\\n\\\"quoted\\\" \\\\ \\u0001\"}"
    );
}

#[test]
fn request_body_reads_back_as_json() {
    let document = "line one\nline \"two\"\t\\ end \u{1f} 😀";
    let body = chunk_request_body(document);
    let value: serde_json::Value = serde_json::from_str(&body).unwrap();
    let object = value.as_object().unwrap();
    assert_eq!(object.len(), 1);
    assert_eq!(object.get("markdown").unwrap().as_str().unwrap(), document);
}

#[test]
fn chunk_request_goes_to_the_late_chunking_path() {
    let request = chunk_request(Some("http://embed.local"), "Some text.").unwrap();
    assert_eq!(request.url, "http://embed.local/late-chunking");
    assert_eq!(request.body, "{\"markdown\":\"Some text.\"}");
}

#[test]
fn chunk_request_without_base_is_a_configuration_error() {
    assert_eq!(chunk_request(None, "Some text."), Err(IngestError::Configuration));
}

#[test]
fn success_class_is_200_to_299() {
    assert!(is_success(200));
    assert!(is_success(204));
    assert!(is_success(299));
    assert!(!is_success(199));
    assert!(!is_success(300));
    assert!(!is_success(400));
    assert!(!is_success(404));
    assert!(!is_success(500));
    assert!(!is_success(0));
    assert!(!is_success(u16::MAX));
    for status in 0u16..1000 {
        assert_eq!(is_success(status), status / 100 == 2);
    }
}

#[test]
fn remote_failure_carries_status_and_body() {
    assert_eq!(
        remote_failure(503, Some("overloaded".to_string())),
        IngestError::Remote { status: 503, body: "overloaded".to_string() }
    );
}

#[test]
fn remote_failure_with_unreadable_body_keeps_the_status() {
    assert_eq!(
        remote_failure(502, None),
        IngestError::Remote { status: 502, body: String::new() }
    );
}
