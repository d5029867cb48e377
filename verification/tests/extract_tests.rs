use devprofile::extract::extract_json;
use devprofile::errors::{EmbedError, FetchError, HarvestError};

#[test]
fn test_extract_json_plain() {
    let input = r#"{"ai_detection_score": 50}"#;
    assert_eq!(extract_json(input), input);
}

#[test]
fn test_extract_json_with_code_block() {
    let input = "```json\n{\"ai_detection_score\": 50}\n```";
    assert_eq!(extract_json(input), "{\"ai_detection_score\": 50}");
}

#[test]
fn extract_json_with_surrounding_prose() {
    let input = "Here you go: {\"a\": 1} hope that helps";
    assert_eq!(extract_json(input), "{\"a\": 1}");
}

#[test]
fn extract_json_without_any_object() {
    let input = "no json here";
    assert_eq!(extract_json(input), "no json here");
}

#[test]
fn extract_json_closing_before_opening() {
    assert_eq!(extract_json("}{"), "");
}

#[test]
fn error_messages_are_short_and_fixed() {
    assert_eq!(FetchError::NotFound.message(), "not found");
    assert_eq!(FetchError::RateLimited.message(), "rate limited");
    assert_eq!(FetchError::TransportError.message(), "transport error");
    assert_eq!(FetchError::MalformedResponse.message(), "malformed response");
    assert_eq!(EmbedError::MissingCredential.message(), "missing credential");
    assert_eq!(EmbedError::Transport.message(), "transport error");
    assert_eq!(EmbedError::EmptyResponse.message(), "empty response");
    assert_eq!(HarvestError::NoUsableInput.message(), "no usable input harvested");
}
