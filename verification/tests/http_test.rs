use granite::gemini::{GeminiCandidate, GeminiContent, GeminiPart, GeminiResponse};
use granite::http::{
    api_error, gemini_endpoint, groq_endpoint, ollama_endpoint, parse_u64, status_line,
    GEMINI_BASE_URL, GROQ_BASE_URL, OLLAMA_BASE_URL,
};
use granite::message::ProviderError;
use std::time::Duration;

#[test]
fn endpoints() {
    assert_eq!(groq_endpoint(GROQ_BASE_URL), "https://api.groq.com/openai/v1/chat/completions");
    assert_eq!(
        gemini_endpoint(GEMINI_BASE_URL, "gemini-1.5-flash", false),
        "https://generativelanguage.googleapis.com/v1beta/models/gemini-1.5-flash:generateContent"
    );
    assert_eq!(
        gemini_endpoint("http://x", "m", true),
        "http://x/models/m:streamGenerateContent?alt=sse"
    );
    assert_eq!(ollama_endpoint(OLLAMA_BASE_URL), "http://localhost:11434/api/chat");
}

#[test]
fn chat_401_maps_to_auth_error() {
    assert!(matches!(api_error("groq", 401, None, ""), ProviderError::Auth));
    assert!(matches!(api_error("groq", 403, None, "no"), ProviderError::Auth));
}

#[test]
fn chat_429_maps_to_rate_limited_with_retry_after() {
    match api_error("groq", 429, Some("7"), "") {
        ProviderError::RateLimited { retry_after } => assert_eq!(retry_after, Some(Duration::from_secs(7))),
        other => panic!("expected RateLimited, got {other:?}"),
    }
    match api_error("ollama", 429, None, "") {
        ProviderError::RateLimited { retry_after } => assert_eq!(retry_after, None),
        other => panic!("expected RateLimited, got {other:?}"),
    }
    match api_error("gemini", 429, Some("soon"), "") {
        ProviderError::RateLimited { retry_after } => assert_eq!(retry_after, None),
        other => panic!("expected RateLimited, got {other:?}"),
    }
}

#[test]
fn chat_500_maps_to_other_error() {
    match api_error("groq", 500, None, "boom") {
        ProviderError::Other(m) => assert_eq!(m, "groq api error (500 Internal Server Error): boom"),
        other => panic!("expected Other, got {other:?}"),
    }
    match api_error("ollama", 599, None, "") {
        ProviderError::Other(m) => assert_eq!(m, "ollama api error (599 <unknown status code>): "),
        other => panic!("expected Other, got {other:?}"),
    }
}

#[test]
fn status_lines_match_status_code_display() {
    for code in [100u16, 200, 404, 418, 429, 500, 503, 599, 999] {
        let expected = reqwest::StatusCode::from_u16(code).unwrap().to_string();
        assert_eq!(status_line(code), expected);
    }
}

#[test]
fn parse_u64_agrees_with_std() {
    for s in ["0", "7", "+7", "120", "", "+", "-1", " 1", "1 ", "1a", "18446744073709551615",
        "18446744073709551616", "99999999999999999999", "007"]
    {
        assert_eq!(parse_u64(s), s.parse::<u64>().ok(), "{s:?}");
    }
}

#[test]
fn gemini_response_without_candidates_is_parse_error() {
    let err = GeminiResponse { candidates: vec![] }.into_chat_response().unwrap_err();
    assert!(matches!(err, ProviderError::Parse(ref m) if m == "no candidates in response"));
    let ok = GeminiResponse {
        candidates: vec![GeminiCandidate {
            content: GeminiContent { role: None, parts: vec![GeminiPart::Text { text: "x".to_string() }] },
            finish_reason: None,
        }],
    }
    .into_chat_response()
    .unwrap();
    assert_eq!(ok.message.content.as_deref(), Some("x"));
}
