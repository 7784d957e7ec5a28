use mistral_client::MistralClient;
use mistral_client::MistralError;

#[test]
fn default_request_body_is_exact() {
    let client = MistralClient::new("secret".to_string());
    let body = client.request_body("hi");
    assert_eq!(
        body,
        "{\"model\":\"mistral-large-latest\",\"messages\":[{\"role\":\"system\",\"content\":\"hi\"}],\"temperature\":0.7,\"max_tokens\":2000}"
    );
}

#[test]
fn overrides_propagate_into_body() {
    let client = MistralClient::new("k".to_string())
        .with_model("m2".to_string())
        .with_temperature("0.1".to_string())
        .with_max_tokens(50);
    let body = client.request_body("x");
    assert_eq!(
        body,
        "{\"model\":\"m2\",\"messages\":[{\"role\":\"system\",\"content\":\"x\"}],\"temperature\":0.1,\"max_tokens\":50}"
    );
    assert!(body.contains("\"model\":\"m2\""));
    assert!(body.contains("\"temperature\":0.1"));
    assert!(body.contains("\"max_tokens\":50"));
}

#[test]
fn repeated_override_keeps_last_value() {
    let client = MistralClient::new("k".to_string())
        .with_model("a".to_string())
        .with_model("b".to_string());
    let body = client.request_body("x");
    assert!(body.contains("\"model\":\"b\""));
    assert!(!body.contains("\"model\":\"a\""));
}

#[test]
fn body_round_trips_through_a_json_reader() {
    let prompt = "line1\nline2\t\"quoted\" back\\slash \u{1} caf\u{e9} \u{1f600}";
    let client = MistralClient::new("k".to_string()).with_model("mod\"el".to_string());
    let body = client.request_body(prompt);
    let v: serde_json::Value = serde_json::from_str(&body).expect("body must be valid JSON");
    assert_eq!(v["model"].as_str().unwrap(), "mod\"el");
    assert_eq!(v["messages"][0]["role"].as_str().unwrap(), "system");
    assert_eq!(v["messages"][0]["content"].as_str().unwrap(), prompt);
    assert_eq!(v["temperature"].as_f64().unwrap(), 0.7);
    assert_eq!(v["max_tokens"].as_i64().unwrap(), 2000);
}

#[test]
fn control_characters_are_escaped_as_hex() {
    let client = MistralClient::new("k".to_string());
    let body = client.request_body("a\u{1}b\u{1f}c");
    assert!(body.contains("a\\u0001b\\u001fc"));
}

#[test]
fn negative_token_caps_are_rendered() {
    let client = MistralClient::new("k".to_string()).with_max_tokens(-5);
    assert!(client.request_body("x").contains("\"max_tokens\":-5"));
    let client = MistralClient::new("k".to_string()).with_max_tokens(i32::MIN);
    assert!(client.request_body("x").contains("\"max_tokens\":-2147483648"));
}

#[test]
fn auth_header_carries_bearer_token() {
    let client = MistralClient::new("secret-key".to_string());
    assert_eq!(client.auth_header_value(), "Bearer secret-key");
}

#[test]
fn api_url_defaults_and_overrides() {
    let client = MistralClient::new("k".to_string());
    assert_eq!(client.api_url(), "https://api.mistral.ai/v1/chat/completions");
    let client = client.with_api_url("http://localhost:9999/x".to_string());
    assert_eq!(client.api_url(), "http://localhost:9999/x");
}

#[test]
fn error_descriptions_match_each_kind() {
    assert_eq!(
        MistralError::ApiError("boom".to_string()).describe(),
        "API request failed: boom"
    );
    assert_eq!(
        MistralError::NetworkError("down".to_string()).describe(),
        "Network error: down"
    );
    assert_eq!(MistralError::MissingApiKey.describe(), "Missing API key");
}
