use mistral_client::interpret_outcome;
use mistral_client::interpret_response;
use mistral_client::parse_chat_response;
use mistral_client::MistralError;
use mistral_client::TransportOutcome;

#[test]
fn round_trip_returns_first_content() {
    let body = "{\"choices\":[{\"message\":{\"role\":\"assistant\",\"content\":\"hello\"}}]}";
    let r = interpret_response(200, body.to_string());
    assert_eq!(r, Ok("hello".to_string()));
}

#[test]
fn empty_choices_is_api_error_with_fixed_text() {
    let r = interpret_response(200, "{\"choices\":[]}".to_string());
    assert_eq!(
        r,
        Err(MistralError::ApiError("No response from AI".to_string()))
    );
}

#[test]
fn non_success_status_is_api_error_with_raw_body() {
    let r = interpret_response(401, "invalid token".to_string());
    assert_eq!(r, Err(MistralError::ApiError("invalid token".to_string())));
}

#[test]
fn transport_failure_is_network_error() {
    let r = interpret_outcome(TransportOutcome::Failure {
        description: "connection refused".to_string(),
    });
    assert_eq!(
        r,
        Err(MistralError::NetworkError("connection refused".to_string()))
    );
    assert!(!matches!(r, Err(MistralError::ApiError(_))));
}

#[test]
fn response_outcome_is_judged_by_status_and_body() {
    let ok = interpret_outcome(TransportOutcome::Response {
        status: 200,
        body: "{\"choices\":[{\"message\":{\"role\":\"a\",\"content\":\"c\"}}]}".to_string(),
    });
    assert_eq!(ok, Ok("c".to_string()));
    let bad = interpret_outcome(TransportOutcome::Response {
        status: 500,
        body: "oops".to_string(),
    });
    assert_eq!(bad, Err(MistralError::ApiError("oops".to_string())));
}

#[test]
fn status_boundaries() {
    let body = "{\"choices\":[{\"message\":{\"role\":\"a\",\"content\":\"c\"}}]}";
    assert_eq!(interpret_response(299, body.to_string()), Ok("c".to_string()));
    assert_eq!(
        interpret_response(300, body.to_string()),
        Err(MistralError::ApiError(body.to_string()))
    );
    assert_eq!(
        interpret_response(199, body.to_string()),
        Err(MistralError::ApiError(body.to_string()))
    );
}

#[test]
fn extra_fields_are_ignored() {
    let body = "{\"id\":\"cmpl-1\",\"object\":\"chat.completion\",\"created\":1700000000,\
        \"model\":\"mistral-large-latest\",\"choices\":[{\"index\":0,\
        \"message\":{\"role\":\"assistant\",\"content\":\"answer\",\"tool_calls\":null},\
        \"finish_reason\":\"stop\"}],\"usage\":{\"prompt_tokens\":5,\"completion_tokens\":7,\
        \"total_tokens\":12}}";
    assert_eq!(interpret_response(200, body.to_string()), Ok("answer".to_string()));
}

#[test]
fn first_of_several_choices_wins() {
    let body = "{\"choices\":[\
        {\"message\":{\"role\":\"assistant\",\"content\":\"one\"}},\
        {\"message\":{\"role\":\"assistant\",\"content\":\"two\"}}]}";
    assert_eq!(interpret_response(200, body.to_string()), Ok("one".to_string()));
}

#[test]
fn string_escapes_are_decoded() {
    let body = "{\"choices\":[{\"message\":{\"role\":\"a\",\
        \"content\":\"q\\\" b\\\\ s\\/ n\\n t\\t u\\u0041 bs\\b ff\\f cr\\r\"}}]}";
    assert_eq!(
        interpret_response(200, body.to_string()),
        Ok("q\" b\\ s/ n\n t\t uA bs\u{8} ff\u{c} cr\r".to_string())
    );
}

#[test]
fn surrogate_pairs_are_combined() {
    let body = "{\"choices\":[{\"message\":{\"role\":\"a\",\"content\":\"\\ud83d\\ude00!\"}}]}";
    assert_eq!(interpret_response(200, body.to_string()), Ok("\u{1f600}!".to_string()));
}

#[test]
fn whitespace_around_the_document_is_allowed() {
    let body = " \t\r\n{ \"choices\" : [ { \"message\" : \
        { \"role\" : \"a\" , \"content\" : \"c\" } } ] } \n ";
    assert_eq!(interpret_response(200, body.to_string()), Ok("c".to_string()));
}

fn expect_decode_error(body: &str) {
    assert_eq!(
        interpret_response(200, body.to_string()),
        Err(MistralError::NetworkError(
            "error decoding response body".to_string()
        )),
        "body should fail to decode: {body}"
    );
}

#[test]
fn malformed_bodies_are_network_errors() {
    expect_decode_error("");
    expect_decode_error("{");
    expect_decode_error("null");
    expect_decode_error("[]");
    expect_decode_error("{\"choices\":[]} trailing");
    expect_decode_error("{\"ok\":true}");
    expect_decode_error("{\"choices\":{}}");
    expect_decode_error("{\"choices\":[],\"choices\":[]}");
    expect_decode_error("{\"choices\":[{}]}");
    expect_decode_error("{\"choices\":[{\"message\":{}}]}");
    expect_decode_error("{\"choices\":[{\"message\":{\"role\":\"a\"}}]}");
    expect_decode_error("{\"choices\":[{\"message\":{\"role\":\"a\",\"content\":null}}]}");
    expect_decode_error("{\"choices\":[{\"message\":{\"role\":\"a\",\"content\":\"c\",\"content\":\"d\"}}]}");
    expect_decode_error("{\"choices\":[{\"message\":{\"role\":\"a\",\"content\":\"c\"}},]}");
    expect_decode_error("{\"choices\":[{\"message\":{\"role\":\"a\",\"content\":\"\\ud800\"}}]}");
    expect_decode_error("{\"choices\":[{\"message\":{\"role\":\"a\",\"content\":\"raw\u{1}\"}}]}");
    expect_decode_error("{\"choices\":[{\"message\":{\"role\":\"a\",\"content\":\"open");
    expect_decode_error("{\"choices\":[[]]}");
    expect_decode_error("{\"choices\":[{\"message\":{\"role\":\"a\",\"content\":\"c\"}},{\"bad\":1}]}");
    expect_decode_error("{\"choices\":[{\"message\":{\"role\":7,\"content\":\"c\"}}]}");
    expect_decode_error("{\"choices\":[{\"message\":\"not an object\"}]}");
}

#[test]
fn escaping_round_trips_through_the_reader() {
    let content = "mix \"q\" \\b\\ \n\t\r \u{8}\u{c}\u{1f} caf\u{e9} \u{1f600} end";
    let body = format!(
        "{{\"choices\":[{{\"message\":{{\"role\":\"assistant\",\"content\":\"{}\"}}}}]}}",
        mistral_client::encode::json_escape(content)
    );
    assert_eq!(interpret_response(200, body), Ok(content.to_string()));
}

#[test]
fn empty_content_is_returned_as_is() {
    let body = "{\"choices\":[{\"message\":{\"role\":\"a\",\"content\":\"\"}}]}";
    assert_eq!(interpret_response(200, body.to_string()), Ok("".to_string()));
}

#[test]
fn skipped_fields_may_hold_any_json() {
    let body = "{\"meta\":{\"deep\":[1,2,{\"x\":[true,false,null,-1.5e3]}]},\
        \"choices\":[{\"pad\":\"va\\\"lue\",\"message\":{\"extra\":[{}],\
        \"role\":\"assistant\",\"content\":\"deep\"}}],\"tail\":\"t\"}";
    assert_eq!(interpret_response(200, body.to_string()), Ok("deep".to_string()));
}

#[test]
fn parse_chat_response_exposes_all_messages() {
    let body = "{\"choices\":[\
        {\"message\":{\"content\":\"c1\",\"role\":\"r1\"}},\
        {\"message\":{\"role\":\"r2\",\"content\":\"c2\"}}]}";
    let msgs = parse_chat_response(body).expect("body parses");
    assert_eq!(msgs.len(), 2);
    assert_eq!(msgs[0].role, "r1");
    assert_eq!(msgs[0].content, "c1");
    assert_eq!(msgs[1].role, "r2");
    assert_eq!(msgs[1].content, "c2");
}

#[test]
fn shared_client_calls_do_not_interfere() {
    let client = mistral_client::MistralClient::new("k".to_string());
    let body_a = client.request_body("first");
    let body_b = client.request_body("second");
    assert!(body_a.contains("\"content\":\"first\""));
    assert!(body_b.contains("\"content\":\"second\""));
    let ra = interpret_response(
        200,
        "{\"choices\":[{\"message\":{\"role\":\"a\",\"content\":\"A\"}}]}".to_string(),
    );
    let rb = interpret_response(503, "busy".to_string());
    assert_eq!(ra, Ok("A".to_string()));
    assert_eq!(rb, Err(MistralError::ApiError("busy".to_string())));
    assert!(client.request_body("first") == body_a);
}
