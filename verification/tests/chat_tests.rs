use tinkervoice::chat::{
    agent_chat_request, chat_from_response, chat_request_body, config_prompt,
    connection_probe_request, intent_from_reply, validation_from_reply, validation_prompt,
    AgentReplyError, AgentType, ChatRequest, Message, CHAT_API_VERSION, INTENT_AGENT_PROMPT,
};
use tinkervoice::facade::RequestError;
use tinkervoice::json::JsonValue;

fn field<'a>(v: &'a JsonValue, key: &str) -> &'a JsonValue {
    match v {
        JsonValue::Object(fields) => {
            for (k, x) in fields {
                if k == key {
                    return x;
                }
            }
            panic!("field {} not found", key);
        },
        _ => panic!("not an object"),
    }
}

#[test]
fn each_agent_has_its_prompt() {
    assert_eq!(AgentType::Intent.system_prompt(), INTENT_AGENT_PROMPT);
    assert!(AgentType::Validation.system_prompt().contains("data quality validator"));
    assert!(AgentType::Config.system_prompt().contains("configuration expert"));
    assert!(AgentType::General.system_prompt().contains("TinkerVoice"));
}

#[test]
fn agent_request_uses_prompt_cap_and_temperature() {
    let r = agent_chat_request(AgentType::Config, "set it up");
    assert_eq!(r.messages.len(), 1);
    assert_eq!(r.messages[0].role, "user");
    assert_eq!(r.messages[0].content, "set it up");
    assert_eq!(r.system.as_deref(), Some(AgentType::Config.system_prompt()));
    assert_eq!(r.max_tokens, Some(4096));
    assert_eq!(r.temperature.as_deref(), Some("0.3"));
}

#[test]
fn request_body_holds_model_cap_and_messages() {
    let req = ChatRequest {
        messages: vec![Message { role: "user".to_string(), content: "hi".to_string() }],
        system: Some("be brief".to_string()),
        max_tokens: None,
        temperature: None,
    };
    let body = chat_request_body("m-1", req);
    match field(&body, "model") {
        JsonValue::Text(m) => assert_eq!(m, "m-1"),
        _ => panic!("model should be text"),
    }
    match field(&body, "max_tokens") {
        JsonValue::Number(n) => assert_eq!(n, "4096"),
        _ => panic!("max_tokens should be a number"),
    }
    match field(&body, "system") {
        JsonValue::Text(s) => assert_eq!(s, "be brief"),
        _ => panic!("system should be text"),
    }
    match field(&body, "messages") {
        JsonValue::Array(ms) => {
            assert_eq!(ms.len(), 1);
            match field(&ms[0], "content") {
                JsonValue::Text(c) => assert_eq!(c, "hi"),
                _ => panic!("content should be text"),
            }
        },
        _ => panic!("messages should be an array"),
    }
}

#[test]
fn rate_limit_is_reported_whatever_the_body_says() {
    let r = chat_from_response(429, "{\"pretend\": \"everything is fine\"}".to_string());
    assert_eq!(r.unwrap_err(), RequestError::RateLimited);
    let r2 = chat_from_response(429, String::new());
    assert_eq!(r2.unwrap_err(), RequestError::RateLimited);
}

#[test]
fn auth_failures_map_to_unauthorized() {
    assert_eq!(chat_from_response(401, "x".to_string()).unwrap_err(), RequestError::Unauthorized);
    assert_eq!(chat_from_response(403, "x".to_string()).unwrap_err(), RequestError::Unauthorized);
}

#[test]
fn other_failures_carry_status_and_body() {
    match chat_from_response(500, "boom".to_string()).unwrap_err() {
        RequestError::RemoteError(status, body) => {
            assert_eq!(status, 500);
            assert_eq!(body, "boom");
        },
        other => panic!("expected a remote error, got {:?}", other),
    }
}

#[test]
fn successful_reply_joins_text_blocks() {
    let body = "{\"content\": [ {\"type\": \"text\", \"text\": \"Hello \"}, \
                  {\"type\": \"tool_use\"}, {\"type\": \"text\", \"text\": \"world\"} ], \
                \"stop_reason\": \"end_turn\", \
                \"usage\": {\"input_tokens\": 12, \"output_tokens\": 34}}";
    let c = chat_from_response(200, body.to_string()).unwrap();
    assert_eq!(c.content, "Hello world");
    assert_eq!(c.stop_reason.as_deref(), Some("end_turn"));
    let usage = c.usage.unwrap();
    assert_eq!(usage.input_tokens, 12);
    assert_eq!(usage.output_tokens, 34);
}

#[test]
fn malformed_success_body_is_invalid_response() {
    match chat_from_response(200, "not json".to_string()).unwrap_err() {
        RequestError::InvalidResponse(_) => {},
        other => panic!("expected an invalid response, got {:?}", other),
    }
}

#[test]
fn intent_pipeline_extracts_then_decodes() {
    let reply = "Sure! Here is the intent:\n```json\n{\"intent\": \"start_training\", \
                 \"entities\": {}, \"confidence\": 0.95}\n```";
    let t = intent_from_reply(reply).unwrap();
    assert_eq!(t.intent, "start_training");
    assert_eq!(t.confidence, "0.95");
}

#[test]
fn intent_pipeline_reports_missing_json() {
    match intent_from_reply("no structure here") {
        Err(AgentReplyError::NoJsonFound) => {},
        other => panic!("expected no JSON to be found, got {:?}", other),
    }
}

#[test]
fn validation_pipeline_reports_bad_payload() {
    let reply = "```json\n{\"valid\": \"yes\"}\n```";
    match validation_from_reply(reply) {
        Err(AgentReplyError::Decode(_)) => {},
        other => panic!("expected a decode failure, got {:?}", other),
    }
}

#[test]
fn prompts_embed_their_arguments() {
    assert_eq!(
        validation_prompt("A,B"),
        "Please validate the following data samples:\n\n```\nA,B\n```"
    );
    assert_eq!(config_prompt("fast", None), "Requirements: fast");
    assert_eq!(
        config_prompt("fast", Some("1000 rows")),
        "Requirements: fast\n\nDataset information:\n1000 rows"
    );
}

#[test]
fn probe_request_is_tiny() {
    let r = connection_probe_request();
    assert_eq!(r.messages[0].content, "Hi");
    assert_eq!(r.max_tokens, Some(10));
    assert!(r.system.is_none());
    assert!(r.temperature.is_none());
    assert_eq!(CHAT_API_VERSION, "2023-06-01");
}
