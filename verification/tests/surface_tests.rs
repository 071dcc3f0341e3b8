use tinkervoice::agents::{
    agent_chat_reply, config_command_prompt, default_config_recommendation, default_intent,
    default_validation_report, parse_agent_kind, validation_command_prompt, DataStats,
};
use tinkervoice::chat::AgentType;
use tinkervoice::json::JsonValue;
use tinkervoice::json::parse_json_text;
use tinkervoice::keys::{keys_status, parse_service, ApiService, ServiceKeys};
use tinkervoice::research::MLResearchResult;
use tinkervoice::speech::{
    base64_decode, base64_encode, decode_transcription_text, decode_voices,
    speech_result_from_bytes, tts_request_body, voice_status, VoiceSettings, DEFAULT_VOICE_ID,
};
use tinkervoice::workflow::{completed_research_status, research_response_from};

fn field<'a>(v: &'a JsonValue, key: &str) -> &'a JsonValue {
    match v {
        JsonValue::Object(fields) => {
            for (k, x) in fields {
                if k == key {
                    return x;
                }
            }
            panic!("field {} not found", key);
        },
        _ => panic!("not an object"),
    }
}

#[test]
fn default_settings_match_the_service_documentation() {
    let s = VoiceSettings::default();
    assert_eq!(s.stability, "0.5");
    assert_eq!(s.similarity_boost, "0.75");
    assert_eq!(s.style, "0.0");
    assert!(s.use_speaker_boost);
}

#[test]
fn tts_body_carries_text_model_and_settings() {
    let body = tts_request_body("read this", VoiceSettings::default());
    match field(&body, "text") {
        JsonValue::Text(t) => assert_eq!(t, "read this"),
        _ => panic!("text should be text"),
    }
    match field(&body, "model_id") {
        JsonValue::Text(m) => assert_eq!(m, "eleven_multilingual_v2"),
        _ => panic!("model_id should be text"),
    }
    match field(field(&body, "voice_settings"), "stability") {
        JsonValue::Number(s) => assert_eq!(s, "0.5"),
        _ => panic!("stability should be a number"),
    }
}

#[test]
fn base64_round_trips_audio() {
    let bytes = vec![1u8, 2, 3];
    let encoded = base64_encode(&bytes);
    assert_eq!(encoded, "AQID");
    assert_eq!(base64_decode(&encoded).unwrap(), bytes);
    assert!(base64_decode("@@not base64@@").is_err());
}

#[test]
fn speech_results_default_their_content_type() {
    let r = speech_result_from_bytes(&vec![255u8, 0, 128], None);
    assert_eq!(r.audio_base64, "/wCA");
    assert_eq!(r.content_type, "audio/mpeg");
    let r2 = speech_result_from_bytes(&Vec::new(), Some("audio/ogg".to_string()));
    assert_eq!(r2.audio_base64, "");
    assert_eq!(r2.content_type, "audio/ogg");
}

#[test]
fn transcriptions_decode_with_optional_fields() {
    let t = decode_transcription_text(
        "{\"text\": \"hello\", \"confidence\": 0.97, \"language_code\": \"en\"}",
    )
    .unwrap();
    assert_eq!(t.text, "hello");
    assert_eq!(t.confidence.as_deref(), Some("0.97"));
    assert_eq!(t.language_code.as_deref(), Some("en"));
    let bare = decode_transcription_text("{\"text\": \"hi\"}").unwrap();
    assert!(bare.confidence.is_none());
    assert!(decode_transcription_text("{}").is_err());
}

#[test]
fn voices_listing_rejects_bad_shapes() {
    // Not an object at all.
    let arr = parse_json_text("[1, 2]").unwrap();
    assert!(decode_voices(&arr).is_err());
    // The voices field missing.
    let empty = parse_json_text("{}").unwrap();
    assert!(decode_voices(&empty).is_err());
    // One voice without its identifier.
    let bad = parse_json_text("{\"voices\": [{\"name\": \"Rachel\"}]}").unwrap();
    match decode_voices(&bad) {
        Err((field, _)) => assert_eq!(field, "voice_id"),
        other => panic!("expected a mismatch on voice_id, got {:?}", other),
    }
}

#[test]
fn voice_status_reports_the_default_voice() {
    let s = voice_status(true);
    assert!(s.is_configured);
    assert_eq!(s.default_voice_id, DEFAULT_VOICE_ID);
}

#[test]
fn service_names_parse_through_lowering() {
    assert_eq!(parse_service("ElevenLabs").unwrap(), ApiService::Elevenlabs);
    assert_eq!(parse_service("ANTHROPIC").unwrap(), ApiService::Anthropic);
    assert_eq!(parse_service("tinker").unwrap(), ApiService::Tinker);
    assert_eq!(parse_service("acme").unwrap_err(), "Unknown service: acme");
}

#[test]
fn keys_can_be_set_per_service() {
    let mut keys = ServiceKeys::new(None, Some("a".to_string()), None, None, None);
    assert!(!keys.has_key(ApiService::Tonic));
    assert!(keys.has_key(ApiService::Anthropic));
    keys.set_key(ApiService::Tonic, "t".to_string());
    assert!(keys.has_key(ApiService::Tonic));
    assert!(!keys.has_key(ApiService::Yutori));
    let status = keys_status(&keys);
    assert!(status.anthropic.is_configured);
    assert!(status.tonic.is_configured);
    assert!(!status.elevenlabs.is_configured);
    assert!(status.tinker.is_valid.is_none());
    assert!(status.yutori.last_checked.is_none());
}

#[test]
fn stock_intent_mirrors_the_transcript() {
    let intent = default_intent("train on my tickets".to_string());
    assert_eq!(intent.task_description, "train on my tickets");
    assert_eq!(intent.domain, "general");
    assert_eq!(intent.suggested_model.as_deref(), Some("llama-3-8b"));
    assert_eq!(intent.suggested_example_count, Some(1000));
    assert_eq!(intent.confidence, "0.8");
}

#[test]
fn stock_validation_report_passes_with_one_suggestion() {
    let report = default_validation_report();
    assert_eq!(report.quality_score, 85);
    assert!(report.is_acceptable);
    assert_eq!(report.suggestions, vec!["Consider adding more diverse examples".to_string()]);
}

#[test]
fn stock_recommendation_prefers_the_intent() {
    let mut intent = default_intent("t".to_string());
    intent.suggested_model = Some("mistral-7b".to_string());
    intent.suggested_training_type = None;
    let rec = default_config_recommendation(intent);
    assert_eq!(rec.model, "mistral-7b");
    assert_eq!(rec.training_type, "sft");
    assert_eq!(rec.hyperparameters.learning_rate, "1e-5");
    assert_eq!(rec.estimated_time_minutes, 90);
}

#[test]
fn agent_kinds_parse_and_replies_speak() {
    assert_eq!(parse_agent_kind(Some(&"intent".to_string())), AgentType::Intent);
    assert_eq!(parse_agent_kind(Some(&"validation".to_string())), AgentType::Validation);
    assert_eq!(parse_agent_kind(Some(&"config".to_string())), AgentType::Config);
    assert_eq!(parse_agent_kind(Some(&"other".to_string())), AgentType::General);
    assert_eq!(parse_agent_kind(None), AgentType::General);
    let reply = agent_chat_reply("done".to_string());
    assert_eq!(reply.message, "done");
    assert!(reply.should_speak);
}

#[test]
fn command_prompts_embed_their_arguments() {
    let stats = DataStats {
        num_samples: 40,
        avg_tokens_per_sample: 120,
        max_tokens: 300,
        min_tokens: 10,
    };
    assert_eq!(
        config_command_prompt("classify", stats),
        "Recommend training config for:\nTask: classify\nData samples: 40\nAvg tokens: 120"
    );
    assert_eq!(
        validation_command_prompt("classify", "[]"),
        "Validate this training data for the task: classify\n\nData:\n[]"
    );
}

#[test]
fn research_responses_summarize_the_request() {
    let result = MLResearchResult {
        recommended_params: Vec::new(),
        best_practices: vec!["p".to_string()],
        data_patterns: Vec::new(),
        pitfalls: Vec::new(),
    };
    let r = research_response_from("tickets", "support", "rid-1".to_string(), result);
    assert_eq!(r.research_id, "rid-1");
    assert_eq!(r.summary, "Research completed for tickets task in support domain");
    assert_eq!(r.best_practices, vec!["p".to_string()]);
    assert!(r.sources.is_empty());
}

#[test]
fn synchronous_research_reports_completed() {
    let s = completed_research_status("rid-2".to_string());
    assert_eq!(s.research_id, "rid-2");
    assert_eq!(s.status, "completed");
    assert_eq!(s.progress.as_deref(), Some("1.0"));
    assert!(s.result.is_none());
}
