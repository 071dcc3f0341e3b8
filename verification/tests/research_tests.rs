use tinkervoice::json::JsonValue;
use tinkervoice::poll::JobStatus;
use tinkervoice::research::{
    clamp_depth, decode_research_reply_text, extract_param_name, extract_param_value,
    ml_research_query, ml_research_request, ml_result_from_insights, research_fetch_from_reply,
    research_request_body, ResearchFetch, ResearchRequest,
};

fn field<'a>(v: &'a JsonValue, key: &str) -> &'a JsonValue {
    match v {
        JsonValue::Object(fields) => {
            for (k, x) in fields {
                if k == key {
                    return x;
                }
            }
            panic!("field {} not found", key);
        },
        _ => panic!("not an object"),
    }
}

#[test]
fn param_names_are_mined_from_lowered_text() {
    assert_eq!(extract_param_name("Learning Rate around 3e-4 works"), "learning_rate");
    assert_eq!(extract_param_name("use a BATCH SIZE of 8"), "batch_size");
    assert_eq!(extract_param_name("LoRA rank of 16"), "lora_rank");
    assert_eq!(extract_param_name("the rank matters"), "lora_rank");
    assert_eq!(extract_param_name("after three Epochs"), "num_epochs");
    assert_eq!(extract_param_name("tune gently"), "parameter");
}

#[test]
fn param_values_pick_the_first_number_word() {
    assert_eq!(extract_param_value("set learning rate to 3e-4"), "3e-4");
    assert_eq!(extract_param_value("set it to 3e-4, roughly"), "3e-4");
    assert_eq!(extract_param_value("about 16, maybe 32"), "16");
    assert_eq!(extract_param_value("(0.1)"), "0.1");
    assert_eq!(extract_param_value("no digits here"), "unknown");
    assert_eq!(extract_param_value(""), "unknown");
}

#[test]
fn depth_is_clamped_into_range() {
    assert_eq!(clamp_depth(0), 1);
    assert_eq!(clamp_depth(3), 3);
    assert_eq!(clamp_depth(9), 5);
}

#[test]
fn research_body_holds_query_and_clamped_depth() {
    let req = ResearchRequest {
        query: "q".to_string(),
        depth: 9,
        domain: Some("ml".to_string()),
        max_sources: Some(20),
    };
    let body = research_request_body(req);
    match field(&body, "query") {
        JsonValue::Text(q) => assert_eq!(q, "q"),
        _ => panic!("query should be text"),
    }
    match field(&body, "depth") {
        JsonValue::Number(d) => assert_eq!(d, "5"),
        _ => panic!("depth should be a number"),
    }
    match field(&body, "max_sources") {
        JsonValue::Number(m) => assert_eq!(m, "20"),
        _ => panic!("max_sources should be a number"),
    }
}

#[test]
fn status_reports_decode_with_defaults() {
    let raw = "{\"research_id\": \"r-1\", \"status\": \"pending\"}";
    let reply = decode_research_reply_text(raw).unwrap();
    assert_eq!(reply.research_id, "r-1");
    assert_eq!(reply.status, JobStatus::Pending);
    assert!(reply.summary.is_none());
    assert!(reply.insights.is_empty());
    assert!(reply.sources.is_empty());
    assert_eq!(reply.duration_ms, 0);
    assert_eq!(reply.sources_consulted, 0);
}

#[test]
fn full_status_reports_decode_sources_and_findings() {
    let raw = "{\"research_id\": \"r-2\", \"status\": \"completed\", \
               \"summary\": \"done\", \"insights\": [\"a\", \"b\"], \
               \"sources\": [{\"url\": \"u\", \"title\": \"t\", \"relevance_score\": 0.8}], \
               \"findings\": [{\"content\": \"c\", \"source_url\": \"u\", \"confidence\": 0.5}], \
               \"duration_ms\": 1234, \"sources_consulted\": 7}";
    let reply = decode_research_reply_text(raw).unwrap();
    assert_eq!(reply.status, JobStatus::Completed);
    assert_eq!(reply.insights, vec!["a".to_string(), "b".to_string()]);
    assert_eq!(reply.sources.len(), 1);
    assert_eq!(reply.sources[0].relevance_score, "0.8");
    assert_eq!(reply.findings[0].confidence, "0.5");
    assert_eq!(reply.duration_ms, 1234);
    assert_eq!(reply.sources_consulted, 7);
}

#[test]
fn unknown_status_text_is_rejected() {
    let raw = "{\"research_id\": \"r\", \"status\": \"paused\"}";
    assert!(decode_research_reply_text(raw).is_err());
}

#[test]
fn fetch_outcomes_follow_the_status() {
    let raw = "{\"research_id\": \"r\", \"status\": \"completed\", \"summary\": \"s\"}";
    match research_fetch_from_reply(decode_research_reply_text(raw).unwrap()) {
        ResearchFetch::Completed(res) => {
            assert_eq!(res.summary, "s");
            assert_eq!(res.metadata.research_id, "r");
            assert_eq!(res.metadata.status, JobStatus::Completed);
        },
        other => panic!("expected completion, got {:?}", other),
    }
    let raw2 = "{\"research_id\": \"r\", \"status\": \"failed\"}";
    match research_fetch_from_reply(decode_research_reply_text(raw2).unwrap()) {
        ResearchFetch::Failed(reason) => assert_eq!(reason, "Research failed"),
        other => panic!("expected failure, got {:?}", other),
    }
    let raw3 = "{\"research_id\": \"r\", \"status\": \"inprogress\"}";
    match research_fetch_from_reply(decode_research_reply_text(raw3).unwrap()) {
        ResearchFetch::InProgress { research_id } => assert_eq!(research_id, "r"),
        other => panic!("expected in-progress, got {:?}", other),
    }
}

#[test]
fn ml_query_names_the_task_and_types() {
    let q = ml_research_query("summarize tickets", "llama", "sft");
    assert_eq!(
        q,
        "Best practices and recommended hyperparameters for sft fine-tuning llama models. \
         Task: summarize tickets. Include: learning rates, batch sizes, LoRA configurations, \
         common pitfalls, data formatting patterns, and evaluation strategies."
    );
    let req = ml_research_request("t", "m", "sft");
    assert_eq!(req.depth, 4);
    assert_eq!(req.domain.as_deref(), Some("machine learning fine-tuning"));
    assert_eq!(req.max_sources, Some(20));
}

#[test]
fn insights_are_filtered_into_guidance() {
    let insights = vec![
        "you should keep prompts short".to_string(),
        "a learning rate of 3e-4 is typical".to_string(),
        "format data as JSONL".to_string(),
        "avoid duplicate rows".to_string(),
        "nothing relevant".to_string(),
    ];
    let r = ml_result_from_insights(&insights);
    assert_eq!(r.best_practices, vec!["you should keep prompts short".to_string()]);
    assert_eq!(
        r.data_patterns,
        vec!["format data as JSONL".to_string()]
    );
    assert_eq!(r.pitfalls, vec!["avoid duplicate rows".to_string()]);
    assert_eq!(r.recommended_params.len(), 1);
    assert_eq!(r.recommended_params[0].name, "learning_rate");
    assert_eq!(r.recommended_params[0].value, "3e-4");
    assert_eq!(r.recommended_params[0].rationale, "a learning rate of 3e-4 is typical");
}

#[test]
fn at_most_five_parameters_are_mined() {
    let insights: Vec<String> = (0..8).map(|i| format!("rank {} fits", i)).collect();
    let r = ml_result_from_insights(&insights);
    assert_eq!(r.recommended_params.len(), 5);
    assert_eq!(r.recommended_params[4].value, "4");
}
