use tinkervoice::json::{parse_json_text, JsonValue};
use tinkervoice::synth::{
    decode_generation_result, generation_request_body, parse_generated_examples,
    preview_request_body, training_data_prompt, training_data_schema, DataSchema,
    GenerationRequest, OutputFormat,
};
use tinkervoice::speech::decode_voices;
use tinkervoice::tinker::{
    checkpoint_path, checkpoints_list_path, config_from_request, create_run_body,
    decode_checkpoint, decode_checkpoints_list, decode_models, decode_training_run,
    decode_training_runs_list, decode_upload_response, parse_datetime_utc, parse_training_type,
    runs_list_path, run_cancel_path, run_path, CreateTrainingRequest, Hyperparameters,
    HyperparametersInput, LoraConfigInput, TrainingConfig, TrainingStatus, TrainingType,
};

fn field<'a>(v: &'a JsonValue, key: &str) -> &'a JsonValue {
    match v {
        JsonValue::Object(fields) => {
            for (k, x) in fields {
                if k == key {
                    return x;
                }
            }
            panic!("field {} not found", key);
        },
        _ => panic!("not an object"),
    }
}

#[test]
fn formats_have_wire_names() {
    assert_eq!(OutputFormat::Jsonl.wire_name(), "jsonl");
    assert_eq!(OutputFormat::Csv.wire_name(), "csv");
    assert_eq!(OutputFormat::Json.wire_name(), "json");
    assert_eq!(OutputFormat::default(), OutputFormat::Jsonl);
}

#[test]
fn generation_body_carries_schema_and_format() {
    let req = GenerationRequest {
        prompt: "make data".to_string(),
        num_records: 100,
        schema: Some(training_data_schema()),
        format: OutputFormat::Jsonl,
    };
    let body = generation_request_body(req);
    match field(&body, "num_records") {
        JsonValue::Number(n) => assert_eq!(n, "100"),
        _ => panic!("num_records should be a number"),
    }
    match field(&body, "output_format") {
        JsonValue::Text(f) => assert_eq!(f, "jsonl"),
        _ => panic!("output_format should be text"),
    }
    match field(field(&body, "schema"), "fields") {
        JsonValue::Array(fs) => assert_eq!(fs.len(), 3),
        _ => panic!("schema fields should be an array"),
    }
}

#[test]
fn preview_body_sets_the_flag() {
    let body = preview_request_body("p", 10);
    match field(&body, "preview_only") {
        JsonValue::Bool(b) => assert!(*b),
        _ => panic!("preview_only should be a boolean"),
    }
}

#[test]
fn training_prompt_embeds_count_task_and_style() {
    let p = training_data_prompt("answer questions", "support", 250, Some("terse"));
    assert!(p.starts_with("Generate 250 high-quality training examples"));
    assert!(p.contains("Task: answer questions\nDomain: support\nStyle: terse"));
    assert!(p.ends_with("Format as JSONL (one JSON object per line)."));
    let q = training_data_prompt("t", "d", 1, None);
    assert!(q.contains("Task: t\nDomain: d\n\n\nEach example"));
}

#[test]
fn generation_results_decode_and_keep_the_prompt() {
    let v = parse_json_text(
        "{\"data\": \"line\", \"record_count\": 3, \"generation_id\": \"g-1\", \
         \"duration_ms\": 420}",
    )
    .unwrap();
    let g = decode_generation_result(&v, "the prompt".to_string()).unwrap();
    assert_eq!(g.data, "line");
    assert_eq!(g.record_count, 3);
    assert_eq!(g.metadata.generation_id, "g-1");
    assert_eq!(g.metadata.duration_ms, 420);
    assert_eq!(g.metadata.prompt_used, "the prompt");
}

#[test]
fn generated_examples_parse_from_jsonl() {
    let data = "{\"input\": \"q\", \"output\": \"a\"}\n{\"input\": \"r\", \"output\": \"b\"}";
    let es = parse_generated_examples(data).unwrap();
    assert_eq!(es.len(), 2);
    assert_eq!(es[1].input, "r");
    let err = parse_generated_examples("garbage").unwrap_err();
    assert!(err.starts_with("Failed to parse training examples:"), "{}", err);
}

#[test]
fn training_types_parse_through_lowering() {
    assert_eq!(parse_training_type("SFT"), Some(TrainingType::Sft));
    assert_eq!(parse_training_type("dpo"), Some(TrainingType::Dpo));
    assert_eq!(parse_training_type("Grpo"), Some(TrainingType::Grpo));
    assert_eq!(parse_training_type("unknown"), None);
    assert_eq!(TrainingType::Ppo.wire_name(), "ppo");
    assert_eq!(TrainingStatus::Cancelled.wire_name(), "cancelled");
}

#[test]
fn create_run_body_holds_nulls_and_lora() {
    let cfg = TrainingConfig {
        model: "llama-3-8b".to_string(),
        training_type: TrainingType::Sft,
        dataset_path: "ds-1".to_string(),
        hyperparameters: Hyperparameters {
            learning_rate: "1e-5".to_string(),
            batch_size: 8,
            num_epochs: 3,
            max_steps: None,
            warmup_steps: Some(100),
            weight_decay: None,
            gradient_accumulation_steps: None,
        },
        lora_config: None,
        name: None,
        description: None,
    };
    let body = create_run_body(cfg);
    assert!(matches!(field(&body, "name"), JsonValue::Null));
    match field(&body, "training_type") {
        JsonValue::Text(t) => assert_eq!(t, "sft"),
        _ => panic!("training_type should be text"),
    }
    let hp = field(&body, "hyperparameters");
    match field(hp, "learning_rate") {
        JsonValue::Number(lr) => assert_eq!(lr, "1e-5"),
        _ => panic!("learning_rate should be a number"),
    }
    assert!(matches!(field(hp, "max_steps"), JsonValue::Null));
    match field(hp, "warmup_steps") {
        JsonValue::Number(w) => assert_eq!(w, "100"),
        _ => panic!("warmup_steps should be a number"),
    }
    match body {
        JsonValue::Object(fields) => {
            assert!(fields.iter().all(|(k, _)| k != "lora_config"));
        },
        _ => panic!("body should be an object"),
    }
}

#[test]
fn paths_embed_identifiers_and_paging() {
    assert_eq!(runs_list_path(None, None), "/v1/training/runs?page=1&per_page=10");
    assert_eq!(runs_list_path(Some(3), Some(25)), "/v1/training/runs?page=3&per_page=25");
    assert_eq!(run_path("r-9"), "/v1/training/runs/r-9");
    assert_eq!(run_cancel_path("r-9"), "/v1/training/runs/r-9/cancel");
}

#[test]
fn timestamps_are_validated_and_normalized() {
    let norm = parse_datetime_utc("2024-01-01T08:30:00+02:00").unwrap();
    assert_eq!(norm, "2024-01-01T06:30:00+00:00");
    assert!(parse_datetime_utc("yesterday").is_err());
}

#[test]
fn training_runs_decode() {
    let v = parse_json_text(
        "{\"id\": \"run-1\", \"name\": null, \"status\": \"running\", \
         \"model\": \"llama-3-8b\", \"training_type\": \"sft\", \
         \"created_at\": \"2024-01-01T00:00:00Z\", \"updated_at\": \"2024-01-02T00:00:00Z\", \
         \"progress\": {\"current_step\": 10, \"total_steps\": 100, \
                        \"current_epoch\": 1, \"total_epochs\": 3, \"loss\": 0.42}, \
         \"error\": null}",
    )
    .unwrap();
    let run = decode_training_run(&v).unwrap();
    assert_eq!(run.id, "run-1");
    assert_eq!(run.status, TrainingStatus::Running);
    assert_eq!(run.training_type, TrainingType::Sft);
    assert_eq!(run.created_at, "2024-01-01T00:00:00+00:00");
    let progress = run.progress.unwrap();
    assert_eq!(progress.current_step, 10);
    assert_eq!(progress.loss.as_deref(), Some("0.42"));
    assert!(progress.eta_seconds.is_none());
    assert!(run.error.is_none());

    let bad = parse_json_text("{\"id\": \"run-1\", \"status\": \"paused\"}").unwrap();
    assert!(decode_training_run(&bad).is_err());
}

#[test]
fn run_listings_decode_page_by_page() {
    let v = parse_json_text(
        "{\"runs\": [ {\"id\": \"r1\", \"status\": \"pending\", \"model\": \"m\", \
           \"training_type\": \"dpo\", \"created_at\": \"2024-01-01T00:00:00Z\", \
           \"updated_at\": \"2024-01-01T00:00:00Z\"} ], \
         \"total\": 1, \"page\": 1, \"per_page\": 10}",
    )
    .unwrap();
    let page = decode_training_runs_list(&v).unwrap();
    assert_eq!(page.runs.len(), 1);
    assert_eq!(page.runs[0].id, "r1");
    assert_eq!(page.runs[0].training_type, TrainingType::Dpo);
    assert_eq!(page.total, 1);
    assert_eq!(page.per_page, 10);
}

#[test]
fn checkpoints_decode_with_metrics() {
    let v = parse_json_text(
        "{\"id\": \"ck-1\", \"run_id\": \"r-1\", \"step\": 500, \"path\": \"/ck/ck-1\", \
         \"size_bytes\": 4096, \"created_at\": \"2024-02-01T00:00:00Z\", \
         \"metrics\": {\"loss\": 0.31, \"eval_loss\": 0.4}}",
    )
    .unwrap();
    let c = decode_checkpoint(&v).unwrap();
    assert_eq!(c.id, "ck-1");
    assert_eq!(c.step, 500);
    assert_eq!(c.size_bytes, 4096);
    let m = c.metrics.unwrap();
    assert_eq!(m.loss, "0.31");
    assert_eq!(m.eval_loss.as_deref(), Some("0.4"));
    assert!(m.accuracy.is_none());

    let page = parse_json_text(
        "{\"checkpoints\": [], \"total\": 0, \"page\": 1, \"per_page\": 10}",
    )
    .unwrap();
    let listed = decode_checkpoints_list(&page).unwrap();
    assert!(listed.checkpoints.is_empty());
    assert_eq!(listed.total, 0);
    assert_eq!(
        checkpoints_list_path("r-1", None, Some(5)),
        "/v1/training/runs/r-1/checkpoints?page=1&per_page=5"
    );
    assert_eq!(checkpoint_path("r-1", "ck-1"), "/v1/training/runs/r-1/checkpoints/ck-1");
}

#[test]
fn models_decode_with_their_training_types() {
    let v = parse_json_text(
        "[{\"id\": \"m-1\", \"name\": \"base\", \"parameters\": \"8B\", \
          \"supported_training_types\": [\"sft\", \"dpo\"], \"max_lora_rank\": 64, \
          \"price_per_million_tokens\": 0.5}]",
    )
    .unwrap();
    let models = decode_models(&v).unwrap();
    assert_eq!(models.len(), 1);
    assert_eq!(models[0].id, "m-1");
    assert_eq!(
        models[0].supported_training_types,
        vec![TrainingType::Sft, TrainingType::Dpo]
    );
    assert_eq!(models[0].max_lora_rank, 64);
    assert_eq!(models[0].price_per_million_tokens, "0.5");

    let bad = parse_json_text(
        "[{\"id\": \"m-1\", \"name\": \"base\", \"parameters\": \"8B\", \
          \"supported_training_types\": [\"finetune\"], \"max_lora_rank\": 64, \
          \"price_per_million_tokens\": 0.5}]",
    )
    .unwrap();
    assert!(decode_models(&bad).is_err());
}

#[test]
fn voices_decode_with_labels() {
    let v = parse_json_text(
        "{\"voices\": [ {\"voice_id\": \"v-1\", \"name\": \"Rachel\", \
           \"category\": \"premade\", \"labels\": {\"accent\": \"american\", \"age\": \"young\"}}, \
          {\"voice_id\": \"v-2\", \"name\": \"Sam\"} ]}",
    )
    .unwrap();
    let voices = decode_voices(&v).unwrap();
    assert_eq!(voices.len(), 2);
    assert_eq!(voices[0].voice_id, "v-1");
    assert_eq!(voices[0].category.as_deref(), Some("premade"));
    let labels = voices[0].labels.clone().unwrap();
    assert_eq!(labels.len(), 2);
    assert!(labels.contains(&("accent".to_string(), "american".to_string())));
    assert!(voices[1].labels.is_none());
}

#[test]
fn upload_acknowledgements_decode() {
    let v = parse_json_text(
        "{\"dataset_id\": \"ds-7\", \"path\": \"/data/ds-7\", \"size_bytes\": 2048, \
         \"row_count\": 12}",
    )
    .unwrap();
    let u = decode_upload_response(&v).unwrap();
    assert_eq!(u.dataset_id, "ds-7");
    assert_eq!(u.path, "/data/ds-7");
    assert_eq!(u.size_bytes, 2048);
    assert_eq!(u.row_count, 12);
}

#[test]
fn command_requests_map_onto_configurations() {
    let req = CreateTrainingRequest {
        name: Some("first run".to_string()),
        description: None,
        model: "llama-3-8b".to_string(),
        training_type: "SFT".to_string(),
        dataset_id: "ds-1".to_string(),
        hyperparameters: HyperparametersInput {
            learning_rate: "1e-5".to_string(),
            batch_size: 8,
            num_epochs: 3,
            max_steps: None,
            warmup_steps: None,
            weight_decay: None,
            gradient_accumulation_steps: None,
        },
        lora_config: Some(LoraConfigInput {
            rank: 16,
            alpha: "32.0".to_string(),
            dropout: "0.1".to_string(),
            target_modules: None,
        }),
    };
    let cfg = config_from_request(req).unwrap();
    assert_eq!(cfg.training_type, TrainingType::Sft);
    assert_eq!(cfg.dataset_path, "ds-1");
    let lora = cfg.lora_config.unwrap();
    assert_eq!(lora.target_modules, vec!["q_proj".to_string(), "v_proj".to_string()]);

    let mut bad = CreateTrainingRequest {
        name: None,
        description: None,
        model: "m".to_string(),
        training_type: "finetune".to_string(),
        dataset_id: "d".to_string(),
        hyperparameters: HyperparametersInput {
            learning_rate: "1e-5".to_string(),
            batch_size: 1,
            num_epochs: 1,
            max_steps: None,
            warmup_steps: None,
            weight_decay: None,
            gradient_accumulation_steps: None,
        },
        lora_config: None,
    };
    bad.training_type = "finetune".to_string();
    assert_eq!(config_from_request(bad).unwrap_err(), "Unknown training type: finetune");
}
