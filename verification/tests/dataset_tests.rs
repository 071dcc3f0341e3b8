use tinkervoice::dataset::{
    assemble_generated_dataset, assemble_uploaded_dataset, dataset_stats, detect_format,
    parse_csv, parse_json, parse_jsonl, preview_dataset, TrainingExample,
};

fn example(input: &str, output: &str) -> TrainingExample {
    TrainingExample { input: input.to_string(), output: output.to_string(), system: None }
}

#[test]
fn csv_uses_named_columns() {
    let content = "input,output,system\nhello,hi there,be kind\nbye,see you,\n";
    let rows = parse_csv(content).unwrap();
    assert_eq!(rows.len(), 2);
    assert_eq!(rows[0].input, "hello");
    assert_eq!(rows[0].output, "hi there");
    assert_eq!(rows[0].system.as_deref(), Some("be kind"));
    assert_eq!(rows[1].system.as_deref(), Some(""));
}

#[test]
fn csv_accepts_alternate_headers() {
    let content = "prompt , completion\nq,a\n";
    let rows = parse_csv(content).unwrap();
    assert_eq!(rows.len(), 1);
    assert_eq!(rows[0].input, "q");
    assert_eq!(rows[0].output, "a");
    assert!(rows[0].system.is_none());
}

#[test]
fn csv_skips_blank_and_short_rows() {
    let content = "input,output\n\n   \nonlyone\nq,a\n";
    let rows = parse_csv(content).unwrap();
    assert_eq!(rows.len(), 1);
    assert_eq!(rows[0].input, "q");
}

#[test]
fn csv_reports_missing_columns() {
    assert_eq!(parse_csv("").unwrap_err(), "Empty CSV file");
    assert_eq!(
        parse_csv("a,b\n1,2\n").unwrap_err(),
        "CSV must have 'input' or 'prompt' column"
    );
    assert_eq!(
        parse_csv("input,b\n1,2\n").unwrap_err(),
        "CSV must have 'output', 'completion', or 'response' column"
    );
}

#[test]
fn jsonl_parses_each_nonblank_line() {
    let content = "{\"input\": \"a\", \"output\": \"b\"}\n\n\
                   {\"input\": \"c\", \"output\": \"d\", \"system\": \"s\"}\n";
    let rows = parse_jsonl(content).unwrap();
    assert_eq!(rows.len(), 2);
    assert_eq!(rows[1].system.as_deref(), Some("s"));
}

#[test]
fn jsonl_reports_bad_lines() {
    let content = "{\"input\": \"a\", \"output\": \"b\"}\nnot json\n";
    let err = parse_jsonl(content).unwrap_err();
    assert!(err.starts_with("Failed to parse JSONL line:"), "{}", err);
}

#[test]
fn whole_file_json_parses_an_array() {
    let content = "[{\"input\": \"a\", \"output\": \"b\"}, {\"input\": \"c\", \"output\": \"d\"}]";
    let rows = parse_json(content).unwrap();
    assert_eq!(rows.len(), 2);
    assert!(parse_json("{\"input\": \"a\"}").is_err());
    assert!(parse_json("[{\"input\": \"a\"}]").is_err());
}

#[test]
fn formats_are_detected_by_extension() {
    assert_eq!(detect_format("data.jsonl", None), "jsonl");
    assert_eq!(detect_format("data.json", None), "json");
    assert_eq!(detect_format("data.csv", None), "csv");
    assert_eq!(detect_format("data.txt", None), "unknown");
    assert_eq!(detect_format("data.csv", Some("jsonl".to_string())), "jsonl");
}

#[test]
fn preview_keeps_the_first_examples() {
    let examples: Vec<TrainingExample> =
        (0..15).map(|i| example(&format!("q{}", i), "a")).collect();
    let p = preview_dataset(examples, None).unwrap();
    assert_eq!(p.total_count, 15);
    assert_eq!(p.samples.len(), 10);
    assert_eq!(p.samples[9].input, "q9");
    let p2 = preview_dataset(vec![example("q", "a")], Some(5)).unwrap();
    assert_eq!(p2.total_count, 1);
    assert_eq!(p2.samples.len(), 1);
}

#[test]
fn uploaded_dataset_counts_rows_and_gets_an_id() {
    let d = assemble_uploaded_dataset(
        vec![example("a", "b"), example("c", "d")],
        "data.csv".to_string(),
        "csv".to_string(),
        512,
    );
    assert_eq!(d.id.len(), 36);
    assert_eq!(d.file_metadata.row_count, 2);
    assert_eq!(d.file_metadata.filename, "data.csv");
    assert_eq!(d.file_metadata.size_bytes, 512);
}

#[test]
fn stats_aggregate_counts_and_prompts() {
    let mut e1 = example("a b", "c");
    e1.system = Some("be kind".to_string());
    let mut e2 = example("d", "e f g");
    e2.system = Some("be kind".to_string());
    let mut e3 = example("h", "i");
    e3.system = Some("be brief".to_string());
    let examples = vec![e1, e2, e3];
    let input_tokens = vec![2u32, 1, 1];
    let output_tokens = vec![1u32, 3, 1];
    let st = dataset_stats(&examples, &input_tokens, &output_tokens).unwrap();
    assert_eq!(st.num_samples, 3);
    assert_eq!(st.avg_input_length, 1); // (2 + 1 + 1) / 3
    assert_eq!(st.avg_output_length, 1); // (1 + 3 + 1) / 3
    assert_eq!(st.avg_tokens_per_sample, 3); // (3 + 4 + 2) / 3
    assert_eq!(st.max_tokens, 4);
    assert_eq!(st.min_tokens, 2);
    assert!(st.has_system_prompts);
    assert_eq!(st.unique_system_prompts, 2);
}

#[test]
fn stats_refuse_an_empty_dataset() {
    let err = dataset_stats(&Vec::new(), &Vec::new(), &Vec::new()).unwrap_err();
    assert_eq!(err, "Dataset is empty");
}

#[test]
fn stats_without_system_prompts() {
    let examples = vec![example("a", "b")];
    let st = dataset_stats(&examples, &vec![1], &vec![1]).unwrap();
    assert!(!st.has_system_prompts);
    assert_eq!(st.unique_system_prompts, 0);
    assert_eq!(st.max_tokens, 2);
    assert_eq!(st.min_tokens, 2);
}

#[test]
fn generated_dataset_records_its_source() {
    let d = assemble_generated_dataset(vec![example("a", "b")], "make data".to_string());
    assert_eq!(d.id.len(), 36);
    assert_eq!(d.generation_metadata.source, "tonic");
    assert_eq!(d.generation_metadata.prompt_used.as_deref(), Some("make data"));
    assert_eq!(d.generation_metadata.duration_ms, 1000);
    // Two assemblies get distinct identifiers.
    let d2 = assemble_generated_dataset(Vec::new(), "x".to_string());
    assert_ne!(d.id, d2.id);
}
