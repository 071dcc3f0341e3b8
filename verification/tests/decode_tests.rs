use tinkervoice::decode::{
    decode_config, decode_intent, decode_validation, config_to_json, decode_config_value,
    decode_intent_value, decode_validation_value, intent_to_json, validation_to_json, DecodeError,
};
use tinkervoice::json::JsonKind;

#[test]
fn intent_decodes_all_fields() {
    let raw = "{\"intent\": \"generate_data\", \"entities\": {\"domain\": \"support\"}, \
               \"confidence\": 0.9, \"clarification_needed\": null}";
    let t = decode_intent(raw).unwrap();
    assert_eq!(t.intent, "generate_data");
    assert_eq!(t.confidence, "0.9");
    assert!(t.clarification_needed.is_none());
}

#[test]
fn intent_keeps_clarification_when_present() {
    let raw = "{\"intent\": \"unknown\", \"entities\": {}, \"confidence\": 0.2, \
               \"clarification_needed\": \"which dataset?\"}";
    let t = decode_intent(raw).unwrap();
    assert_eq!(t.clarification_needed.as_deref(), Some("which dataset?"));
}

#[test]
fn intent_malformed_text_reports_the_original() {
    match decode_intent("not json at all") {
        Err(DecodeError::Malformed(original, _)) => assert_eq!(original, "not json at all"),
        other => panic!("expected a malformed error, got {:?}", other),
    }
}

#[test]
fn intent_missing_field_reports_the_field() {
    let raw = "{\"intent\": \"help\", \"confidence\": 1}";
    match decode_intent(raw) {
        Err(DecodeError::SchemaMismatch(field, kind)) => {
            assert_eq!(field, "entities");
            assert_eq!(kind, JsonKind::Any);
        },
        other => panic!("expected a schema mismatch, got {:?}", other),
    }
}

#[test]
fn intent_wrong_shape_reports_expected_kind() {
    let raw = "{\"intent\": 7, \"entities\": {}, \"confidence\": 1}";
    match decode_intent(raw) {
        Err(DecodeError::SchemaMismatch(field, kind)) => {
            assert_eq!(field, "intent");
            assert_eq!(kind, JsonKind::Text);
        },
        other => panic!("expected a schema mismatch, got {:?}", other),
    }
}

#[test]
fn non_object_reply_is_rejected_at_the_root() {
    match decode_intent("[1, 2]") {
        Err(DecodeError::SchemaMismatch(field, kind)) => {
            assert_eq!(field, "$");
            assert_eq!(kind, JsonKind::Object);
        },
        other => panic!("expected a schema mismatch, got {:?}", other),
    }
}

#[test]
fn intent_decode_is_idempotent_across_encode() {
    let raw = "{\"intent\": \"research\", \"entities\": {\"n\": [1, 2, true, null]}, \
               \"confidence\": 0.75, \"clarification_needed\": \"really?\"}";
    let first = decode_intent(raw).unwrap();
    let reencoded = intent_to_json(decode_intent(raw).unwrap());
    let second = decode_intent_value(&reencoded).unwrap();
    assert_eq!(first.intent, second.intent);
    assert_eq!(first.confidence, second.confidence);
    assert_eq!(first.clarification_needed, second.clarification_needed);
}

#[test]
fn validation_decodes_issues_and_recommendations() {
    let raw = "{\"valid\": false, \"issues\": [ \
                 {\"severity\": \"error\", \"message\": \"empty output\", \"location\": \"row 3\"}, \
                 {\"severity\": \"info\", \"message\": \"ok\"} ], \
               \"stats\": {\"total_samples\": 4}, \
               \"recommendations\": [\"add more rows\"]}";
    let v = decode_validation(raw).unwrap();
    assert!(!v.valid);
    assert_eq!(v.issues.len(), 2);
    assert_eq!(v.issues[0].severity, "error");
    assert_eq!(v.issues[0].location.as_deref(), Some("row 3"));
    assert!(v.issues[1].location.is_none());
    assert_eq!(v.recommendations, vec!["add more rows".to_string()]);
}

#[test]
fn validation_decode_is_idempotent_across_encode() {
    let raw = "{\"valid\": true, \"issues\": [ \
                 {\"severity\": \"warning\", \"message\": \"short\"} ], \
               \"stats\": 12, \"recommendations\": []}";
    let first = decode_validation(raw).unwrap();
    let reencoded = validation_to_json(decode_validation(raw).unwrap());
    let second = decode_validation_value(&reencoded).unwrap();
    assert_eq!(first.valid, second.valid);
    assert_eq!(first.issues.len(), second.issues.len());
    assert_eq!(first.issues[0].message, second.issues[0].message);
    assert_eq!(first.recommendations, second.recommendations);
}

#[test]
fn validation_rejects_non_text_recommendation() {
    let raw = "{\"valid\": true, \"issues\": [], \"stats\": {}, \"recommendations\": [3]}";
    match decode_validation(raw) {
        Err(DecodeError::SchemaMismatch(field, kind)) => {
            assert_eq!(field, "recommendations");
            assert_eq!(kind, JsonKind::Text);
        },
        other => panic!("expected a schema mismatch, got {:?}", other),
    }
}

#[test]
fn validation_propagates_issue_field_errors() {
    let raw = "{\"valid\": true, \"issues\": [{\"severity\": 1, \"message\": \"x\"}], \
               \"stats\": {}, \"recommendations\": []}";
    match decode_validation(raw) {
        Err(DecodeError::SchemaMismatch(field, _)) => assert_eq!(field, "severity"),
        other => panic!("expected a schema mismatch, got {:?}", other),
    }
}

#[test]
fn config_decodes_and_survives_reencoding() {
    let raw = "{\"recommended_config\": {\"base_model\": \"m\", \"lora\": {\"rank\": 16}}, \
               \"reasoning\": \"small dataset\", \
               \"alternatives\": [{\"config\": {}, \"tradeoff\": \"slower\"}], \
               \"warnings\": [\"few samples\"]}";
    let first = decode_config(raw).unwrap();
    assert_eq!(first.reasoning, "small dataset");
    assert_eq!(first.warnings, vec!["few samples".to_string()]);
    assert_eq!(first.alternatives.len(), 1);
    let reencoded = config_to_json(decode_config(raw).unwrap());
    let second = decode_config_value(&reencoded).unwrap();
    assert_eq!(first.reasoning, second.reasoning);
    assert_eq!(first.warnings, second.warnings);
    assert_eq!(second.alternatives.len(), 1);
}

#[test]
fn config_requires_the_recommended_config_field() {
    let raw = "{\"reasoning\": \"r\", \"alternatives\": [], \"warnings\": []}";
    match decode_config(raw) {
        Err(DecodeError::SchemaMismatch(field, _)) => assert_eq!(field, "recommended_config"),
        other => panic!("expected a schema mismatch, got {:?}", other),
    }
}

#[test]
fn number_text_is_preserved_verbatim() {
    // The decoder keeps the number exactly as serde_json renders it, so a
    // re-decode sees the same text.
    let raw = "{\"intent\": \"x\", \"entities\": {}, \"confidence\": 1.25}";
    let t = decode_intent(raw).unwrap();
    assert_eq!(t.confidence, "1.25");
}
