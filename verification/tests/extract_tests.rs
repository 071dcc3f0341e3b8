use tinkervoice::extract::{extract_json, ExtractionError};

#[test]
fn labeled_fence_returns_trimmed_interior() {
    let reply = "blah ```json\n{\"a\":1}\n``` blah";
    assert_eq!(extract_json(reply).unwrap(), "{\"a\":1}");
}

#[test]
fn labeled_fence_ignores_surrounding_prose_and_later_blocks() {
    let reply = "prose {not json} ```json\n  [1, 2]  \n``` and ```\nother\n```";
    assert_eq!(extract_json(reply).unwrap(), "[1, 2]");
}

#[test]
fn plain_fence_skips_language_line() {
    let reply = "before ```text\n{\"b\": 2}\n``` after";
    assert_eq!(extract_json(reply).unwrap(), "{\"b\": 2}");
}

#[test]
fn plain_fence_without_newline_keeps_all() {
    let reply = "```{\"c\":3}``` tail";
    assert_eq!(extract_json(reply).unwrap(), "{\"c\":3}");
}

#[test]
fn braces_span_widest_object() {
    let reply = "the result is {\"x\": {\"y\": 1}} as stated";
    assert_eq!(extract_json(reply).unwrap(), "{\"x\": {\"y\": 1}}");
}

#[test]
fn brackets_when_no_braces() {
    let reply = "list: [1, 2, 3] end";
    assert_eq!(extract_json(reply).unwrap(), "[1, 2, 3]");
}

#[test]
fn no_json_found_on_plain_prose() {
    let reply = "just words, no structure at all";
    assert_eq!(extract_json(reply), Err(ExtractionError::NoJsonFound));
}

#[test]
fn no_json_found_on_empty_input() {
    assert_eq!(extract_json(""), Err(ExtractionError::NoJsonFound));
}

#[test]
fn reversed_braces_fall_through() {
    // The closing brace comes before the opening one, so the brace rule
    // does not apply; with no brackets either, extraction fails.
    assert_eq!(extract_json("} {"), Err(ExtractionError::NoJsonFound));
}

#[test]
fn unterminated_labeled_fence_falls_back_to_braces() {
    let reply = "```json\n{\"a\": 1}";
    assert_eq!(extract_json(reply).unwrap(), "{\"a\": 1}");
}
