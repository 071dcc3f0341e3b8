//! The synthetic-data vendor: generation requests, their wire bodies, and
//! the decoding of generation results into training examples.

use vstd::prelude::*;

use crate::dataset::{examples_view, jsonl_spec, parse_jsonl};
use crate::json::{fields_model, lookup, lookup_model, JsonKind, JsonModel, JsonValue};
use crate::text::{all_digits, dec_digits, digits_val, parse_u32_digits, parse_u64_digits};

verus! {

/// The generation endpoint.
pub const SYNTH_BASE_URL: &'static str = "https://api.tonic.ai";

/// The output formats the generation service offers.
#[derive(Debug, Clone, Copy, PartialEq, Eq, Structural)]
pub enum OutputFormat {
    Jsonl,
    Csv,
    Json,
}

impl Default for OutputFormat {
    /// Line-delimited JSON is the default format.
    fn default() -> (r: OutputFormat)
        ensures
            r == OutputFormat::Jsonl,
    {
        OutputFormat::Jsonl
    }
}

/// The wire name of a format.
pub open spec fn format_name_spec(f: OutputFormat) -> Seq<char> {
    match f {
        OutputFormat::Jsonl => "jsonl"@,
        OutputFormat::Csv => "csv"@,
        OutputFormat::Json => "json"@,
    }
}

impl OutputFormat {
    /// The wire name of this format.
    pub fn wire_name(&self) -> (r: &'static str)
        ensures
            r@ == format_name_spec(*self),
    {
        match self {
            OutputFormat::Jsonl => "jsonl",
            OutputFormat::Csv => "csv",
            OutputFormat::Json => "json",
        }
    }
}

/// One field of a requested data schema.
#[derive(Debug, Clone)]
pub struct FieldDefinition {
    pub name: String,
    pub field_type: String,
    pub description: Option<String>,
}

/// The schema generated records should follow.
#[derive(Debug, Clone)]
pub struct DataSchema {
    pub fields: Vec<FieldDefinition>,
}

/// A generation request: the prompt, how many records, an optional schema
/// and the output format.
#[derive(Debug, Clone)]
pub struct GenerationRequest {
    pub prompt: String,
    pub num_records: u32,
    pub schema: Option<DataSchema>,
    pub format: OutputFormat,
}

/// The wire shape of one schema field: its name and type, and the
/// description when there is one.
pub open spec fn field_def_model(f: FieldDefinition) -> JsonModel {
    JsonModel::Object(
        seq![
            ("name"@, JsonModel::Text(f.name@)),
            ("field_type"@, JsonModel::Text(f.field_type@)),
        ] + (match f.description {
            Some(d) => seq![("description"@, JsonModel::Text(d@))],
            None => Seq::empty(),
        }),
    )
}

/// The wire shapes of a schema's fields.
pub open spec fn field_defs_models(fs: Seq<FieldDefinition>) -> Seq<JsonModel> {
    Seq::new(fs.len(), |i: int| if 0 <= i < fs.len() { field_def_model(fs[i]) } else { JsonModel::Null })
}

/// The wire shape of a schema.
pub open spec fn schema_model(s: DataSchema) -> JsonModel {
    JsonModel::Object(seq![("fields"@, JsonModel::Array(field_defs_models(s.fields@)))])
}

/// Encodes one schema field.
fn field_def_to_json(f: FieldDefinition) -> (r: JsonValue)
    ensures
        r.model() == field_def_model(f),
{
    let ghost gf = f;
    let mut fields: Vec<(String, JsonValue)> = Vec::new();
    fields.push(("name".to_owned(), JsonValue::Text(f.name)));
    fields.push(("field_type".to_owned(), JsonValue::Text(f.field_type)));
    match f.description {
        Some(d) => {
            fields.push(("description".to_owned(), JsonValue::Text(d)));
        },
        None => {},
    }
    let r = JsonValue::Object(fields);
    proof {
        let fm = r.model()->Object_0;
        assert forall|j: int| 0 <= j < fm.len() implies fm[j] == (
            fields@[j].0@,
            fields@[j].1.model(),
        ) by {}
        assert(fm =~= field_def_model(gf)->Object_0);
    }
    r
}

/// Encodes a schema.
fn schema_to_json(s: DataSchema) -> (r: JsonValue)
    ensures
        r.model() == schema_model(s),
{
    let ghost gs = s;
    let n = s.fields.len();
    let mut fs = s.fields;
    let mut out: Vec<JsonValue> = Vec::new();
    let mut i: usize = 0;
    while i < n
        invariant
            i <= n,
            n == gs.fields@.len(),
            fs@.len() == n - i,
            forall|j: int| 0 <= j < fs@.len() ==> #[trigger] fs@[j] == gs.fields@[i + j],
            out@.len() == i,
            forall|j: int| 0 <= j < i ==> (#[trigger] out@[j]).model() == field_def_model(
                gs.fields@[j],
            ),
        decreases n - i,
    {
        let f = fs.remove(0);
        out.push(field_def_to_json(f));
        i = i + 1;
    }
    let mut obj: Vec<(String, JsonValue)> = Vec::new();
    obj.push(("fields".to_owned(), JsonValue::Array(out)));
    let r = JsonValue::Object(obj);
    proof {
        let fm = r.model()->Object_0;
        assert forall|j: int| 0 <= j < fm.len() implies fm[j] == (
            obj@[j].0@,
            obj@[j].1.model(),
        ) by {}
        let inner = obj@[0].1.model()->Array_0;
        assert forall|j: int| 0 <= j < inner.len() implies inner[j] == field_defs_models(
            gs.fields@,
        )[j] by {
            assert(inner[j] == out@[j].model());
        }
        assert(inner =~= field_defs_models(gs.fields@));
        assert(fm =~~= schema_model(gs)->Object_0);
    }
    r
}

/// The wire shape of a whole generation request: prompt, record count,
/// the schema when given, and the format's wire name.
pub open spec fn generation_body_spec(req: GenerationRequest) -> JsonModel {
    JsonModel::Object(
        seq![
            ("prompt"@, JsonModel::Text(req.prompt@)),
            ("num_records"@, JsonModel::Number(dec_digits(req.num_records as nat))),
        ] + (match req.schema {
            Some(s) => seq![("schema"@, schema_model(s))],
            None => Seq::empty(),
        }) + seq![("output_format"@, JsonModel::Text(format_name_spec(req.format)))],
    )
}

/// Builds the body of a generation request.
pub fn generation_request_body(req: GenerationRequest) -> (r: JsonValue)
    ensures
        r.model() == generation_body_spec(req),
{
    let ghost greq = req;
    let mut fields: Vec<(String, JsonValue)> = Vec::new();
    fields.push(("prompt".to_owned(), JsonValue::Text(req.prompt)));
    fields.push(("num_records".to_owned(), JsonValue::Number(crate::text::u64_to_string(
        req.num_records as u64,
    ))));
    match req.schema {
        Some(s) => {
            fields.push(("schema".to_owned(), schema_to_json(s)));
        },
        None => {},
    }
    fields.push(("output_format".to_owned(), JsonValue::Text(req.format.wire_name().to_owned())));
    let r = JsonValue::Object(fields);
    proof {
        let sfs = generation_body_spec(greq)->Object_0;
        let fm = r.model()->Object_0;
        assert forall|j: int| 0 <= j < fm.len() implies fm[j] == (
            fields@[j].0@,
            fields@[j].1.model(),
        ) by {}
        if greq.schema is Some {
            assert(fm.len() == 4 && sfs.len() == 4);
        } else {
            assert(fm.len() == 3 && sfs.len() == 3);
        }
        assert(fm =~~= sfs);
    }
    r
}

/// The body of a preview request: the prompt, the record count, and the
/// preview flag.
pub open spec fn preview_body_spec(prompt: Seq<char>, num_records: int) -> JsonModel {
    JsonModel::Object(
        seq![
            ("prompt"@, JsonModel::Text(prompt)),
            ("num_records"@, JsonModel::Number(dec_digits(num_records as nat))),
            ("preview_only"@, JsonModel::Bool(true)),
        ],
    )
}

/// Builds the body of a preview request.
pub fn preview_request_body(prompt: &str, num_records: u32) -> (r: JsonValue)
    ensures
        r.model() == preview_body_spec(prompt@, num_records as int),
{
    let mut fields: Vec<(String, JsonValue)> = Vec::new();
    fields.push(("prompt".to_owned(), JsonValue::Text(prompt.to_owned())));
    fields.push(("num_records".to_owned(), JsonValue::Number(crate::text::u64_to_string(
        num_records as u64,
    ))));
    fields.push(("preview_only".to_owned(), JsonValue::Bool(true)));
    let r = JsonValue::Object(fields);
    proof {
        let fm = r.model()->Object_0;
        assert forall|j: int| 0 <= j < fm.len() implies fm[j] == (
            fields@[j].0@,
            fields@[j].1.model(),
        ) by {}
        assert(fm =~~= preview_body_spec(prompt@, num_records as int)->Object_0);
    }
    r
}

// ---------------------------------------------------------------------------
// Generation results
// ---------------------------------------------------------------------------

/// Accounting of one generation call.
#[derive(Debug, Clone)]
pub struct GenerationMetadata {
    pub generation_id: String,
    pub duration_ms: u64,
    pub prompt_used: String,
}

/// A finished generation: the raw data text, the record count, and the
/// accounting metadata.
#[derive(Debug)]
pub struct GenerationResult {
    pub data: String,
    pub record_count: u32,
    pub metadata: GenerationMetadata,
}

/// What decoding a generation reply yields: the data text, the record
/// count, the generation identifier and the duration.
pub open spec fn generation_reply_of(m: JsonModel) -> Result<
    (Seq<char>, int, Seq<char>, int),
    (Seq<char>, JsonKind),
> {
    match m {
        JsonModel::Object(fs) => match lookup_model(fs, "data"@) {
            Some(JsonModel::Text(d)) => match lookup_model(fs, "record_count"@) {
                Some(JsonModel::Number(rc)) => if all_digits(rc) && rc.len() > 0 && digits_val(rc)
                    <= u32::MAX {
                    match lookup_model(fs, "generation_id"@) {
                        Some(JsonModel::Text(gid)) => match lookup_model(fs, "duration_ms"@) {
                            Some(JsonModel::Number(dm)) => if all_digits(dm) && dm.len() > 0
                                && digits_val(dm) <= u64::MAX {
                                Ok((d, digits_val(rc), gid, digits_val(dm)))
                            } else {
                                Err(("duration_ms"@, JsonKind::Number))
                            },
                            _ => Err(("duration_ms"@, JsonKind::Number)),
                        },
                        _ => Err(("generation_id"@, JsonKind::Text)),
                    }
                } else {
                    Err(("record_count"@, JsonKind::Number))
                },
                _ => Err(("record_count"@, JsonKind::Number)),
            },
            _ => Err(("data"@, JsonKind::Text)),
        },
        _ => Err(("$"@, JsonKind::Object)),
    }
}

/// Decodes a generation reply and assembles the result around the prompt
/// that drove it.
pub fn decode_generation_result(v: &JsonValue, prompt_used: String) -> (r: Result<
    GenerationResult,
    (String, JsonKind),
>)
    ensures
        match r {
            Ok(g) => generation_reply_of(v.model()) == Ok::<
                (Seq<char>, int, Seq<char>, int),
                (Seq<char>, JsonKind),
            >((g.data@, g.record_count as int, g.metadata.generation_id@, g.metadata.duration_ms as int))
                && g.metadata.prompt_used == prompt_used,
            Err((f, k)) => generation_reply_of(v.model()) == Err::<
                (Seq<char>, int, Seq<char>, int),
                (Seq<char>, JsonKind),
            >((f@, k)),
        },
{
    let fields = match v {
        JsonValue::Object(fs) => fs,
        _ => {
            return Err(("$".to_owned(), JsonKind::Object));
        },
    };
    proof {
        assert(v.model()->Object_0 =~= fields_model(fields@));
    }
    let data = match lookup(fields, "data") {
        Some(JsonValue::Text(s)) => s.clone(),
        _ => {
            return Err(("data".to_owned(), JsonKind::Text));
        },
    };
    let record_count = match lookup(fields, "record_count") {
        Some(JsonValue::Number(s)) => match parse_u32_digits(s.as_str()) {
            Some(n) => n,
            None => {
                return Err(("record_count".to_owned(), JsonKind::Number));
            },
        },
        _ => {
            return Err(("record_count".to_owned(), JsonKind::Number));
        },
    };
    let generation_id = match lookup(fields, "generation_id") {
        Some(JsonValue::Text(s)) => s.clone(),
        _ => {
            return Err(("generation_id".to_owned(), JsonKind::Text));
        },
    };
    let duration_ms = match lookup(fields, "duration_ms") {
        Some(JsonValue::Number(s)) => match parse_u64_digits(s.as_str()) {
            Some(n) => n,
            None => {
                return Err(("duration_ms".to_owned(), JsonKind::Number));
            },
        },
        _ => {
            return Err(("duration_ms".to_owned(), JsonKind::Number));
        },
    };
    Ok(
        GenerationResult {
            data,
            record_count,
            metadata: GenerationMetadata { generation_id, duration_ms, prompt_used },
        },
    )
}

/// A cost estimate for a generation, before running it. The cost is kept
/// as the decimal text of the number the service sent; an inferred schema
/// is carried through as a document.
#[derive(Debug)]
pub struct GenerationPreview {
    pub estimated_tokens: u32,
    pub estimated_cost: String,
    pub estimated_duration_seconds: u32,
    pub schema_inferred: Option<JsonValue>,
}

/// What decoding a preview reply yields: token and duration estimates as
/// counts, the cost as a number, and whether a schema was inferred.
pub open spec fn preview_of(m: JsonModel) -> Result<
    (int, Seq<char>, int, Option<JsonModel>),
    (Seq<char>, JsonKind),
> {
    match m {
        JsonModel::Object(fs) => match lookup_model(fs, "estimated_tokens"@) {
            Some(JsonModel::Number(et)) => if all_digits(et) && et.len() > 0 && digits_val(et)
                <= u32::MAX {
                match lookup_model(fs, "estimated_cost"@) {
                    Some(JsonModel::Number(ec)) => match lookup_model(
                        fs,
                        "estimated_duration_seconds"@,
                    ) {
                        Some(JsonModel::Number(ed)) => if all_digits(ed) && ed.len() > 0
                            && digits_val(ed) <= u32::MAX {
                            Ok(
                                (
                                    digits_val(et),
                                    ec,
                                    digits_val(ed),
                                    match lookup_model(fs, "schema_inferred"@) {
                                        None => None,
                                        Some(JsonModel::Null) => None,
                                        Some(x) => Some(x),
                                    },
                                ),
                            )
                        } else {
                            Err(("estimated_duration_seconds"@, JsonKind::Number))
                        },
                        _ => Err(("estimated_duration_seconds"@, JsonKind::Number)),
                    },
                    _ => Err(("estimated_cost"@, JsonKind::Number)),
                }
            } else {
                Err(("estimated_tokens"@, JsonKind::Number))
            },
            _ => Err(("estimated_tokens"@, JsonKind::Number)),
        },
        _ => Err(("$"@, JsonKind::Object)),
    }
}

/// Decodes a preview reply.
pub fn decode_generation_preview(v: &JsonValue) -> (r: Result<GenerationPreview, (String, JsonKind)>)
    ensures
        match r {
            Ok(p) => preview_of(v.model()) == Ok::<
                (int, Seq<char>, int, Option<JsonModel>),
                (Seq<char>, JsonKind),
            >(
                (
                    p.estimated_tokens as int,
                    p.estimated_cost@,
                    p.estimated_duration_seconds as int,
                    match p.schema_inferred {
                        Some(s) => Some(s.model()),
                        None => None,
                    },
                ),
            ),
            Err((f, k)) => preview_of(v.model()) == Err::<
                (int, Seq<char>, int, Option<JsonModel>),
                (Seq<char>, JsonKind),
            >((f@, k)),
        },
{
    let fields = match v {
        JsonValue::Object(fs) => fs,
        _ => {
            return Err(("$".to_owned(), JsonKind::Object));
        },
    };
    proof {
        assert(v.model()->Object_0 =~= fields_model(fields@));
    }
    let estimated_tokens = match lookup(fields, "estimated_tokens") {
        Some(JsonValue::Number(s)) => match crate::text::parse_u32_digits(s.as_str()) {
            Some(n) => n,
            None => {
                return Err(("estimated_tokens".to_owned(), JsonKind::Number));
            },
        },
        _ => {
            return Err(("estimated_tokens".to_owned(), JsonKind::Number));
        },
    };
    let estimated_cost = match lookup(fields, "estimated_cost") {
        Some(JsonValue::Number(s)) => s.clone(),
        _ => {
            return Err(("estimated_cost".to_owned(), JsonKind::Number));
        },
    };
    let estimated_duration_seconds = match lookup(fields, "estimated_duration_seconds") {
        Some(JsonValue::Number(s)) => match crate::text::parse_u32_digits(s.as_str()) {
            Some(n) => n,
            None => {
                return Err(("estimated_duration_seconds".to_owned(), JsonKind::Number));
            },
        },
        _ => {
            return Err(("estimated_duration_seconds".to_owned(), JsonKind::Number));
        },
    };
    let schema_inferred = match lookup(fields, "schema_inferred") {
        None => None,
        Some(JsonValue::Null) => None,
        Some(x) => Some(crate::json::json_clone(x)),
    };
    Ok(
        GenerationPreview {
            estimated_tokens,
            estimated_cost,
            estimated_duration_seconds,
            schema_inferred,
        },
    )
}

// ---------------------------------------------------------------------------
// Training data generation
// ---------------------------------------------------------------------------

/// A training example as the generation service returns it.
#[derive(Debug, Clone)]
pub struct TrainingExample {
    pub input: String,
    pub output: String,
    pub system: Option<String>,
}

/// The prompt `generate_training_data` sends: the count, the task, the
/// domain, and the style hints when given, followed by the fixed format
/// instructions.
pub fn training_data_prompt(
    task_description: &str,
    domain: &str,
    num_examples: u32,
    style_hints: Option<&str>,
) -> (r: String)
    ensures
        r@ == "Generate "@ + dec_digits(num_examples as nat)
            + " high-quality training examples for fine-tuning a language model.\n\nTask: "@
            + task_description@ + "\nDomain: "@ + domain@ + "\n"@ + (match style_hints {
            Some(s) => "Style: "@ + s@,
            None => Seq::<char>::empty(),
        })
            + "\n\nEach example should have:\n- \"input\": The user query or prompt\n- \"output\": The ideal assistant response\n- \"system\": Optional system prompt (include if relevant)\n\nGenerate diverse, realistic examples that cover edge cases and common scenarios.\nFormat as JSONL (one JSON object per line)."@,
{
    let style = match style_hints {
        Some(s) => "Style: ".to_owned().concat(s),
        None => String::new(),
    };
    "Generate ".to_owned().concat(crate::text::u64_to_string(num_examples as u64).as_str()).concat(
        " high-quality training examples for fine-tuning a language model.\n\nTask: ",
    ).concat(task_description).concat("\nDomain: ").concat(domain).concat("\n").concat(
        style.as_str(),
    ).concat(
        "\n\nEach example should have:\n- \"input\": The user query or prompt\n- \"output\": The ideal assistant response\n- \"system\": Optional system prompt (include if relevant)\n\nGenerate diverse, realistic examples that cover edge cases and common scenarios.\nFormat as JSONL (one JSON object per line).",
    )
}

/// The fixed three-field schema `generate_training_data` asks for.
pub fn training_data_schema() -> (r: DataSchema)
    ensures
        r.fields@.len() == 3,
        r.fields@[0].name@ == "input"@ && r.fields@[0].field_type@ == "string"@ && (
        r.fields@[0].description matches Some(d) && d@ == "User input or query"@),
        r.fields@[1].name@ == "output"@ && r.fields@[1].field_type@ == "string"@ && (
        r.fields@[1].description matches Some(d) && d@ == "Ideal assistant response"@),
        r.fields@[2].name@ == "system"@ && r.fields@[2].field_type@ == "string"@ && (
        r.fields@[2].description matches Some(d) && d@ == "Optional system prompt"@),
{
    let mut fields: Vec<FieldDefinition> = Vec::new();
    fields.push(
        FieldDefinition {
            name: "input".to_owned(),
            field_type: "string".to_owned(),
            description: Some("User input or query".to_owned()),
        },
    );
    fields.push(
        FieldDefinition {
            name: "output".to_owned(),
            field_type: "string".to_owned(),
            description: Some("Ideal assistant response".to_owned()),
        },
    );
    fields.push(
        FieldDefinition {
            name: "system".to_owned(),
            field_type: "string".to_owned(),
            description: Some("Optional system prompt".to_owned()),
        },
    );
    DataSchema { fields }
}

/// Parses generated JSONL data into the service's example type; any bad
/// line fails the whole parse.
pub fn parse_generated_examples(data: &str) -> (r: Result<Vec<TrainingExample>, String>)
    ensures
        match r {
            Ok(out) => jsonl_spec(data@) matches Some(es) && es.len() == out@.len()
                && forall|k: int|
                0 <= k < out@.len() ==> {
                    &&& (#[trigger] out@[k]).input@ == es[k].input
                    &&& out@[k].output@ == es[k].output
                    &&& (out@[k].system matches Some(s) ==> es[k].system == Some(s@))
                    &&& (out@[k].system is None ==> es[k].system is None)
                },
            Err(_) => jsonl_spec(data@) is None,
        },
{
    let parsed = match parse_jsonl(data) {
        Ok(es) => es,
        Err(e) => {
            return Err("Failed to parse training examples: ".to_owned().concat(e.as_str()));
        },
    };
    let n = parsed.len();
    let mut parsed = parsed;
    let mut out: Vec<TrainingExample> = Vec::new();
    let mut i: usize = 0;
    let ghost es = examples_view(parsed@);
    while i < n
        invariant
            i <= n,
            n == es.len(),
            parsed@.len() == n - i,
            forall|j: int| 0 <= j < parsed@.len() ==> (#[trigger] parsed@[j]).model() == es[i + j],
            out@.len() == i,
            forall|k: int| 0 <= k < i ==> {
                &&& (#[trigger] out@[k]).input@ == es[k].input
                &&& out@[k].output@ == es[k].output
                &&& (out@[k].system matches Some(s) ==> es[k].system == Some(s@))
                &&& (out@[k].system is None ==> es[k].system is None)
            },
        decreases n - i,
    {
        let e = parsed.remove(0);
        out.push(TrainingExample { input: e.input, output: e.output, system: e.system });
        i = i + 1;
    }
    Ok(out)
}

} // verus!
