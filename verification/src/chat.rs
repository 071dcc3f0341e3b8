//! The chat/reasoning vendor: agent prompts, request bodies, response
//! decoding, and the extract-then-decode pipelines that turn a free-text
//! reply into a typed value.

use vstd::prelude::*;

use crate::decode::{
    decode_config, decode_intent, decode_validation, config_of, intent_of, validation_of,
    ConfigModel, ConfigRecommendation, DecodeError, IntentModel, ParsedIntent, ValidationModel,
    ValidationResult,
};
use crate::extract::{extract_json, extract_spec};
use crate::facade::RequestError;
use crate::json::{
    fields_model, items_model, json_parse, lookup, lookup_model, JsonKind, JsonModel, JsonValue,
};
use crate::text::{dec_digits, parse_u32_digits, all_digits, digits_val};

verus! {

/// The messages endpoint of the chat service.
pub const CHAT_BASE_URL: &'static str = "https://api.anthropic.com";

/// The version stamp the chat service expects beside the key.
pub const CHAT_API_VERSION: &'static str = "2023-06-01";

/// One chat message: a role (`user` or `assistant`) and its text.
#[derive(Debug, Clone)]
pub struct Message {
    pub role: String,
    pub content: String,
}

/// A chat request before vendor encoding. The temperature is the decimal
/// text of the number to send, absent for the service default.
#[derive(Debug, Clone)]
pub struct ChatRequest {
    pub messages: Vec<Message>,
    pub system: Option<String>,
    pub max_tokens: Option<u32>,
    pub temperature: Option<String>,
}

/// Token accounting of one reply.
#[derive(Debug, Clone, Copy, PartialEq, Eq, Structural)]
pub struct Usage {
    pub input_tokens: u32,
    pub output_tokens: u32,
}

/// A decoded chat reply: the text blocks joined, the stop reason, and the
/// token usage.
#[derive(Debug, Clone)]
pub struct ChatResponse {
    pub content: String,
    pub stop_reason: Option<String>,
    pub usage: Option<Usage>,
}

/// The mathematical shape of a decoded chat reply.
pub struct ChatModel {
    pub content: Seq<char>,
    pub stop_reason: Option<Seq<char>>,
    pub usage: Option<(int, int)>,
}

impl ChatResponse {
    /// The shape of this value.
    pub open spec fn model(self) -> ChatModel {
        ChatModel {
            content: self.content@,
            stop_reason: match self.stop_reason {
                Some(s) => Some(s@),
                None => None,
            },
            usage: match self.usage {
                Some(u) => Some((u.input_tokens as int, u.output_tokens as int)),
                None => None,
            },
        }
    }
}

// ---------------------------------------------------------------------------
// Agents and their prompts
// ---------------------------------------------------------------------------

/// The reasoning tasks the chat service is used for.
#[derive(Debug, Clone, Copy, PartialEq, Eq, Structural)]
pub enum AgentType {
    Intent,
    Validation,
    Config,
    General,
}

/// The embedded system prompt of the intent-parsing agent.
pub const INTENT_AGENT_PROMPT: &'static str = r#"You are an intent parser for TinkerVoice, a voice-controlled ML fine-tuning application.

Parse natural language commands and extract structured intent information.

Always respond with valid JSON in this format:
{
  "intent": "generate_data" | "start_training" | "check_status" | "configure" | "research" | "help" | "unknown",
  "entities": {
    "domain": "optional domain/topic",
    "count": "optional number of samples",
    "model": "optional model name",
    "dataset": "optional dataset reference"
  },
  "confidence": 0.0-1.0,
  "clarification_needed": "optional question if intent is unclear"
}

Examples:
- "Generate 1000 samples for customer support" -> intent: generate_data, entities: {domain: "customer support", count: 1000}
- "Train a model on my data" -> intent: start_training
- "How's my training going?" -> intent: check_status"#;

/// The embedded system prompt of the data-validation agent.
pub const VALIDATION_AGENT_PROMPT: &'static str = r#"You are a data quality validator for ML training datasets.

Analyze the provided data samples and check for:
1. Format consistency (proper JSON/JSONL structure)
2. Field completeness (required fields present)
3. Content quality (no empty strings, reasonable lengths)
4. Potential issues (duplicates, encoding problems, PII)

Always respond with valid JSON in this format:
{
  "valid": true/false,
  "issues": [
    {"severity": "error" | "warning" | "info", "message": "description", "location": "optional location"}
  ],
  "stats": {
    "total_samples": number,
    "valid_samples": number,
    "fields_found": ["field1", "field2"]
  },
  "recommendations": ["suggestion 1", "suggestion 2"]
}"#;

/// The embedded system prompt of the configuration agent.
pub const CONFIG_AGENT_PROMPT: &'static str = r#"You are an ML training configuration expert for TinkerVoice.

Based on requirements and dataset characteristics, recommend optimal training configurations.

Consider:
- Dataset size and domain
- Base model selection
- LoRA parameters (rank, target modules)
- Training hyperparameters (learning rate, batch size, steps)
- Training type (SFT, DPO, RLHF)

Always respond with valid JSON in this format:
{
  "recommended_config": {
    "base_model": "model-id",
    "training_type": "sft" | "dpo" | "rl",
    "lora": {"rank": number, "train_mlp": bool, "train_attn": bool},
    "hyperparameters": {"learning_rate": number, "batch_size": number, "steps": number}
  },
  "reasoning": "explanation of choices",
  "alternatives": [{"config": {...}, "tradeoff": "description"}],
  "warnings": ["any concerns or limitations"]
}"#;

/// The embedded system prompt of the general assistant.
pub const GENERAL_AGENT_PROMPT: &'static str = r#"You are TinkerVoice, a helpful voice assistant for ML fine-tuning.

You help users:
- Generate synthetic training data
- Configure and start training runs
- Monitor training progress
- Research domains for data generation

Be concise and helpful. When users ask about capabilities, guide them through the workflow."#;

/// The system prompt an agent type carries.
pub open spec fn system_prompt_spec(a: AgentType) -> Seq<char> {
    match a {
        AgentType::Intent => INTENT_AGENT_PROMPT@,
        AgentType::Validation => VALIDATION_AGENT_PROMPT@,
        AgentType::Config => CONFIG_AGENT_PROMPT@,
        AgentType::General => GENERAL_AGENT_PROMPT@,
    }
}

impl AgentType {
    /// The embedded system prompt for this agent type.
    pub fn system_prompt(&self) -> (r: &'static str)
        ensures
            r@ == system_prompt_spec(*self),
    {
        match self {
            AgentType::Intent => INTENT_AGENT_PROMPT,
            AgentType::Validation => VALIDATION_AGENT_PROMPT,
            AgentType::Config => CONFIG_AGENT_PROMPT,
            AgentType::General => GENERAL_AGENT_PROMPT,
        }
    }
}

/// The single-message request `chat_with_agent` sends: the user's text,
/// the agent's system prompt, a 4096-token cap, and a low temperature for
/// consistent structured output.
pub fn agent_chat_request(agent: AgentType, user_message: &str) -> (r: ChatRequest)
    ensures
        r.messages@.len() == 1,
        r.messages@[0].role@ == "user"@,
        r.messages@[0].content@ == user_message@,
        r.system matches Some(s) && s@ == system_prompt_spec(agent),
        r.max_tokens == Some(4096u32),
        r.temperature matches Some(t) && t@ == "0.3"@,
{
    let mut messages: Vec<Message> = Vec::new();
    messages.push(Message { role: "user".to_owned(), content: user_message.to_owned() });
    ChatRequest {
        messages,
        system: Some(agent.system_prompt().to_owned()),
        max_tokens: Some(4096),
        temperature: Some("0.3".to_owned()),
    }
}

// ---------------------------------------------------------------------------
// Request body
// ---------------------------------------------------------------------------

/// The wire shape of one message.
pub open spec fn message_model(m: Message) -> JsonModel {
    JsonModel::Object(
        seq![
            ("role"@, JsonModel::Text(m.role@)),
            ("content"@, JsonModel::Text(m.content@)),
        ],
    )
}

/// The wire shapes of a message list.
pub open spec fn messages_models(ms: Seq<Message>) -> Seq<JsonModel> {
    Seq::new(ms.len(), |i: int| if 0 <= i < ms.len() { message_model(ms[i]) } else { JsonModel::Null })
}

/// The wire shape of a whole chat request: the model, the token cap
/// (defaulting to 4096), the optional system prompt, the messages, and the
/// optional temperature, in the order the service documents.
pub open spec fn chat_body_spec(model: Seq<char>, req: ChatRequest) -> JsonModel {
    JsonModel::Object(
        seq![
            ("model"@, JsonModel::Text(model)),
            (
                "max_tokens"@,
                JsonModel::Number(
                    dec_digits(
                        match req.max_tokens {
                            Some(t) => t as nat,
                            None => 4096,
                        },
                    ),
                ),
            ),
        ] + (match req.system {
            Some(s) => seq![("system"@, JsonModel::Text(s@))],
            None => Seq::empty(),
        }) + seq![("messages"@, JsonModel::Array(messages_models(req.messages@)))] + (
        match req.temperature {
            Some(t) => seq![("temperature"@, JsonModel::Number(t@))],
            None => Seq::empty(),
        }),
    )
}

/// Encodes one message.
fn message_to_json(m: Message) -> (r: JsonValue)
    ensures
        r.model() == message_model(m),
{
    let ghost gm = m;
    let mut fields: Vec<(String, JsonValue)> = Vec::new();
    fields.push(("role".to_owned(), JsonValue::Text(m.role)));
    fields.push(("content".to_owned(), JsonValue::Text(m.content)));
    let r = JsonValue::Object(fields);
    proof {
        assert(r.model()->Object_0.len() == 2);
        assert(r.model()->Object_0[0] == (fields@[0].0@, fields@[0].1.model()));
        assert(r.model()->Object_0[1] == (fields@[1].0@, fields@[1].1.model()));
        assert(fields@[0].1.model() == JsonModel::Text(gm.role@));
        assert(fields@[1].1.model() == JsonModel::Text(gm.content@));
        assert(r.model()->Object_0 =~= message_model(gm)->Object_0);
    }
    r
}

/// Encodes a message list.
fn messages_to_json(ms: Vec<Message>) -> (r: Vec<JsonValue>)
    ensures
        items_model(r@) == messages_models(ms@),
{
    let ghost gm = ms@;
    let n = ms.len();
    let mut ms = ms;
    let mut out: Vec<JsonValue> = Vec::new();
    let mut i: usize = 0;
    while i < n
        invariant
            i <= n,
            n == gm.len(),
            ms@.len() == n - i,
            forall|j: int| 0 <= j < ms@.len() ==> #[trigger] ms@[j] == gm[i + j],
            out@.len() == i,
            forall|j: int| 0 <= j < i ==> (#[trigger] out@[j]).model() == message_model(gm[j]),
        decreases n - i,
    {
        let m = ms.remove(0);
        out.push(message_to_json(m));
        i = i + 1;
    }
    proof {
        assert(items_model(out@) =~= messages_models(gm));
    }
    out
}

/// Builds the request body sent to the messages endpoint.
pub fn chat_request_body(model: &str, req: ChatRequest) -> (r: JsonValue)
    ensures
        r.model() == chat_body_spec(model@, req),
{
    let ghost greq = req;
    let mut fields: Vec<(String, JsonValue)> = Vec::new();
    fields.push(("model".to_owned(), JsonValue::Text(model.to_owned())));
    let cap: u32 = match req.max_tokens {
        Some(t) => t,
        None => 4096,
    };
    fields.push(("max_tokens".to_owned(), JsonValue::Number(crate::text::u64_to_string(
        cap as u64,
    ))));
    match req.system {
        Some(s) => {
            fields.push(("system".to_owned(), JsonValue::Text(s)));
        },
        None => {},
    }
    let msgs = messages_to_json(req.messages);
    fields.push(("messages".to_owned(), JsonValue::Array(msgs)));
    match req.temperature {
        Some(t) => {
            fields.push(("temperature".to_owned(), JsonValue::Number(t)));
        },
        None => {},
    }
    let r = JsonValue::Object(fields);
    proof {
        let sfs = chat_body_spec(model@, greq)->Object_0;
        let fm = r.model()->Object_0;
        assert forall|j: int| 0 <= j < fm.len() implies fm[j] == (
            fields@[j].0@,
            fields@[j].1.model(),
        ) by {}
        assert(fm[0].1 =~~= sfs[0].1);
        assert(fm[1].1 =~~= sfs[1].1);
        if greq.system is Some {
            assert(fm[2].1 =~~= sfs[2].1);
            assert(fields@[3].1.model()->Array_0 =~= items_model(msgs@));
            assert(fm[3].1 =~~= sfs[3].1);
            if greq.temperature is Some {
                assert(fm[4].1 =~~= sfs[4].1);
            }
        } else {
            assert(fields@[2].1.model()->Array_0 =~= items_model(msgs@));
            assert(fm[2].1 =~~= sfs[2].1);
            if greq.temperature is Some {
                assert(fm[3].1 =~~= sfs[3].1);
            }
        }
        assert(fm =~~= sfs);
    }
    r
}

// ---------------------------------------------------------------------------
// Response decoding
// ---------------------------------------------------------------------------

/// An optional text field: absent or null mean none, text means some,
/// anything else does not decode.
pub open spec fn opt_text_of(o: Option<JsonModel>) -> Option<Option<Seq<char>>> {
    match o {
        None => Some(None),
        Some(JsonModel::Null) => Some(None),
        Some(JsonModel::Text(t)) => Some(Some(t)),
        Some(_) => None,
    }
}

/// What one content block contributes: its `type` must be text, and its
/// optional `text` field is its contribution.
pub open spec fn block_text_of(m: JsonModel) -> Result<Option<Seq<char>>, (Seq<char>, JsonKind)> {
    match m {
        JsonModel::Object(fs) => match lookup_model(fs, "type"@) {
            Some(JsonModel::Text(_)) => match opt_text_of(lookup_model(fs, "text"@)) {
                Some(t) => Ok(t),
                None => Err(("text"@, JsonKind::Text)),
            },
            _ => Err(("type"@, JsonKind::Text)),
        },
        _ => Err(("$"@, JsonKind::Object)),
    }
}

/// The concatenation of the text of all blocks, or the first mismatch.
pub open spec fn blocks_joined(s: Seq<JsonModel>) -> Result<Seq<char>, (Seq<char>, JsonKind)>
    decreases s.len(),
{
    if s.len() == 0 {
        Ok(Seq::empty())
    } else {
        match blocks_joined(s.drop_last()) {
            Ok(rest) => match block_text_of(s.last()) {
                Ok(Some(t)) => Ok(rest + t),
                Ok(None) => Ok(rest),
                Err(e) => Err(e),
            },
            Err(e) => Err(e),
        }
    }
}

/// A mismatch in a prefix settles the whole join.
proof fn lemma_blocks_err(s: Seq<JsonModel>, k: int)
    requires
        0 <= k <= s.len(),
        blocks_joined(s.subrange(0, k)) is Err,
    ensures
        blocks_joined(s) == blocks_joined(s.subrange(0, k)),
    decreases s.len() - k,
{
    if k == s.len() {
        assert(s.subrange(0, k) =~= s);
    } else {
        assert(s.subrange(0, k + 1).drop_last() =~= s.subrange(0, k));
        lemma_blocks_err(s, k + 1);
    }
}

/// The token counts of the `usage` object: both fields must be numbers
/// whose text is an unsigned decimal that fits a machine word.
pub open spec fn usage_of(m: JsonModel) -> Result<(int, int), (Seq<char>, JsonKind)> {
    match m {
        JsonModel::Object(fs) => match lookup_model(fs, "input_tokens"@) {
            Some(JsonModel::Number(ti)) => if all_digits(ti) && ti.len() > 0 && digits_val(ti)
                <= u32::MAX {
                match lookup_model(fs, "output_tokens"@) {
                    Some(JsonModel::Number(to)) => if all_digits(to) && to.len() > 0
                        && digits_val(to) <= u32::MAX {
                        Ok((digits_val(ti), digits_val(to)))
                    } else {
                        Err(("output_tokens"@, JsonKind::Number))
                    },
                    _ => Err(("output_tokens"@, JsonKind::Number)),
                }
            } else {
                Err(("input_tokens"@, JsonKind::Number))
            },
            _ => Err(("input_tokens"@, JsonKind::Number)),
        },
        _ => Err(("usage"@, JsonKind::Object)),
    }
}

/// What decoding a whole messages reply yields: the joined text of the
/// content blocks, the optional stop reason, and the token usage.
pub open spec fn chat_response_of(m: JsonModel) -> Result<ChatModel, (Seq<char>, JsonKind)> {
    match m {
        JsonModel::Object(fs) => match lookup_model(fs, "content"@) {
            Some(JsonModel::Array(blocks)) => match blocks_joined(blocks) {
                Ok(text) => match opt_text_of(lookup_model(fs, "stop_reason"@)) {
                    Some(stop) => match lookup_model(fs, "usage"@) {
                        Some(u) => match usage_of(u) {
                            Ok(us) => Ok(
                                ChatModel { content: text, stop_reason: stop, usage: Some(us) },
                            ),
                            Err(e) => Err(e),
                        },
                        None => Err(("usage"@, JsonKind::Object)),
                    },
                    None => Err(("stop_reason"@, JsonKind::Text)),
                },
                Err(e) => Err(e),
            },
            _ => Err(("content"@, JsonKind::Array)),
        },
        _ => Err(("$"@, JsonKind::Object)),
    }
}

/// Joins the text of the content blocks.
fn decode_blocks(a: &Vec<JsonValue>) -> (r: Result<String, DecodeError>)
    ensures
        match r {
            Ok(text) => blocks_joined(items_model(a@)) == Ok::<Seq<char>, (Seq<char>, JsonKind)>(
                text@,
            ),
            Err(e) => e matches DecodeError::SchemaMismatch(f, k) && blocks_joined(
                items_model(a@),
            ) == Err::<Seq<char>, (Seq<char>, JsonKind)>((f@, k)),
        },
{
    let n = a.len();
    let mut acc = String::new();
    let mut i: usize = 0;
    while i < n
        invariant
            i <= n,
            n == a@.len(),
            blocks_joined(items_model(a@).subrange(0, i as int)) == Ok::<
                Seq<char>,
                (Seq<char>, JsonKind),
            >(acc@),
        decreases n - i,
    {
        proof {
            assert(items_model(a@).subrange(0, i + 1).drop_last() =~= items_model(a@).subrange(
                0,
                i as int,
            ));
            assert(items_model(a@).subrange(0, i + 1).last() == a@[i as int].model());
        }
        let block_fields = match &a[i] {
            JsonValue::Object(fs) => fs,
            _ => {
                proof {
                    lemma_blocks_err(items_model(a@), i + 1);
                }
                return Err(DecodeError::SchemaMismatch("$".to_owned(), JsonKind::Object));
            },
        };
        proof {
            assert(a@[i as int].model()->Object_0 =~= fields_model(block_fields@));
        }
        match lookup(block_fields, "type") {
            Some(JsonValue::Text(_)) => {},
            _ => {
                proof {
                    lemma_blocks_err(items_model(a@), i + 1);
                }
                return Err(DecodeError::SchemaMismatch("type".to_owned(), JsonKind::Text));
            },
        }
        match lookup(block_fields, "text") {
            None => {},
            Some(JsonValue::Null) => {},
            Some(JsonValue::Text(t)) => {
                acc.append(t.as_str());
            },
            Some(_) => {
                proof {
                    lemma_blocks_err(items_model(a@), i + 1);
                }
                return Err(DecodeError::SchemaMismatch("text".to_owned(), JsonKind::Text));
            },
        }
        i = i + 1;
    }
    proof {
        assert(items_model(a@).subrange(0, n as int) =~= items_model(a@));
    }
    Ok(acc)
}

/// Decodes a messages reply from a parsed document.
pub fn decode_chat_value(v: &JsonValue) -> (r: Result<ChatResponse, DecodeError>)
    ensures
        match r {
            Ok(t) => chat_response_of(v.model()) == Ok::<ChatModel, (Seq<char>, JsonKind)>(
                t.model(),
            ),
            Err(e) => e matches DecodeError::SchemaMismatch(f, k) && chat_response_of(v.model())
                == Err::<ChatModel, (Seq<char>, JsonKind)>((f@, k)),
        },
{
    let fields = match v {
        JsonValue::Object(fs) => fs,
        _ => {
            return Err(DecodeError::SchemaMismatch("$".to_owned(), JsonKind::Object));
        },
    };
    proof {
        assert(v.model()->Object_0 =~= fields_model(fields@));
    }
    let content = match lookup(fields, "content") {
        Some(JsonValue::Array(blocks)) => {
            proof {
                let bv = lookup_model(fields_model(fields@), "content"@)->Some_0;
                assert(bv->Array_0 =~= items_model(blocks@));
            }
            match decode_blocks(blocks) {
                Ok(text) => text,
                Err(e) => {
                    return Err(e);
                },
            }
        },
        _ => {
            return Err(DecodeError::SchemaMismatch("content".to_owned(), JsonKind::Array));
        },
    };
    let stop_reason = match lookup(fields, "stop_reason") {
        None => None,
        Some(JsonValue::Null) => None,
        Some(JsonValue::Text(s)) => Some(s.clone()),
        Some(_) => {
            return Err(DecodeError::SchemaMismatch("stop_reason".to_owned(), JsonKind::Text));
        },
    };
    let usage_fields = match lookup(fields, "usage") {
        Some(JsonValue::Object(ufs)) => ufs,
        Some(_) => {
            return Err(DecodeError::SchemaMismatch("usage".to_owned(), JsonKind::Object));
        },
        None => {
            return Err(DecodeError::SchemaMismatch("usage".to_owned(), JsonKind::Object));
        },
    };
    proof {
        let uv = lookup_model(fields_model(fields@), "usage"@)->Some_0;
        assert(uv->Object_0 =~= fields_model(usage_fields@));
    }
    let input_tokens = match lookup(usage_fields, "input_tokens") {
        Some(JsonValue::Number(s)) => match parse_u32_digits(s.as_str()) {
            Some(x) => x,
            None => {
                return Err(
                    DecodeError::SchemaMismatch("input_tokens".to_owned(), JsonKind::Number),
                );
            },
        },
        _ => {
            return Err(DecodeError::SchemaMismatch("input_tokens".to_owned(), JsonKind::Number));
        },
    };
    let output_tokens = match lookup(usage_fields, "output_tokens") {
        Some(JsonValue::Number(s)) => match parse_u32_digits(s.as_str()) {
            Some(x) => x,
            None => {
                return Err(
                    DecodeError::SchemaMismatch("output_tokens".to_owned(), JsonKind::Number),
                );
            },
        },
        _ => {
            return Err(
                DecodeError::SchemaMismatch("output_tokens".to_owned(), JsonKind::Number),
            );
        },
    };
    Ok(ChatResponse { content, stop_reason, usage: Some(Usage { input_tokens, output_tokens }) })
}

// ---------------------------------------------------------------------------
// The facade instantiated for the chat vendor
// ---------------------------------------------------------------------------

/// Triage of one chat HTTP response followed by the decode of its body:
/// 429 is `RateLimited` whatever the body holds, 401 and 403 are
/// `Unauthorized`, 404 is `NotFound` of the messages endpoint, any other
/// non-success is a `RemoteError` with the body, and a success decodes or
/// fails as `InvalidResponse`.
pub fn chat_from_response(status: u16, body: String) -> (r: Result<ChatResponse, RequestError>)
    ensures
        status == 429 <==> r == Err::<ChatResponse, RequestError>(RequestError::RateLimited),
        (status == 401 || status == 403) <==> r == Err::<ChatResponse, RequestError>(
            RequestError::Unauthorized,
        ),
        status == 404 ==> (r matches Err(e) && e matches RequestError::NotFound(id) && id@
            == "/v1/messages"@),
        !(200 <= status <= 299) && !(status == 401 || status == 403) && status != 404 && status
            != 429 ==> r == Err::<ChatResponse, RequestError>(
            RequestError::RemoteError(status, body),
        ),
        200 <= status <= 299 ==> {
            &&& json_parse(body@) is None ==> (r matches Err(e) && e is InvalidResponse)
            &&& json_parse(body@) matches Some(m) ==> match chat_response_of(m) {
                Ok(cm) => r matches Ok(c) && c.model() == cm,
                Err(_) => (r matches Err(e) && e is InvalidResponse),
            }
        },
{
    let body = match crate::facade::triage_status(status, body, "/v1/messages") {
        Ok(b) => b,
        Err(e) => {
            return Err(e);
        },
    };
    let v = match crate::json::parse_json_text(body.as_str()) {
        Ok(v) => v,
        Err(msg) => {
            return Err(RequestError::InvalidResponse(msg));
        },
    };
    match decode_chat_value(&v) {
        Ok(c) => Ok(c),
        Err(e) => Err(RequestError::InvalidResponse(decode_error_message(&e))),
    }
}

/// A short description of a decode failure.
pub fn decode_error_message(e: &DecodeError) -> (r: String)
    ensures
        e matches DecodeError::Malformed(_, msg) ==> r@ == "JSON parsing error: "@ + msg@,
        e matches DecodeError::SchemaMismatch(f, _) ==> r@ == "schema mismatch at field "@ + f@,
{
    match e {
        DecodeError::Malformed(_, msg) => "JSON parsing error: ".to_owned().concat(msg.as_str()),
        DecodeError::SchemaMismatch(f, _) => "schema mismatch at field ".to_owned().concat(
            f.as_str(),
        ),
    }
}

// ---------------------------------------------------------------------------
// Reply pipelines: extract, then decode
// ---------------------------------------------------------------------------

/// Why a free-text agent reply yielded no typed value: no JSON payload
/// could be extracted, or the payload did not decode.
#[derive(Debug, PartialEq, Eq)]
pub enum AgentReplyError {
    NoJsonFound,
    Decode(DecodeError),
}

/// Recovers the typed intent from a free-text agent reply.
pub fn intent_from_reply(content: &str) -> (r: Result<ParsedIntent, AgentReplyError>)
    ensures
        extract_spec(content@) is Err ==> r == Err::<ParsedIntent, AgentReplyError>(
            AgentReplyError::NoJsonFound,
        ),
        extract_spec(content@) matches Ok(payload) ==> {
            &&& json_parse(payload) is None ==> (r matches Err(e) && e matches
                AgentReplyError::Decode(d) && d matches DecodeError::Malformed(t, _) && t@
                == payload)
            &&& json_parse(payload) matches Some(m) ==> match intent_of(m) {
                Ok(im) => r matches Ok(t) && t.model() == im,
                Err((f, k)) => r matches Err(e) && e matches AgentReplyError::Decode(d)
                    && d matches DecodeError::SchemaMismatch(f2, k2) && f2@ == f && k2 == k,
            }
        },
{
    match extract_json(content) {
        Ok(payload) => match decode_intent(payload.as_str()) {
            Ok(t) => Ok(t),
            Err(e) => Err(AgentReplyError::Decode(e)),
        },
        Err(_) => Err(AgentReplyError::NoJsonFound),
    }
}

/// Recovers the typed validation report from a free-text agent reply.
pub fn validation_from_reply(content: &str) -> (r: Result<ValidationResult, AgentReplyError>)
    ensures
        extract_spec(content@) is Err ==> r == Err::<ValidationResult, AgentReplyError>(
            AgentReplyError::NoJsonFound,
        ),
        extract_spec(content@) matches Ok(payload) ==> {
            &&& json_parse(payload) is None ==> (r matches Err(e) && e matches
                AgentReplyError::Decode(d) && d matches DecodeError::Malformed(t, _) && t@
                == payload)
            &&& json_parse(payload) matches Some(m) ==> match validation_of(m) {
                Ok(vm) => r matches Ok(t) && t.model() == vm,
                Err((f, k)) => r matches Err(e) && e matches AgentReplyError::Decode(d)
                    && d matches DecodeError::SchemaMismatch(f2, k2) && f2@ == f && k2 == k,
            }
        },
{
    match extract_json(content) {
        Ok(payload) => match decode_validation(payload.as_str()) {
            Ok(t) => Ok(t),
            Err(e) => Err(AgentReplyError::Decode(e)),
        },
        Err(_) => Err(AgentReplyError::NoJsonFound),
    }
}

/// Recovers the typed configuration recommendation from a free-text agent
/// reply.
pub fn config_from_reply(content: &str) -> (r: Result<ConfigRecommendation, AgentReplyError>)
    ensures
        extract_spec(content@) is Err ==> r == Err::<ConfigRecommendation, AgentReplyError>(
            AgentReplyError::NoJsonFound,
        ),
        extract_spec(content@) matches Ok(payload) ==> {
            &&& json_parse(payload) is None ==> (r matches Err(e) && e matches
                AgentReplyError::Decode(d) && d matches DecodeError::Malformed(t, _) && t@
                == payload)
            &&& json_parse(payload) matches Some(m) ==> match config_of(m) {
                Ok(cm) => r matches Ok(t) && t.model() == cm,
                Err((f, k)) => r matches Err(e) && e matches AgentReplyError::Decode(d)
                    && d matches DecodeError::SchemaMismatch(f2, k2) && f2@ == f && k2 == k,
            }
        },
{
    match extract_json(content) {
        Ok(payload) => match decode_config(payload.as_str()) {
            Ok(t) => Ok(t),
            Err(e) => Err(AgentReplyError::Decode(e)),
        },
        Err(_) => Err(AgentReplyError::NoJsonFound),
    }
}

// ---------------------------------------------------------------------------
// Prompt construction
// ---------------------------------------------------------------------------

/// The prompt the validation agent is asked with: the samples inside a
/// fenced block.
pub fn validation_prompt(data_samples: &str) -> (r: String)
    ensures
        r@ == "Please validate the following data samples:\n\n```\n"@ + data_samples@ + "\n```"@,
{
    "Please validate the following data samples:\n\n```\n".to_owned().concat(data_samples).concat(
        "\n```",
    )
}

/// The prompt the configuration agent is asked with: the requirements, and
/// the dataset information when there is any.
pub fn config_prompt(requirements: &str, dataset_info: Option<&str>) -> (r: String)
    ensures
        dataset_info matches Some(info) ==> r@ == "Requirements: "@ + requirements@
            + "\n\nDataset information:\n"@ + info@,
        dataset_info is None ==> r@ == "Requirements: "@ + requirements@,
{
    match dataset_info {
        Some(info) => "Requirements: ".to_owned().concat(requirements).concat(
            "\n\nDataset information:\n",
        ).concat(info),
        None => "Requirements: ".to_owned().concat(requirements),
    }
}

/// The tiny request `test_connection` sends to probe the credential.
pub fn connection_probe_request() -> (r: ChatRequest)
    ensures
        r.messages@.len() == 1,
        r.messages@[0].role@ == "user"@,
        r.messages@[0].content@ == "Hi"@,
        r.system is None,
        r.max_tokens == Some(10u32),
        r.temperature is None,
{
    let mut messages: Vec<Message> = Vec::new();
    messages.push(Message { role: "user".to_owned(), content: "Hi".to_owned() });
    ChatRequest { messages, system: None, max_tokens: Some(10), temperature: None }
}

} // verus!
