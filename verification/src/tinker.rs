//! The fine-tuning vendor: training configurations, their wire bodies,
//! decoding of training runs, and the command-layer mapping onto them.

use vstd::prelude::*;

use crate::json::{fields_model, lookup, lookup_model, JsonKind, JsonModel, JsonValue};
use crate::text::{
    all_digits, dec_digits, digits_val, lower_of, lowercase, parse_u32_digits, parse_u64_digits,
    str_eq, u64_to_string,
};

verus! {

/// The training endpoint.
pub const TRAINING_BASE_URL: &'static str = "https://api.thinkingmachines.ai";

/// The kinds of training the service offers.
#[derive(Debug, Clone, Copy, PartialEq, Eq, Structural)]
pub enum TrainingType {
    Sft,
    Rl,
    Grpo,
    Ppo,
    Dpo,
    Gkd,
}

/// The wire name of a training type.
pub open spec fn training_type_name_spec(t: TrainingType) -> Seq<char> {
    match t {
        TrainingType::Sft => "sft"@,
        TrainingType::Rl => "rl"@,
        TrainingType::Grpo => "grpo"@,
        TrainingType::Ppo => "ppo"@,
        TrainingType::Dpo => "dpo"@,
        TrainingType::Gkd => "gkd"@,
    }
}

/// The training type a lowered wire name denotes.
pub open spec fn training_type_of(s: Seq<char>) -> Option<TrainingType> {
    if s == "sft"@ {
        Some(TrainingType::Sft)
    } else if s == "rl"@ {
        Some(TrainingType::Rl)
    } else if s == "grpo"@ {
        Some(TrainingType::Grpo)
    } else if s == "ppo"@ {
        Some(TrainingType::Ppo)
    } else if s == "dpo"@ {
        Some(TrainingType::Dpo)
    } else if s == "gkd"@ {
        Some(TrainingType::Gkd)
    } else {
        None
    }
}

impl TrainingType {
    /// The wire name of this training type.
    pub fn wire_name(&self) -> (r: &'static str)
        ensures
            r@ == training_type_name_spec(*self),
    {
        match self {
            TrainingType::Sft => "sft",
            TrainingType::Rl => "rl",
            TrainingType::Grpo => "grpo",
            TrainingType::Ppo => "ppo",
            TrainingType::Dpo => "dpo",
            TrainingType::Gkd => "gkd",
        }
    }
}

/// Parses a training type, matching its lowered text.
pub fn parse_training_type(s: &str) -> (r: Option<TrainingType>)
    ensures
        r == training_type_of(lower_of(s@)),
{
    let low = lowercase(s);
    if str_eq(low.as_str(), "sft") {
        Some(TrainingType::Sft)
    } else if str_eq(low.as_str(), "rl") {
        Some(TrainingType::Rl)
    } else if str_eq(low.as_str(), "grpo") {
        Some(TrainingType::Grpo)
    } else if str_eq(low.as_str(), "ppo") {
        Some(TrainingType::Ppo)
    } else if str_eq(low.as_str(), "dpo") {
        Some(TrainingType::Dpo)
    } else if str_eq(low.as_str(), "gkd") {
        Some(TrainingType::Gkd)
    } else {
        None
    }
}

/// The states a training run passes through.
#[derive(Debug, Clone, Copy, PartialEq, Eq, Structural)]
pub enum TrainingStatus {
    Pending,
    Running,
    Completed,
    Failed,
    Cancelled,
}

/// The wire name of a training status.
pub open spec fn training_status_name_spec(t: TrainingStatus) -> Seq<char> {
    match t {
        TrainingStatus::Pending => "pending"@,
        TrainingStatus::Running => "running"@,
        TrainingStatus::Completed => "completed"@,
        TrainingStatus::Failed => "failed"@,
        TrainingStatus::Cancelled => "cancelled"@,
    }
}

/// The training status a wire name denotes.
pub open spec fn training_status_of(s: Seq<char>) -> Option<TrainingStatus> {
    if s == "pending"@ {
        Some(TrainingStatus::Pending)
    } else if s == "running"@ {
        Some(TrainingStatus::Running)
    } else if s == "completed"@ {
        Some(TrainingStatus::Completed)
    } else if s == "failed"@ {
        Some(TrainingStatus::Failed)
    } else if s == "cancelled"@ {
        Some(TrainingStatus::Cancelled)
    } else {
        None
    }
}

impl TrainingStatus {
    /// The wire name of this status.
    pub fn wire_name(&self) -> (r: &'static str)
        ensures
            r@ == training_status_name_spec(*self),
    {
        match self {
            TrainingStatus::Pending => "pending",
            TrainingStatus::Running => "running",
            TrainingStatus::Completed => "completed",
            TrainingStatus::Failed => "failed",
            TrainingStatus::Cancelled => "cancelled",
        }
    }
}

/// Hyperparameters of a run. The fractional quantities are kept as the
/// decimal text of the numbers to send.
#[derive(Debug, Clone)]
pub struct Hyperparameters {
    pub learning_rate: String,
    pub batch_size: u32,
    pub num_epochs: u32,
    pub max_steps: Option<u32>,
    pub warmup_steps: Option<u32>,
    pub weight_decay: Option<String>,
    pub gradient_accumulation_steps: Option<u32>,
}

/// Low-rank adaptation settings. Alpha and dropout are decimal text.
#[derive(Debug, Clone)]
pub struct LoraConfig {
    pub rank: u32,
    pub alpha: String,
    pub dropout: String,
    pub target_modules: Vec<String>,
}

/// Everything a new training run needs.
#[derive(Debug, Clone)]
pub struct TrainingConfig {
    pub model: String,
    pub training_type: TrainingType,
    pub dataset_path: String,
    pub hyperparameters: Hyperparameters,
    pub lora_config: Option<LoraConfig>,
    pub name: Option<String>,
    pub description: Option<String>,
}

/// A number field that is null when absent.
pub open spec fn opt_u32_model(v: Option<u32>) -> JsonModel {
    match v {
        Some(x) => JsonModel::Number(dec_digits(x as nat)),
        None => JsonModel::Null,
    }
}

/// A decimal-text field that is null when absent.
pub open spec fn opt_number_model(v: Option<String>) -> JsonModel {
    match v {
        Some(x) => JsonModel::Number(x@),
        None => JsonModel::Null,
    }
}

/// The wire shape of the hyperparameters object; absent options are sent
/// as null.
pub open spec fn hyper_model(h: Hyperparameters) -> JsonModel {
    JsonModel::Object(
        seq![
            ("learning_rate"@, JsonModel::Number(h.learning_rate@)),
            ("batch_size"@, JsonModel::Number(dec_digits(h.batch_size as nat))),
            ("num_epochs"@, JsonModel::Number(dec_digits(h.num_epochs as nat))),
            ("max_steps"@, opt_u32_model(h.max_steps)),
            ("warmup_steps"@, opt_u32_model(h.warmup_steps)),
            ("weight_decay"@, opt_number_model(h.weight_decay)),
            ("gradient_accumulation_steps"@, opt_u32_model(h.gradient_accumulation_steps)),
        ],
    )
}

/// The wire shape of the adaptation settings.
pub open spec fn lora_model(l: LoraConfig) -> JsonModel {
    JsonModel::Object(
        seq![
            ("rank"@, JsonModel::Number(dec_digits(l.rank as nat))),
            ("alpha"@, JsonModel::Number(l.alpha@)),
            ("dropout"@, JsonModel::Number(l.dropout@)),
            (
                "target_modules"@,
                JsonModel::Array(
                    Seq::new(
                        l.target_modules@.len(),
                        |i: int| if 0 <= i < l.target_modules@.len() { JsonModel::Text(l.target_modules@[i]@) } else { JsonModel::Null },
                    ),
                ),
            ),
        ],
    )
}

/// The wire shape of a run-creation request: the optional name (null when
/// absent), the model, the training type, the dataset path, the
/// hyperparameters, and the adaptation settings only when given.
pub open spec fn create_run_body_spec(cfg: TrainingConfig) -> JsonModel {
    JsonModel::Object(
        seq![
            (
                "name"@,
                match cfg.name {
                    Some(n) => JsonModel::Text(n@),
                    None => JsonModel::Null,
                },
            ),
            ("model"@, JsonModel::Text(cfg.model@)),
            ("training_type"@, JsonModel::Text(training_type_name_spec(cfg.training_type))),
            ("dataset_path"@, JsonModel::Text(cfg.dataset_path@)),
            ("hyperparameters"@, hyper_model(cfg.hyperparameters)),
        ] + (match cfg.lora_config {
            Some(l) => seq![("lora_config"@, lora_model(l))],
            None => Seq::empty(),
        }),
    )
}

/// Encodes an optional count as a number or null.
fn opt_u32_to_json(v: Option<u32>) -> (r: JsonValue)
    ensures
        r.model() == opt_u32_model(v),
{
    match v {
        Some(x) => JsonValue::Number(u64_to_string(x as u64)),
        None => JsonValue::Null,
    }
}

/// Encodes an optional decimal text as a number or null.
fn opt_number_to_json(v: Option<String>) -> (r: JsonValue)
    ensures
        r.model() == opt_number_model(v),
{
    match v {
        Some(x) => JsonValue::Number(x),
        None => JsonValue::Null,
    }
}

/// Encodes the hyperparameters object.
fn hyper_to_json(h: Hyperparameters) -> (r: JsonValue)
    ensures
        r.model() == hyper_model(h),
{
    let ghost gh = h;
    let mut fields: Vec<(String, JsonValue)> = Vec::new();
    fields.push(("learning_rate".to_owned(), JsonValue::Number(h.learning_rate)));
    fields.push(("batch_size".to_owned(), JsonValue::Number(u64_to_string(h.batch_size as u64))));
    fields.push(("num_epochs".to_owned(), JsonValue::Number(u64_to_string(h.num_epochs as u64))));
    fields.push(("max_steps".to_owned(), opt_u32_to_json(h.max_steps)));
    fields.push(("warmup_steps".to_owned(), opt_u32_to_json(h.warmup_steps)));
    fields.push(("weight_decay".to_owned(), opt_number_to_json(h.weight_decay)));
    fields.push((
        "gradient_accumulation_steps".to_owned(),
        opt_u32_to_json(h.gradient_accumulation_steps),
    ));
    let r = JsonValue::Object(fields);
    proof {
        let fm = r.model()->Object_0;
        assert forall|j: int| 0 <= j < fm.len() implies fm[j] == (
            fields@[j].0@,
            fields@[j].1.model(),
        ) by {}
        assert(fm =~~= hyper_model(gh)->Object_0);
    }
    r
}

/// Encodes the adaptation settings.
fn lora_to_json(l: LoraConfig) -> (r: JsonValue)
    ensures
        r.model() == lora_model(l),
{
    let ghost gl = l;
    let mut fields: Vec<(String, JsonValue)> = Vec::new();
    fields.push(("rank".to_owned(), JsonValue::Number(u64_to_string(l.rank as u64))));
    fields.push(("alpha".to_owned(), JsonValue::Number(l.alpha)));
    fields.push(("dropout".to_owned(), JsonValue::Number(l.dropout)));
    let n = l.target_modules.len();
    let mut tm = l.target_modules;
    let mut arr: Vec<JsonValue> = Vec::new();
    let mut i: usize = 0;
    while i < n
        invariant
            i <= n,
            n == gl.target_modules@.len(),
            tm@.len() == n - i,
            forall|j: int| 0 <= j < tm@.len() ==> #[trigger] tm@[j] == gl.target_modules@[i + j],
            arr@.len() == i,
            forall|j: int| 0 <= j < i ==> (#[trigger] arr@[j]).model() == JsonModel::Text(
                gl.target_modules@[j]@,
            ),
        decreases n - i,
    {
        let s = tm.remove(0);
        arr.push(JsonValue::Text(s));
        i = i + 1;
    }
    fields.push(("target_modules".to_owned(), JsonValue::Array(arr)));
    let r = JsonValue::Object(fields);
    proof {
        let fm = r.model()->Object_0;
        assert forall|j: int| 0 <= j < fm.len() implies fm[j] == (
            fields@[j].0@,
            fields@[j].1.model(),
        ) by {}
        let inner = fields@[3].1.model()->Array_0;
        let spec_inner = lora_model(gl)->Object_0[3].1->Array_0;
        assert forall|j: int| 0 <= j < inner.len() implies inner[j] == spec_inner[j] by {
            assert(inner[j] == arr@[j].model());
        }
        assert(inner =~= spec_inner);
        assert(fm =~~= lora_model(gl)->Object_0);
    }
    r
}

/// Builds the body of a run-creation request.
pub fn create_run_body(cfg: TrainingConfig) -> (r: JsonValue)
    ensures
        r.model() == create_run_body_spec(cfg),
{
    let ghost gcfg = cfg;
    let mut fields: Vec<(String, JsonValue)> = Vec::new();
    fields.push((
        "name".to_owned(),
        match cfg.name {
            Some(n) => JsonValue::Text(n),
            None => JsonValue::Null,
        },
    ));
    fields.push(("model".to_owned(), JsonValue::Text(cfg.model)));
    fields.push((
        "training_type".to_owned(),
        JsonValue::Text(cfg.training_type.wire_name().to_owned()),
    ));
    fields.push(("dataset_path".to_owned(), JsonValue::Text(cfg.dataset_path)));
    fields.push(("hyperparameters".to_owned(), hyper_to_json(cfg.hyperparameters)));
    match cfg.lora_config {
        Some(l) => {
            fields.push(("lora_config".to_owned(), lora_to_json(l)));
        },
        None => {},
    }
    let r = JsonValue::Object(fields);
    proof {
        let sfs = create_run_body_spec(gcfg)->Object_0;
        let fm = r.model()->Object_0;
        assert forall|j: int| 0 <= j < fm.len() implies fm[j] == (
            fields@[j].0@,
            fields@[j].1.model(),
        ) by {}
        if gcfg.lora_config is Some {
            assert(fm.len() == 6 && sfs.len() == 6);
        } else {
            assert(fm.len() == 5 && sfs.len() == 5);
        }
        assert(fm =~~= sfs);
    }
    r
}

// ---------------------------------------------------------------------------
// Paths
// ---------------------------------------------------------------------------

/// The listing path with its paging query, pages defaulting to one and
/// page size to ten.
pub fn runs_list_path(page: Option<u32>, per_page: Option<u32>) -> (r: String)
    ensures
        r@ == "/v1/training/runs?page="@ + dec_digits(
            (match page {
                Some(p) => p,
                None => 1u32,
            }) as nat,
        ) + "&per_page="@ + dec_digits(
            (match per_page {
                Some(p) => p,
                None => 10u32,
            }) as nat,
        ),
{
    let p = match page {
        Some(p) => p,
        None => 1,
    };
    let pp = match per_page {
        Some(p) => p,
        None => 10,
    };
    "/v1/training/runs?page=".to_owned().concat(u64_to_string(p as u64).as_str()).concat(
        "&per_page=",
    ).concat(u64_to_string(pp as u64).as_str())
}

/// The path of one run.
pub fn run_path(run_id: &str) -> (r: String)
    ensures
        r@ == "/v1/training/runs/"@ + run_id@,
{
    "/v1/training/runs/".to_owned().concat(run_id)
}

/// The cancel path of one run.
pub fn run_cancel_path(run_id: &str) -> (r: String)
    ensures
        r@ == "/v1/training/runs/"@ + run_id@ + "/cancel"@,
{
    "/v1/training/runs/".to_owned().concat(run_id).concat("/cancel")
}

// ---------------------------------------------------------------------------
// Decoding runs
// ---------------------------------------------------------------------------

/// What `chrono`'s RFC 3339 parser accepts for `s`, rendered back in UTC:
/// a function of the characters alone.
pub uninterp spec fn utc_datetime_norm(s: Seq<char>) -> Option<Seq<char>>;

/// Relies on chrono::DateTime::parse_from_rfc3339 and its UTC rendering:
/// validates a timestamp and normalizes it.
#[verifier::external_body]
pub fn parse_datetime_utc(s: &str) -> (r: Result<String, String>)
    ensures
        r is Ok <==> utc_datetime_norm(s@) is Some,
        r matches Ok(v) ==> utc_datetime_norm(s@) == Some(v@),
{
    match chrono::DateTime::parse_from_rfc3339(s) {
        Ok(d) => Ok(d.with_timezone(&chrono::Utc).to_rfc3339()),
        Err(e) => Err(e.to_string()),
    }
}

/// Reads a required count field.
fn take_u32_field(fields: &Vec<(String, JsonValue)>, key: &str) -> (r: Option<u32>)
    ensures
        match r {
            Some(n) => lookup_model(fields_model(fields@), key@) matches Some(m) && m matches
                JsonModel::Number(t) && all_digits(t) && t.len() > 0 && n == digits_val(t)
                && digits_val(t) <= u32::MAX,
            None => !(lookup_model(fields_model(fields@), key@) matches Some(m) && m matches
                JsonModel::Number(t) && all_digits(t) && t.len() > 0 && digits_val(t)
                <= u32::MAX),
        },
{
    match lookup(fields, key) {
        Some(JsonValue::Number(s)) => parse_u32_digits(s.as_str()),
        _ => None,
    }
}

/// A count that fits a field of its width.
pub open spec fn is_count(m: JsonModel, bound: int) -> bool {
    m matches JsonModel::Number(t) && all_digits(t) && t.len() > 0 && digits_val(t) <= bound
}

/// Progress of a running job. The loss is kept as decimal text.
#[derive(Debug, Clone)]
pub struct TrainingProgress {
    pub current_step: u32,
    pub total_steps: u32,
    pub current_epoch: u32,
    pub total_epochs: u32,
    pub loss: Option<String>,
    pub eta_seconds: Option<u64>,
}

/// The mathematical shape of a progress report.
pub struct ProgressModel {
    pub current_step: int,
    pub total_steps: int,
    pub current_epoch: int,
    pub total_epochs: int,
    pub loss: Option<Seq<char>>,
    pub eta_seconds: Option<int>,
}

impl TrainingProgress {
    /// The shape of this value.
    pub open spec fn model(self) -> ProgressModel {
        ProgressModel {
            current_step: self.current_step as int,
            total_steps: self.total_steps as int,
            current_epoch: self.current_epoch as int,
            total_epochs: self.total_epochs as int,
            loss: match self.loss {
                Some(s) => Some(s@),
                None => None,
            },
            eta_seconds: match self.eta_seconds {
                Some(e) => Some(e as int),
                None => None,
            },
        }
    }
}

/// What decoding a progress object yields: four required counters, and
/// optional loss and ETA; anything else does not decode.
pub open spec fn progress_of(m: JsonModel) -> Option<ProgressModel> {
    match m {
        JsonModel::Object(fs) => {
            if is_count(match lookup_model(fs, "current_step"@) {
                Some(x) => x,
                None => JsonModel::Null,
            }, u32::MAX as int) && is_count(match lookup_model(fs, "total_steps"@) {
                Some(x) => x,
                None => JsonModel::Null,
            }, u32::MAX as int) && is_count(match lookup_model(fs, "current_epoch"@) {
                Some(x) => x,
                None => JsonModel::Null,
            }, u32::MAX as int) && is_count(match lookup_model(fs, "total_epochs"@) {
                Some(x) => x,
                None => JsonModel::Null,
            }, u32::MAX as int) {
                let loss = match lookup_model(fs, "loss"@) {
                    None => Some(None),
                    Some(JsonModel::Null) => Some(None),
                    Some(JsonModel::Number(t)) => Some(Some(t)),
                    Some(_) => None,
                };
                let eta = match lookup_model(fs, "eta_seconds"@) {
                    None => Some(None),
                    Some(JsonModel::Null) => Some(None),
                    Some(JsonModel::Number(t)) => if all_digits(t) && t.len() > 0 && digits_val(t)
                        <= u64::MAX {
                        Some(Some(digits_val(t)))
                    } else {
                        None
                    },
                    Some(_) => None,
                };
                match (loss, eta) {
                    (Some(l), Some(e)) => Some(
                        ProgressModel {
                            current_step: digits_val(
                                lookup_model(fs, "current_step"@)->Some_0->Number_0,
                            ),
                            total_steps: digits_val(
                                lookup_model(fs, "total_steps"@)->Some_0->Number_0,
                            ),
                            current_epoch: digits_val(
                                lookup_model(fs, "current_epoch"@)->Some_0->Number_0,
                            ),
                            total_epochs: digits_val(
                                lookup_model(fs, "total_epochs"@)->Some_0->Number_0,
                            ),
                            loss: l,
                            eta_seconds: e,
                        },
                    ),
                    _ => None,
                }
            } else {
                None
            }
        },
        _ => None,
    }
}

/// Decodes the optional progress object of a run report.
pub fn decode_training_progress(v: &JsonValue) -> (r: Option<TrainingProgress>)
    ensures
        match r {
            Some(p) => progress_of(v.model()) == Some(p.model()),
            None => progress_of(v.model()) is None,
        },
{
    let fields = match v {
        JsonValue::Object(fs) => fs,
        _ => {
            return None;
        },
    };
    proof {
        assert(v.model()->Object_0 =~= fields_model(fields@));
    }
    let current_step = match take_u32_field(fields, "current_step") {
        Some(n) => n,
        None => {
            return None;
        },
    };
    let total_steps = match take_u32_field(fields, "total_steps") {
        Some(n) => n,
        None => {
            return None;
        },
    };
    let current_epoch = match take_u32_field(fields, "current_epoch") {
        Some(n) => n,
        None => {
            return None;
        },
    };
    let total_epochs = match take_u32_field(fields, "total_epochs") {
        Some(n) => n,
        None => {
            return None;
        },
    };
    let loss = match lookup(fields, "loss") {
        None => None,
        Some(JsonValue::Null) => None,
        Some(JsonValue::Number(s)) => Some(s.clone()),
        Some(_) => {
            return None;
        },
    };
    let eta_seconds = match lookup(fields, "eta_seconds") {
        None => None,
        Some(JsonValue::Null) => None,
        Some(JsonValue::Number(s)) => match parse_u64_digits(s.as_str()) {
            Some(n) => Some(n),
            None => {
                return None;
            },
        },
        Some(_) => {
            return None;
        },
    };
    Some(TrainingProgress { current_step, total_steps, current_epoch, total_epochs, loss, eta_seconds })
}

/// One training run as the service reports it. The timestamps are kept as
/// normalized RFC 3339 text.
#[derive(Debug, Clone)]
pub struct TrainingRun {
    pub id: String,
    pub name: Option<String>,
    pub status: TrainingStatus,
    pub model: String,
    pub training_type: TrainingType,
    pub created_at: String,
    pub updated_at: String,
    pub progress: Option<TrainingProgress>,
    pub error: Option<String>,
}

/// The mathematical shape of a run report.
pub struct RunModel {
    pub id: Seq<char>,
    pub name: Option<Seq<char>>,
    pub status: TrainingStatus,
    pub model: Seq<char>,
    pub training_type: TrainingType,
    pub created_at: Seq<char>,
    pub updated_at: Seq<char>,
    pub progress: Option<ProgressModel>,
    pub error: Option<Seq<char>>,
}

impl TrainingRun {
    /// The shape of this value.
    pub open spec fn model(self) -> RunModel {
        RunModel {
            id: self.id@,
            name: match self.name {
                Some(s) => Some(s@),
                None => None,
            },
            status: self.status,
            model: self.model@,
            training_type: self.training_type,
            created_at: self.created_at@,
            updated_at: self.updated_at@,
            progress: match self.progress {
                Some(p) => Some(p.model()),
                None => None,
            },
            error: match self.error {
                Some(s) => Some(s@),
                None => None,
            },
        }
    }
}

/// What decoding a run report yields: a required identifier, a known
/// status and training type, two valid timestamps normalized to UTC, and
/// optional name, progress and error.
pub open spec fn run_of(m: JsonModel) -> Result<RunModel, (Seq<char>, JsonKind)> {
    match m {
        JsonModel::Object(fs) => match lookup_model(fs, "id"@) {
            Some(JsonModel::Text(id)) => match crate::chat::opt_text_of(
                lookup_model(fs, "name"@),
            ) {
                Some(name) => match lookup_model(fs, "status"@) {
                    Some(JsonModel::Text(st)) => match training_status_of(st) {
                        Some(status) => match lookup_model(fs, "model"@) {
                            Some(JsonModel::Text(model)) => match lookup_model(
                                fs,
                                "training_type"@,
                            ) {
                                Some(JsonModel::Text(tt)) => match training_type_of(tt) {
                                    Some(training_type) => match lookup_model(
                                        fs,
                                        "created_at"@,
                                    ) {
                                        Some(JsonModel::Text(ct)) => match utc_datetime_norm(ct) {
                                            Some(created_at) => match lookup_model(
                                                fs,
                                                "updated_at"@,
                                            ) {
                                                Some(JsonModel::Text(ut)) => match
                                                    utc_datetime_norm(ut) {
                                                    Some(updated_at) => {
                                                        let prog = match lookup_model(
                                                            fs,
                                                            "progress"@,
                                                        ) {
                                                            None => Some(None),
                                                            Some(JsonModel::Null) => Some(None),
                                                            Some(p) => match progress_of(p) {
                                                                Some(pm) => Some(Some(pm)),
                                                                None => None,
                                                            },
                                                        };
                                                        match prog {
                                                            Some(progress) => match
                                                                crate::chat::opt_text_of(
                                                                lookup_model(fs, "error"@),
                                                            ) {
                                                                Some(error) => Ok(
                                                                    RunModel {
                                                                        id,
                                                                        name,
                                                                        status,
                                                                        model,
                                                                        training_type,
                                                                        created_at,
                                                                        updated_at,
                                                                        progress,
                                                                        error,
                                                                    },
                                                                ),
                                                                None => Err(
                                                                    ("error"@, JsonKind::Text),
                                                                ),
                                                            },
                                                            None => Err(
                                                                ("progress"@, JsonKind::Object),
                                                            ),
                                                        }
                                                    },
                                                    None => Err(("updated_at"@, JsonKind::Text)),
                                                },
                                                _ => Err(("updated_at"@, JsonKind::Text)),
                                            },
                                            None => Err(("created_at"@, JsonKind::Text)),
                                        },
                                        _ => Err(("created_at"@, JsonKind::Text)),
                                    },
                                    None => Err(("training_type"@, JsonKind::Text)),
                                },
                                _ => Err(("training_type"@, JsonKind::Text)),
                            },
                            _ => Err(("model"@, JsonKind::Text)),
                        },
                        None => Err(("status"@, JsonKind::Text)),
                    },
                    _ => Err(("status"@, JsonKind::Text)),
                },
                None => Err(("name"@, JsonKind::Text)),
            },
            _ => Err(("id"@, JsonKind::Text)),
        },
        _ => Err(("$"@, JsonKind::Object)),
    }
}

/// Decodes one run report.
pub fn decode_training_run(v: &JsonValue) -> (r: Result<TrainingRun, (String, JsonKind)>)
    ensures
        match r {
            Ok(run) => run_of(v.model()) == Ok::<RunModel, (Seq<char>, JsonKind)>(run.model()),
            Err((f, k)) => run_of(v.model()) == Err::<RunModel, (Seq<char>, JsonKind)>((f@, k)),
        },
{
    let fields = match v {
        JsonValue::Object(fs) => fs,
        _ => {
            return Err(("$".to_owned(), JsonKind::Object));
        },
    };
    proof {
        assert(v.model()->Object_0 =~= fields_model(fields@));
    }
    let id = match lookup(fields, "id") {
        Some(JsonValue::Text(s)) => s.clone(),
        _ => {
            return Err(("id".to_owned(), JsonKind::Text));
        },
    };
    let name = match lookup(fields, "name") {
        None => None,
        Some(JsonValue::Null) => None,
        Some(JsonValue::Text(s)) => Some(s.clone()),
        Some(_) => {
            return Err(("name".to_owned(), JsonKind::Text));
        },
    };
    let status = match lookup(fields, "status") {
        Some(JsonValue::Text(s)) => {
            if str_eq(s.as_str(), "pending") {
                TrainingStatus::Pending
            } else if str_eq(s.as_str(), "running") {
                TrainingStatus::Running
            } else if str_eq(s.as_str(), "completed") {
                TrainingStatus::Completed
            } else if str_eq(s.as_str(), "failed") {
                TrainingStatus::Failed
            } else if str_eq(s.as_str(), "cancelled") {
                TrainingStatus::Cancelled
            } else {
                return Err(("status".to_owned(), JsonKind::Text));
            }
        },
        _ => {
            return Err(("status".to_owned(), JsonKind::Text));
        },
    };
    let model = match lookup(fields, "model") {
        Some(JsonValue::Text(s)) => s.clone(),
        _ => {
            return Err(("model".to_owned(), JsonKind::Text));
        },
    };
    let training_type = match lookup(fields, "training_type") {
        Some(JsonValue::Text(s)) => {
            if str_eq(s.as_str(), "sft") {
                TrainingType::Sft
            } else if str_eq(s.as_str(), "rl") {
                TrainingType::Rl
            } else if str_eq(s.as_str(), "grpo") {
                TrainingType::Grpo
            } else if str_eq(s.as_str(), "ppo") {
                TrainingType::Ppo
            } else if str_eq(s.as_str(), "dpo") {
                TrainingType::Dpo
            } else if str_eq(s.as_str(), "gkd") {
                TrainingType::Gkd
            } else {
                return Err(("training_type".to_owned(), JsonKind::Text));
            }
        },
        _ => {
            return Err(("training_type".to_owned(), JsonKind::Text));
        },
    };
    let created_at = match lookup(fields, "created_at") {
        Some(JsonValue::Text(s)) => match parse_datetime_utc(s.as_str()) {
            Ok(norm) => norm,
            Err(_) => {
                return Err(("created_at".to_owned(), JsonKind::Text));
            },
        },
        _ => {
            return Err(("created_at".to_owned(), JsonKind::Text));
        },
    };
    let updated_at = match lookup(fields, "updated_at") {
        Some(JsonValue::Text(s)) => match parse_datetime_utc(s.as_str()) {
            Ok(norm) => norm,
            Err(_) => {
                return Err(("updated_at".to_owned(), JsonKind::Text));
            },
        },
        _ => {
            return Err(("updated_at".to_owned(), JsonKind::Text));
        },
    };
    let progress = match lookup(fields, "progress") {
        None => None,
        Some(JsonValue::Null) => None,
        Some(x) => match decode_training_progress(x) {
            Some(p) => Some(p),
            None => {
                return Err(("progress".to_owned(), JsonKind::Object));
            },
        },
    };
    let error = match lookup(fields, "error") {
        None => None,
        Some(JsonValue::Null) => None,
        Some(JsonValue::Text(s)) => Some(s.clone()),
        Some(_) => {
            return Err(("error".to_owned(), JsonKind::Text));
        },
    };
    Ok(TrainingRun { id, name, status, model, training_type, created_at, updated_at, progress, error })
}

/// One page of training runs.
#[derive(Debug)]
pub struct ListTrainingRunsResponse {
    pub runs: Vec<TrainingRun>,
    pub total: u32,
    pub page: u32,
    pub per_page: u32,
}

/// The views of a list of runs.
pub open spec fn runs_view(s: Seq<TrainingRun>) -> Seq<RunModel> {
    Seq::new(
        s.len(),
        |i: int| if 0 <= i < s.len() { s[i].model() } else { s[0].model() },
    )
}

/// The runs of an array, or the first mismatch among them.
pub open spec fn runs_of(s: Seq<JsonModel>) -> Result<Seq<RunModel>, (Seq<char>, JsonKind)>
    decreases s.len(),
{
    if s.len() == 0 {
        Ok(Seq::empty())
    } else {
        match run_of(s[0]) {
            Ok(m) => match runs_of(s.drop_first()) {
                Ok(rest) => Ok(seq![m] + rest),
                Err(e) => Err(e),
            },
            Err(e) => Err(e),
        }
    }
}

/// A sequence of well-shaped runs decodes to their models.
proof fn lemma_runs_of_all(s: Seq<JsonModel>, out: Seq<RunModel>)
    requires
        s.len() == out.len(),
        forall|j: int| 0 <= j < s.len() ==> (#[trigger] run_of(s[j])) == Ok::<
            RunModel,
            (Seq<char>, JsonKind),
        >(out[j]),
    ensures
        runs_of(s) == Ok::<Seq<RunModel>, (Seq<char>, JsonKind)>(out),
    decreases s.len(),
{
    if s.len() > 0 {
        assert(run_of(s[0]) == Ok::<RunModel, (Seq<char>, JsonKind)>(out[0]));
        assert forall|j: int| 0 <= j < s.drop_first().len() implies run_of(s.drop_first()[j])
            == Ok::<RunModel, (Seq<char>, JsonKind)>(out.drop_first()[j]) by {
            assert(s.drop_first()[j] == s[j + 1]);
            assert(out.drop_first()[j] == out[j + 1]);
            assert(run_of(s[j + 1]) == Ok::<RunModel, (Seq<char>, JsonKind)>(out[j + 1]));
        }
        lemma_runs_of_all(s.drop_first(), out.drop_first());
        assert(seq![out[0]] + out.drop_first() =~= out);
    } else {
        assert(out =~= Seq::<RunModel>::empty());
    }
}

/// The first ill-shaped run settles the error.
proof fn lemma_runs_of_fail(s: Seq<JsonModel>, i: int, e: (Seq<char>, JsonKind))
    requires
        0 <= i < s.len(),
        run_of(s[i]) == Err::<RunModel, (Seq<char>, JsonKind)>(e),
        forall|j: int| 0 <= j < i ==> (#[trigger] run_of(s[j])) is Ok,
    ensures
        runs_of(s) == Err::<Seq<RunModel>, (Seq<char>, JsonKind)>(e),
    decreases s.len(),
{
    if i > 0 {
        lemma_runs_of_fail(s.drop_first(), i - 1, e);
    }
}

/// What decoding a listing page yields: the runs array element by
/// element, then the three paging counters.
pub open spec fn runs_list_of(m: JsonModel) -> Result<
    (Seq<RunModel>, int, int, int),
    (Seq<char>, JsonKind),
> {
    match m {
        JsonModel::Object(fs) => match lookup_model(fs, "runs"@) {
            Some(JsonModel::Array(items)) => match runs_of(items) {
                Ok(rs) => if is_count(match lookup_model(fs, "total"@) {
                    Some(x) => x,
                    None => JsonModel::Null,
                }, u32::MAX as int) {
                    if is_count(match lookup_model(fs, "page"@) {
                        Some(x) => x,
                        None => JsonModel::Null,
                    }, u32::MAX as int) {
                        if is_count(match lookup_model(fs, "per_page"@) {
                            Some(x) => x,
                            None => JsonModel::Null,
                        }, u32::MAX as int) {
                            Ok(
                                (
                                    rs,
                                    digits_val(lookup_model(fs, "total"@)->Some_0->Number_0),
                                    digits_val(lookup_model(fs, "page"@)->Some_0->Number_0),
                                    digits_val(lookup_model(fs, "per_page"@)->Some_0->Number_0),
                                ),
                            )
                        } else {
                            Err(("per_page"@, JsonKind::Number))
                        }
                    } else {
                        Err(("page"@, JsonKind::Number))
                    }
                } else {
                    Err(("total"@, JsonKind::Number))
                },
                Err(e) => Err(e),
            },
            _ => Err(("runs"@, JsonKind::Array)),
        },
        _ => Err(("$"@, JsonKind::Object)),
    }
}

/// Decodes one listing page.
pub fn decode_training_runs_list(v: &JsonValue) -> (r: Result<
    ListTrainingRunsResponse,
    (String, JsonKind),
>)
    ensures
        match r {
            Ok(page) => runs_list_of(v.model()) == Ok::<
                (Seq<RunModel>, int, int, int),
                (Seq<char>, JsonKind),
            >((runs_view(page.runs@), page.total as int, page.page as int, page.per_page as int)),
            Err((f, k)) => runs_list_of(v.model()) == Err::<
                (Seq<RunModel>, int, int, int),
                (Seq<char>, JsonKind),
            >((f@, k)),
        },
{
    let fields = match v {
        JsonValue::Object(fs) => fs,
        _ => {
            return Err(("$".to_owned(), JsonKind::Object));
        },
    };
    proof {
        assert(v.model()->Object_0 =~= fields_model(fields@));
    }
    let items = match lookup(fields, "runs") {
        Some(JsonValue::Array(items)) => items,
        _ => {
            return Err(("runs".to_owned(), JsonKind::Array));
        },
    };
    proof {
        let rv = lookup_model(fields_model(fields@), "runs"@)->Some_0;
        assert(rv->Array_0 =~= crate::json::items_model(items@));
    }
    let n = items.len();
    let mut runs: Vec<TrainingRun> = Vec::new();
    let mut i: usize = 0;
    while i < n
        invariant
            i <= n,
            n == items@.len(),
            runs@.len() == i,
            v.model() is Object,
            v.model()->Object_0 == fields_model(fields@),
            (lookup_model(fields_model(fields@), "runs"@) matches Some(m) && m is Array
                && m->Array_0 == crate::json::items_model(items@)),
            forall|j: int| 0 <= j < i ==> run_of(items@[j].model()) == Ok::<
                RunModel,
                (Seq<char>, JsonKind),
            >((#[trigger] runs@[j]).model()),
        decreases n - i,
    {
        match decode_training_run(&items[i]) {
            Ok(run) => {
                runs.push(run);
            },
            Err((f, k)) => {
                proof {
                    let ghost ee = (f@, k);
                    assert forall|j: int| 0 <= j < i implies (#[trigger] run_of(
                        crate::json::items_model(items@)[j],
                    )) is Ok by {
                        assert(run_of(items@[j].model()) == Ok::<RunModel, (Seq<char>, JsonKind)>(
                            runs@[j].model(),
                        ));
                        assert(crate::json::items_model(items@)[j] == items@[j].model());
                    }
                    assert(crate::json::items_model(items@)[i as int] == items@[i as int].model());
                    lemma_runs_of_fail(crate::json::items_model(items@), i as int, ee);
                }
                return Err((f, k));
            },
        }
        i = i + 1;
    }
    proof {
        assert forall|j: int| 0 <= j < n implies (#[trigger] run_of(
            crate::json::items_model(items@)[j],
        )) == Ok::<RunModel, (Seq<char>, JsonKind)>(runs_view(runs@)[j]) by {
            assert(run_of(items@[j].model()) == Ok::<RunModel, (Seq<char>, JsonKind)>(
                runs@[j].model(),
            ));
            assert(crate::json::items_model(items@)[j] == items@[j].model());
            assert(runs_view(runs@)[j] == runs@[j].model());
        }
        lemma_runs_of_all(crate::json::items_model(items@), runs_view(runs@));
    }
    let total = match take_u32_field(fields, "total") {
        Some(x) => x,
        None => {
            return Err(("total".to_owned(), JsonKind::Number));
        },
    };
    let page = match take_u32_field(fields, "page") {
        Some(x) => x,
        None => {
            return Err(("page".to_owned(), JsonKind::Number));
        },
    };
    let per_page = match take_u32_field(fields, "per_page") {
        Some(x) => x,
        None => {
            return Err(("per_page".to_owned(), JsonKind::Number));
        },
    };
    Ok(ListTrainingRunsResponse { runs, total, page, per_page })
}

/// A fresh dataset upload, as the service acknowledges it.
#[derive(Debug, Clone)]
pub struct DatasetUploadResponse {
    pub dataset_id: String,
    pub path: String,
    pub size_bytes: u64,
    pub row_count: u32,
}

/// What decoding an upload acknowledgement yields: identifier and path as
/// text, and the two counters as numbers.
pub open spec fn upload_of(m: JsonModel) -> Result<
    (Seq<char>, Seq<char>, int, int),
    (Seq<char>, JsonKind),
> {
    match m {
        JsonModel::Object(fs) => match lookup_model(fs, "dataset_id"@) {
            Some(JsonModel::Text(id)) => match lookup_model(fs, "path"@) {
                Some(JsonModel::Text(p)) => match lookup_model(fs, "size_bytes"@) {
                    Some(JsonModel::Number(sb)) => if all_digits(sb) && sb.len() > 0
                        && digits_val(sb) <= u64::MAX {
                        match lookup_model(fs, "row_count"@) {
                            Some(JsonModel::Number(rc)) => if all_digits(rc) && rc.len() > 0
                                && digits_val(rc) <= u32::MAX {
                                Ok((id, p, digits_val(sb), digits_val(rc)))
                            } else {
                                Err(("row_count"@, JsonKind::Number))
                            },
                            _ => Err(("row_count"@, JsonKind::Number)),
                        }
                    } else {
                        Err(("size_bytes"@, JsonKind::Number))
                    },
                    _ => Err(("size_bytes"@, JsonKind::Number)),
                },
                _ => Err(("path"@, JsonKind::Text)),
            },
            _ => Err(("dataset_id"@, JsonKind::Text)),
        },
        _ => Err(("$"@, JsonKind::Object)),
    }
}

/// Decodes an upload acknowledgement.
pub fn decode_upload_response(v: &JsonValue) -> (r: Result<DatasetUploadResponse, (String, JsonKind)>)
    ensures
        match r {
            Ok(u) => upload_of(v.model()) == Ok::<
                (Seq<char>, Seq<char>, int, int),
                (Seq<char>, JsonKind),
            >((u.dataset_id@, u.path@, u.size_bytes as int, u.row_count as int)),
            Err((f, k)) => upload_of(v.model()) == Err::<
                (Seq<char>, Seq<char>, int, int),
                (Seq<char>, JsonKind),
            >((f@, k)),
        },
{
    let fields = match v {
        JsonValue::Object(fs) => fs,
        _ => {
            return Err(("$".to_owned(), JsonKind::Object));
        },
    };
    proof {
        assert(v.model()->Object_0 =~= fields_model(fields@));
    }
    let dataset_id = match lookup(fields, "dataset_id") {
        Some(JsonValue::Text(s)) => s.clone(),
        _ => {
            return Err(("dataset_id".to_owned(), JsonKind::Text));
        },
    };
    let path = match lookup(fields, "path") {
        Some(JsonValue::Text(s)) => s.clone(),
        _ => {
            return Err(("path".to_owned(), JsonKind::Text));
        },
    };
    let size_bytes = match lookup(fields, "size_bytes") {
        Some(JsonValue::Number(s)) => match parse_u64_digits(s.as_str()) {
            Some(n) => n,
            None => {
                return Err(("size_bytes".to_owned(), JsonKind::Number));
            },
        },
        _ => {
            return Err(("size_bytes".to_owned(), JsonKind::Number));
        },
    };
    let row_count = match lookup(fields, "row_count") {
        Some(JsonValue::Number(s)) => match parse_u32_digits(s.as_str()) {
            Some(n) => n,
            None => {
                return Err(("row_count".to_owned(), JsonKind::Number));
            },
        },
        _ => {
            return Err(("row_count".to_owned(), JsonKind::Number));
        },
    };
    Ok(DatasetUploadResponse { dataset_id, path, size_bytes, row_count })
}

// ---------------------------------------------------------------------------
// Checkpoints and models
// ---------------------------------------------------------------------------

/// Metrics of one checkpoint, each value as decimal text.
#[derive(Debug, Clone)]
pub struct CheckpointMetrics {
    pub loss: String,
    pub eval_loss: Option<String>,
    pub accuracy: Option<String>,
}

/// The mathematical shape of checkpoint metrics.
pub struct MetricsModel {
    pub loss: Seq<char>,
    pub eval_loss: Option<Seq<char>>,
    pub accuracy: Option<Seq<char>>,
}

impl CheckpointMetrics {
    /// The shape of this value.
    pub open spec fn model(self) -> MetricsModel {
        MetricsModel {
            loss: self.loss@,
            eval_loss: match self.eval_loss {
                Some(s) => Some(s@),
                None => None,
            },
            accuracy: match self.accuracy {
                Some(s) => Some(s@),
                None => None,
            },
        }
    }
}

/// An optional number field: absent or null mean none, a number means
/// some, anything else does not decode.
pub open spec fn opt_number_of(o: Option<JsonModel>) -> Option<Option<Seq<char>>> {
    match o {
        None => Some(None),
        Some(JsonModel::Null) => Some(None),
        Some(JsonModel::Number(t)) => Some(Some(t)),
        Some(_) => None,
    }
}

/// What decoding a metrics object yields: a required loss number and
/// optional evaluation loss and accuracy.
pub open spec fn metrics_of(m: JsonModel) -> Option<MetricsModel> {
    match m {
        JsonModel::Object(fs) => match lookup_model(fs, "loss"@) {
            Some(JsonModel::Number(l)) => match opt_number_of(lookup_model(fs, "eval_loss"@)) {
                Some(el) => match opt_number_of(lookup_model(fs, "accuracy"@)) {
                    Some(acc) => Some(MetricsModel { loss: l, eval_loss: el, accuracy: acc }),
                    None => None,
                },
                None => None,
            },
            _ => None,
        },
        _ => None,
    }
}

/// Decodes the optional metrics object of a checkpoint.
pub fn decode_checkpoint_metrics(v: &JsonValue) -> (r: Option<CheckpointMetrics>)
    ensures
        match r {
            Some(m) => metrics_of(v.model()) == Some(m.model()),
            None => metrics_of(v.model()) is None,
        },
{
    let fields = match v {
        JsonValue::Object(fs) => fs,
        _ => {
            return None;
        },
    };
    proof {
        assert(v.model()->Object_0 =~= fields_model(fields@));
    }
    let loss = match lookup(fields, "loss") {
        Some(JsonValue::Number(s)) => s.clone(),
        _ => {
            return None;
        },
    };
    let eval_loss = match lookup(fields, "eval_loss") {
        None => None,
        Some(JsonValue::Null) => None,
        Some(JsonValue::Number(s)) => Some(s.clone()),
        Some(_) => {
            return None;
        },
    };
    let accuracy = match lookup(fields, "accuracy") {
        None => None,
        Some(JsonValue::Null) => None,
        Some(JsonValue::Number(s)) => Some(s.clone()),
        Some(_) => {
            return None;
        },
    };
    Some(CheckpointMetrics { loss, eval_loss, accuracy })
}

/// One saved checkpoint of a run. The timestamp is normalized RFC 3339
/// text.
#[derive(Debug, Clone)]
pub struct Checkpoint {
    pub id: String,
    pub run_id: String,
    pub step: u32,
    pub path: String,
    pub size_bytes: u64,
    pub created_at: String,
    pub metrics: Option<CheckpointMetrics>,
}

/// The mathematical shape of a checkpoint.
pub struct CheckpointModel {
    pub id: Seq<char>,
    pub run_id: Seq<char>,
    pub step: int,
    pub path: Seq<char>,
    pub size_bytes: int,
    pub created_at: Seq<char>,
    pub metrics: Option<MetricsModel>,
}

impl Checkpoint {
    /// The shape of this value.
    pub open spec fn model(self) -> CheckpointModel {
        CheckpointModel {
            id: self.id@,
            run_id: self.run_id@,
            step: self.step as int,
            path: self.path@,
            size_bytes: self.size_bytes as int,
            created_at: self.created_at@,
            metrics: match self.metrics {
                Some(m) => Some(m.model()),
                None => None,
            },
        }
    }
}

/// What decoding one checkpoint yields.
pub open spec fn checkpoint_of(m: JsonModel) -> Result<CheckpointModel, (Seq<char>, JsonKind)> {
    match m {
        JsonModel::Object(fs) => match lookup_model(fs, "id"@) {
            Some(JsonModel::Text(id)) => match lookup_model(fs, "run_id"@) {
                Some(JsonModel::Text(rid)) => if is_count(match lookup_model(fs, "step"@) {
                    Some(x) => x,
                    None => JsonModel::Null,
                }, u32::MAX as int) {
                    match lookup_model(fs, "path"@) {
                        Some(JsonModel::Text(p)) => if is_count(
                            match lookup_model(fs, "size_bytes"@) {
                                Some(x) => x,
                                None => JsonModel::Null,
                            },
                            u64::MAX as int,
                        ) {
                            match lookup_model(fs, "created_at"@) {
                                Some(JsonModel::Text(ct)) => match utc_datetime_norm(ct) {
                                    Some(created_at) => {
                                        let met = match lookup_model(fs, "metrics"@) {
                                            None => Some(None),
                                            Some(JsonModel::Null) => Some(None),
                                            Some(x) => match metrics_of(x) {
                                                Some(mm) => Some(Some(mm)),
                                                None => None,
                                            },
                                        };
                                        match met {
                                            Some(metrics) => Ok(
                                                CheckpointModel {
                                                    id,
                                                    run_id: rid,
                                                    step: digits_val(
                                                        lookup_model(
                                                            fs,
                                                            "step"@,
                                                        )->Some_0->Number_0,
                                                    ),
                                                    path: p,
                                                    size_bytes: digits_val(
                                                        lookup_model(
                                                            fs,
                                                            "size_bytes"@,
                                                        )->Some_0->Number_0,
                                                    ),
                                                    created_at,
                                                    metrics,
                                                },
                                            ),
                                            None => Err(("metrics"@, JsonKind::Object)),
                                        }
                                    },
                                    None => Err(("created_at"@, JsonKind::Text)),
                                },
                                _ => Err(("created_at"@, JsonKind::Text)),
                            }
                        } else {
                            Err(("size_bytes"@, JsonKind::Number))
                        },
                        _ => Err(("path"@, JsonKind::Text)),
                    }
                } else {
                    Err(("step"@, JsonKind::Number))
                },
                _ => Err(("run_id"@, JsonKind::Text)),
            },
            _ => Err(("id"@, JsonKind::Text)),
        },
        _ => Err(("$"@, JsonKind::Object)),
    }
}

/// Decodes one checkpoint.
pub fn decode_checkpoint(v: &JsonValue) -> (r: Result<Checkpoint, (String, JsonKind)>)
    ensures
        match r {
            Ok(c) => checkpoint_of(v.model()) == Ok::<CheckpointModel, (Seq<char>, JsonKind)>(
                c.model(),
            ),
            Err((f, k)) => checkpoint_of(v.model()) == Err::<
                CheckpointModel,
                (Seq<char>, JsonKind),
            >((f@, k)),
        },
{
    let fields = match v {
        JsonValue::Object(fs) => fs,
        _ => {
            return Err(("$".to_owned(), JsonKind::Object));
        },
    };
    proof {
        assert(v.model()->Object_0 =~= fields_model(fields@));
    }
    let id = match lookup(fields, "id") {
        Some(JsonValue::Text(s)) => s.clone(),
        _ => {
            return Err(("id".to_owned(), JsonKind::Text));
        },
    };
    let run_id = match lookup(fields, "run_id") {
        Some(JsonValue::Text(s)) => s.clone(),
        _ => {
            return Err(("run_id".to_owned(), JsonKind::Text));
        },
    };
    let step = match take_u32_field(fields, "step") {
        Some(n) => n,
        None => {
            return Err(("step".to_owned(), JsonKind::Number));
        },
    };
    let path = match lookup(fields, "path") {
        Some(JsonValue::Text(s)) => s.clone(),
        _ => {
            return Err(("path".to_owned(), JsonKind::Text));
        },
    };
    let size_bytes = match lookup(fields, "size_bytes") {
        Some(JsonValue::Number(s)) => match parse_u64_digits(s.as_str()) {
            Some(n) => n,
            None => {
                return Err(("size_bytes".to_owned(), JsonKind::Number));
            },
        },
        _ => {
            return Err(("size_bytes".to_owned(), JsonKind::Number));
        },
    };
    let created_at = match lookup(fields, "created_at") {
        Some(JsonValue::Text(s)) => match parse_datetime_utc(s.as_str()) {
            Ok(norm) => norm,
            Err(_) => {
                return Err(("created_at".to_owned(), JsonKind::Text));
            },
        },
        _ => {
            return Err(("created_at".to_owned(), JsonKind::Text));
        },
    };
    let metrics = match lookup(fields, "metrics") {
        None => None,
        Some(JsonValue::Null) => None,
        Some(x) => match decode_checkpoint_metrics(x) {
            Some(m) => Some(m),
            None => {
                return Err(("metrics".to_owned(), JsonKind::Object));
            },
        },
    };
    Ok(Checkpoint { id, run_id, step, path, size_bytes, created_at, metrics })
}

/// One page of checkpoints.
#[derive(Debug)]
pub struct ListCheckpointsResponse {
    pub checkpoints: Vec<Checkpoint>,
    pub total: u32,
    pub page: u32,
    pub per_page: u32,
}

/// The views of a list of checkpoints.
pub open spec fn checkpoints_view(s: Seq<Checkpoint>) -> Seq<CheckpointModel> {
    Seq::new(s.len(), |i: int| if 0 <= i < s.len() { s[i].model() } else { s[0].model() })
}

/// The checkpoints of an array, or the first mismatch among them.
pub open spec fn checkpoints_of(s: Seq<JsonModel>) -> Result<
    Seq<CheckpointModel>,
    (Seq<char>, JsonKind),
>
    decreases s.len(),
{
    if s.len() == 0 {
        Ok(Seq::empty())
    } else {
        match checkpoint_of(s[0]) {
            Ok(m) => match checkpoints_of(s.drop_first()) {
                Ok(rest) => Ok(seq![m] + rest),
                Err(e) => Err(e),
            },
            Err(e) => Err(e),
        }
    }
}

/// A sequence of well-shaped checkpoints decodes to their models.
proof fn lemma_checkpoints_of_all(s: Seq<JsonModel>, out: Seq<CheckpointModel>)
    requires
        s.len() == out.len(),
        forall|j: int| 0 <= j < s.len() ==> (#[trigger] checkpoint_of(s[j])) == Ok::<
            CheckpointModel,
            (Seq<char>, JsonKind),
        >(out[j]),
    ensures
        checkpoints_of(s) == Ok::<Seq<CheckpointModel>, (Seq<char>, JsonKind)>(out),
    decreases s.len(),
{
    if s.len() > 0 {
        assert(checkpoint_of(s[0]) == Ok::<CheckpointModel, (Seq<char>, JsonKind)>(out[0]));
        assert forall|j: int| 0 <= j < s.drop_first().len() implies checkpoint_of(
            s.drop_first()[j],
        ) == Ok::<CheckpointModel, (Seq<char>, JsonKind)>(out.drop_first()[j]) by {
            assert(s.drop_first()[j] == s[j + 1]);
            assert(out.drop_first()[j] == out[j + 1]);
            assert(checkpoint_of(s[j + 1]) == Ok::<CheckpointModel, (Seq<char>, JsonKind)>(
                out[j + 1],
            ));
        }
        lemma_checkpoints_of_all(s.drop_first(), out.drop_first());
        assert(seq![out[0]] + out.drop_first() =~= out);
    } else {
        assert(out =~= Seq::<CheckpointModel>::empty());
    }
}

/// The first ill-shaped checkpoint settles the error.
proof fn lemma_checkpoints_of_fail(s: Seq<JsonModel>, i: int, e: (Seq<char>, JsonKind))
    requires
        0 <= i < s.len(),
        checkpoint_of(s[i]) == Err::<CheckpointModel, (Seq<char>, JsonKind)>(e),
        forall|j: int| 0 <= j < i ==> (#[trigger] checkpoint_of(s[j])) is Ok,
    ensures
        checkpoints_of(s) == Err::<Seq<CheckpointModel>, (Seq<char>, JsonKind)>(e),
    decreases s.len(),
{
    if i > 0 {
        lemma_checkpoints_of_fail(s.drop_first(), i - 1, e);
    }
}

/// What decoding a checkpoint page yields.
pub open spec fn checkpoints_list_of(m: JsonModel) -> Result<
    (Seq<CheckpointModel>, int, int, int),
    (Seq<char>, JsonKind),
> {
    match m {
        JsonModel::Object(fs) => match lookup_model(fs, "checkpoints"@) {
            Some(JsonModel::Array(items)) => match checkpoints_of(items) {
                Ok(cs) => if is_count(match lookup_model(fs, "total"@) {
                    Some(x) => x,
                    None => JsonModel::Null,
                }, u32::MAX as int) {
                    if is_count(match lookup_model(fs, "page"@) {
                        Some(x) => x,
                        None => JsonModel::Null,
                    }, u32::MAX as int) {
                        if is_count(match lookup_model(fs, "per_page"@) {
                            Some(x) => x,
                            None => JsonModel::Null,
                        }, u32::MAX as int) {
                            Ok(
                                (
                                    cs,
                                    digits_val(lookup_model(fs, "total"@)->Some_0->Number_0),
                                    digits_val(lookup_model(fs, "page"@)->Some_0->Number_0),
                                    digits_val(lookup_model(fs, "per_page"@)->Some_0->Number_0),
                                ),
                            )
                        } else {
                            Err(("per_page"@, JsonKind::Number))
                        }
                    } else {
                        Err(("page"@, JsonKind::Number))
                    }
                } else {
                    Err(("total"@, JsonKind::Number))
                },
                Err(e) => Err(e),
            },
            _ => Err(("checkpoints"@, JsonKind::Array)),
        },
        _ => Err(("$"@, JsonKind::Object)),
    }
}

/// Decodes one checkpoint page.
pub fn decode_checkpoints_list(v: &JsonValue) -> (r: Result<
    ListCheckpointsResponse,
    (String, JsonKind),
>)
    ensures
        match r {
            Ok(page) => checkpoints_list_of(v.model()) == Ok::<
                (Seq<CheckpointModel>, int, int, int),
                (Seq<char>, JsonKind),
            >(
                (
                    checkpoints_view(page.checkpoints@),
                    page.total as int,
                    page.page as int,
                    page.per_page as int,
                ),
            ),
            Err((f, k)) => checkpoints_list_of(v.model()) == Err::<
                (Seq<CheckpointModel>, int, int, int),
                (Seq<char>, JsonKind),
            >((f@, k)),
        },
{
    let fields = match v {
        JsonValue::Object(fs) => fs,
        _ => {
            return Err(("$".to_owned(), JsonKind::Object));
        },
    };
    proof {
        assert(v.model()->Object_0 =~= fields_model(fields@));
    }
    let items = match lookup(fields, "checkpoints") {
        Some(JsonValue::Array(items)) => items,
        _ => {
            return Err(("checkpoints".to_owned(), JsonKind::Array));
        },
    };
    proof {
        let rv = lookup_model(fields_model(fields@), "checkpoints"@)->Some_0;
        assert(rv->Array_0 =~= crate::json::items_model(items@));
    }
    let n = items.len();
    let mut checkpoints: Vec<Checkpoint> = Vec::new();
    let mut i: usize = 0;
    while i < n
        invariant
            i <= n,
            n == items@.len(),
            checkpoints@.len() == i,
            v.model() is Object,
            v.model()->Object_0 == fields_model(fields@),
            (lookup_model(fields_model(fields@), "checkpoints"@) matches Some(m) && m is Array
                && m->Array_0 == crate::json::items_model(items@)),
            forall|j: int| 0 <= j < i ==> checkpoint_of(items@[j].model()) == Ok::<
                CheckpointModel,
                (Seq<char>, JsonKind),
            >((#[trigger] checkpoints@[j]).model()),
        decreases n - i,
    {
        match decode_checkpoint(&items[i]) {
            Ok(c) => {
                checkpoints.push(c);
            },
            Err((f, k)) => {
                proof {
                    let ghost ee = (f@, k);
                    assert forall|j: int| 0 <= j < i implies (#[trigger] checkpoint_of(
                        crate::json::items_model(items@)[j],
                    )) is Ok by {
                        assert(checkpoint_of(items@[j].model()) == Ok::<
                            CheckpointModel,
                            (Seq<char>, JsonKind),
                        >(checkpoints@[j].model()));
                        assert(crate::json::items_model(items@)[j] == items@[j].model());
                    }
                    assert(crate::json::items_model(items@)[i as int] == items@[i as int].model());
                    lemma_checkpoints_of_fail(crate::json::items_model(items@), i as int, ee);
                }
                return Err((f, k));
            },
        }
        i = i + 1;
    }
    proof {
        assert forall|j: int| 0 <= j < n implies (#[trigger] checkpoint_of(
            crate::json::items_model(items@)[j],
        )) == Ok::<CheckpointModel, (Seq<char>, JsonKind)>(
            checkpoints_view(checkpoints@)[j],
        ) by {
            assert(checkpoint_of(items@[j].model()) == Ok::<CheckpointModel, (Seq<char>, JsonKind)>(
                checkpoints@[j].model(),
            ));
            assert(crate::json::items_model(items@)[j] == items@[j].model());
            assert(checkpoints_view(checkpoints@)[j] == checkpoints@[j].model());
        }
        lemma_checkpoints_of_all(crate::json::items_model(items@), checkpoints_view(checkpoints@));
    }
    let total = match take_u32_field(fields, "total") {
        Some(x) => x,
        None => {
            return Err(("total".to_owned(), JsonKind::Number));
        },
    };
    let page = match take_u32_field(fields, "page") {
        Some(x) => x,
        None => {
            return Err(("page".to_owned(), JsonKind::Number));
        },
    };
    let per_page = match take_u32_field(fields, "per_page") {
        Some(x) => x,
        None => {
            return Err(("per_page".to_owned(), JsonKind::Number));
        },
    };
    Ok(ListCheckpointsResponse { checkpoints, total, page, per_page })
}

/// The checkpoint-listing path of one run, with its paging query.
pub fn checkpoints_list_path(run_id: &str, page: Option<u32>, per_page: Option<u32>) -> (r: String)
    ensures
        r@ == "/v1/training/runs/"@ + run_id@ + "/checkpoints?page="@ + dec_digits(
            (match page {
                Some(p) => p,
                None => 1u32,
            }) as nat,
        ) + "&per_page="@ + dec_digits(
            (match per_page {
                Some(p) => p,
                None => 10u32,
            }) as nat,
        ),
{
    let p = match page {
        Some(p) => p,
        None => 1,
    };
    let pp = match per_page {
        Some(p) => p,
        None => 10,
    };
    "/v1/training/runs/".to_owned().concat(run_id).concat("/checkpoints?page=").concat(
        u64_to_string(p as u64).as_str(),
    ).concat("&per_page=").concat(u64_to_string(pp as u64).as_str())
}

/// The path of one checkpoint.
pub fn checkpoint_path(run_id: &str, checkpoint_id: &str) -> (r: String)
    ensures
        r@ == "/v1/training/runs/"@ + run_id@ + "/checkpoints/"@ + checkpoint_id@,
{
    "/v1/training/runs/".to_owned().concat(run_id).concat("/checkpoints/").concat(checkpoint_id)
}

// ---------------------------------------------------------------------------
// Available models
// ---------------------------------------------------------------------------

/// One base model the service offers. The price is kept as decimal text.
#[derive(Debug, Clone)]
pub struct ModelInfo {
    pub id: String,
    pub name: String,
    pub parameters: String,
    pub supported_training_types: Vec<TrainingType>,
    pub max_lora_rank: u32,
    pub price_per_million_tokens: String,
}

/// The mathematical shape of a model description.
pub struct ModelInfoModel {
    pub id: Seq<char>,
    pub name: Seq<char>,
    pub parameters: Seq<char>,
    pub supported_training_types: Seq<TrainingType>,
    pub max_lora_rank: int,
    pub price_per_million_tokens: Seq<char>,
}

impl ModelInfo {
    /// The shape of this value.
    pub open spec fn model(self) -> ModelInfoModel {
        ModelInfoModel {
            id: self.id@,
            name: self.name@,
            parameters: self.parameters@,
            supported_training_types: self.supported_training_types@,
            max_lora_rank: self.max_lora_rank as int,
            price_per_million_tokens: self.price_per_million_tokens@,
        }
    }
}

/// The training types of an all-text array of known wire names, or
/// nothing when some item is not such a name.
pub open spec fn types_of(s: Seq<JsonModel>) -> Option<Seq<TrainingType>>
    decreases s.len(),
{
    if s.len() == 0 {
        Some(Seq::empty())
    } else {
        match s[0] {
            JsonModel::Text(t) => match training_type_of(t) {
                Some(tt) => match types_of(s.drop_first()) {
                    Some(rest) => Some(seq![tt] + rest),
                    None => None,
                },
                None => None,
            },
            _ => None,
        }
    }
}

/// An all-known-name sequence decodes to its types.
proof fn lemma_types_of_all(s: Seq<JsonModel>, out: Seq<TrainingType>)
    requires
        s.len() == out.len(),
        forall|j: int| 0 <= j < s.len() ==> ((#[trigger] s[j]) matches JsonModel::Text(t)
            && training_type_of(t) == Some(out[j])),
    ensures
        types_of(s) == Some(out),
    decreases s.len(),
{
    if s.len() > 0 {
        assert(s[0] matches JsonModel::Text(t) && training_type_of(t) == Some(out[0]));
        assert forall|j: int| 0 <= j < s.drop_first().len() implies (#[trigger] s.drop_first()[j])
            matches JsonModel::Text(t) && training_type_of(t) == Some(out.drop_first()[j]) by {
            assert(s.drop_first()[j] == s[j + 1]);
            assert(out.drop_first()[j] == out[j + 1]);
            assert(s[j + 1] matches JsonModel::Text(t) && training_type_of(t) == Some(out[j + 1]));
        }
        lemma_types_of_all(s.drop_first(), out.drop_first());
        assert(seq![out[0]] + out.drop_first() =~= out);
    } else {
        assert(out =~= Seq::<TrainingType>::empty());
    }
}

/// A sequence with an unknown name does not decode.
proof fn lemma_types_of_fail(s: Seq<JsonModel>, i: int)
    requires
        0 <= i < s.len(),
        !(s[i] matches JsonModel::Text(t) && training_type_of(t) is Some),
        forall|j: int| 0 <= j < i ==> ((#[trigger] s[j]) matches JsonModel::Text(t)
            && training_type_of(t) is Some),
    ensures
        types_of(s) is None,
    decreases s.len(),
{
    if i > 0 {
        lemma_types_of_fail(s.drop_first(), i - 1);
    }
}

/// Decodes an array of training-type names.
fn decode_training_types(a: &Vec<JsonValue>) -> (r: Option<Vec<TrainingType>>)
    ensures
        match r {
            Some(out) => types_of(crate::json::items_model(a@)) == Some(out@),
            None => types_of(crate::json::items_model(a@)) is None,
        },
{
    let n = a.len();
    let mut out: Vec<TrainingType> = Vec::new();
    let mut i: usize = 0;
    while i < n
        invariant
            i <= n,
            n == a@.len(),
            out@.len() == i,
            forall|j: int| 0 <= j < i ==> ((#[trigger] a@[j].model()) matches JsonModel::Text(t)
                && training_type_of(t) == Some(out@[j])),
        decreases n - i,
    {
        match &a[i] {
            JsonValue::Text(s) => match parse_training_type_exact(s.as_str()) {
                Some(tt) => {
                    out.push(tt);
                },
                None => {
                    proof {
                        assert forall|j: int| 0 <= j < i implies (#[trigger] crate::json::items_model(
                            a@,
                        )[j]) matches JsonModel::Text(t) && training_type_of(t) is Some by {
                            assert(a@[j].model() matches JsonModel::Text(t) && training_type_of(t)
                                == Some(out@[j]));
                            assert(crate::json::items_model(a@)[j] == a@[j].model());
                        }
                        assert(crate::json::items_model(a@)[i as int] == a@[i as int].model());
                        lemma_types_of_fail(crate::json::items_model(a@), i as int);
                    }
                    return None;
                },
            },
            _ => {
                proof {
                    assert forall|j: int| 0 <= j < i implies (#[trigger] crate::json::items_model(
                        a@,
                    )[j]) matches JsonModel::Text(t) && training_type_of(t) is Some by {
                        assert(a@[j].model() matches JsonModel::Text(t) && training_type_of(t)
                            == Some(out@[j]));
                        assert(crate::json::items_model(a@)[j] == a@[j].model());
                    }
                    assert(crate::json::items_model(a@)[i as int] == a@[i as int].model());
                    lemma_types_of_fail(crate::json::items_model(a@), i as int);
                }
                return None;
            },
        }
        i = i + 1;
    }
    proof {
        assert forall|j: int| 0 <= j < n implies (#[trigger] crate::json::items_model(a@)[j])
            matches JsonModel::Text(t) && training_type_of(t) == Some(out@[j]) by {
            assert(a@[j].model() matches JsonModel::Text(t) && training_type_of(t) == Some(
                out@[j],
            ));
            assert(crate::json::items_model(a@)[j] == a@[j].model());
        }
        lemma_types_of_all(crate::json::items_model(a@), out@);
    }
    Some(out)
}

/// Parses a training type from its exact wire name, without lowering.
pub fn parse_training_type_exact(s: &str) -> (r: Option<TrainingType>)
    ensures
        r == training_type_of(s@),
{
    if str_eq(s, "sft") {
        Some(TrainingType::Sft)
    } else if str_eq(s, "rl") {
        Some(TrainingType::Rl)
    } else if str_eq(s, "grpo") {
        Some(TrainingType::Grpo)
    } else if str_eq(s, "ppo") {
        Some(TrainingType::Ppo)
    } else if str_eq(s, "dpo") {
        Some(TrainingType::Dpo)
    } else if str_eq(s, "gkd") {
        Some(TrainingType::Gkd)
    } else {
        None
    }
}

/// What decoding one model description yields.
pub open spec fn model_info_of(m: JsonModel) -> Result<ModelInfoModel, (Seq<char>, JsonKind)> {
    match m {
        JsonModel::Object(fs) => match lookup_model(fs, "id"@) {
            Some(JsonModel::Text(id)) => match lookup_model(fs, "name"@) {
                Some(JsonModel::Text(name)) => match lookup_model(fs, "parameters"@) {
                    Some(JsonModel::Text(params)) => match lookup_model(
                        fs,
                        "supported_training_types"@,
                    ) {
                        Some(JsonModel::Array(items)) => match types_of(items) {
                            Some(tts) => if is_count(match lookup_model(fs, "max_lora_rank"@) {
                                Some(x) => x,
                                None => JsonModel::Null,
                            }, u32::MAX as int) {
                                match lookup_model(fs, "price_per_million_tokens"@) {
                                    Some(JsonModel::Number(price)) => Ok(
                                        ModelInfoModel {
                                            id,
                                            name,
                                            parameters: params,
                                            supported_training_types: tts,
                                            max_lora_rank: digits_val(
                                                lookup_model(
                                                    fs,
                                                    "max_lora_rank"@,
                                                )->Some_0->Number_0,
                                            ),
                                            price_per_million_tokens: price,
                                        },
                                    ),
                                    _ => Err(("price_per_million_tokens"@, JsonKind::Number)),
                                }
                            } else {
                                Err(("max_lora_rank"@, JsonKind::Number))
                            },
                            None => Err(("supported_training_types"@, JsonKind::Text)),
                        },
                        _ => Err(("supported_training_types"@, JsonKind::Array)),
                    },
                    _ => Err(("parameters"@, JsonKind::Text)),
                },
                _ => Err(("name"@, JsonKind::Text)),
            },
            _ => Err(("id"@, JsonKind::Text)),
        },
        _ => Err(("$"@, JsonKind::Object)),
    }
}

/// Decodes one model description.
pub fn decode_model_info(v: &JsonValue) -> (r: Result<ModelInfo, (String, JsonKind)>)
    ensures
        match r {
            Ok(m) => model_info_of(v.model()) == Ok::<ModelInfoModel, (Seq<char>, JsonKind)>(
                m.model(),
            ),
            Err((f, k)) => model_info_of(v.model()) == Err::<
                ModelInfoModel,
                (Seq<char>, JsonKind),
            >((f@, k)),
        },
{
    let fields = match v {
        JsonValue::Object(fs) => fs,
        _ => {
            return Err(("$".to_owned(), JsonKind::Object));
        },
    };
    proof {
        assert(v.model()->Object_0 =~= fields_model(fields@));
    }
    let id = match lookup(fields, "id") {
        Some(JsonValue::Text(s)) => s.clone(),
        _ => {
            return Err(("id".to_owned(), JsonKind::Text));
        },
    };
    let name = match lookup(fields, "name") {
        Some(JsonValue::Text(s)) => s.clone(),
        _ => {
            return Err(("name".to_owned(), JsonKind::Text));
        },
    };
    let parameters = match lookup(fields, "parameters") {
        Some(JsonValue::Text(s)) => s.clone(),
        _ => {
            return Err(("parameters".to_owned(), JsonKind::Text));
        },
    };
    let supported_training_types = match lookup(fields, "supported_training_types") {
        Some(JsonValue::Array(items)) => {
            proof {
                let tv = lookup_model(fields_model(fields@), "supported_training_types"@)->Some_0;
                assert(tv->Array_0 =~= crate::json::items_model(items@));
            }
            match decode_training_types(items) {
                Some(tts) => tts,
                None => {
                    return Err(("supported_training_types".to_owned(), JsonKind::Text));
                },
            }
        },
        _ => {
            return Err(("supported_training_types".to_owned(), JsonKind::Array));
        },
    };
    let max_lora_rank = match take_u32_field(fields, "max_lora_rank") {
        Some(n) => n,
        None => {
            return Err(("max_lora_rank".to_owned(), JsonKind::Number));
        },
    };
    let price_per_million_tokens = match lookup(fields, "price_per_million_tokens") {
        Some(JsonValue::Number(s)) => s.clone(),
        _ => {
            return Err(("price_per_million_tokens".to_owned(), JsonKind::Number));
        },
    };
    Ok(
        ModelInfo {
            id,
            name,
            parameters,
            supported_training_types,
            max_lora_rank,
            price_per_million_tokens,
        },
    )
}

/// The views of a list of model descriptions.
pub open spec fn models_view(s: Seq<ModelInfo>) -> Seq<ModelInfoModel> {
    Seq::new(s.len(), |i: int| if 0 <= i < s.len() { s[i].model() } else { s[0].model() })
}

/// The model descriptions of an array, or the first mismatch among them.
pub open spec fn models_of(s: Seq<JsonModel>) -> Result<
    Seq<ModelInfoModel>,
    (Seq<char>, JsonKind),
>
    decreases s.len(),
{
    if s.len() == 0 {
        Ok(Seq::empty())
    } else {
        match model_info_of(s[0]) {
            Ok(m) => match models_of(s.drop_first()) {
                Ok(rest) => Ok(seq![m] + rest),
                Err(e) => Err(e),
            },
            Err(e) => Err(e),
        }
    }
}

/// A sequence of well-shaped model descriptions decodes to their models.
proof fn lemma_models_of_all(s: Seq<JsonModel>, out: Seq<ModelInfoModel>)
    requires
        s.len() == out.len(),
        forall|j: int| 0 <= j < s.len() ==> (#[trigger] model_info_of(s[j])) == Ok::<
            ModelInfoModel,
            (Seq<char>, JsonKind),
        >(out[j]),
    ensures
        models_of(s) == Ok::<Seq<ModelInfoModel>, (Seq<char>, JsonKind)>(out),
    decreases s.len(),
{
    if s.len() > 0 {
        assert(model_info_of(s[0]) == Ok::<ModelInfoModel, (Seq<char>, JsonKind)>(out[0]));
        assert forall|j: int| 0 <= j < s.drop_first().len() implies model_info_of(
            s.drop_first()[j],
        ) == Ok::<ModelInfoModel, (Seq<char>, JsonKind)>(out.drop_first()[j]) by {
            assert(s.drop_first()[j] == s[j + 1]);
            assert(out.drop_first()[j] == out[j + 1]);
            assert(model_info_of(s[j + 1]) == Ok::<ModelInfoModel, (Seq<char>, JsonKind)>(
                out[j + 1],
            ));
        }
        lemma_models_of_all(s.drop_first(), out.drop_first());
        assert(seq![out[0]] + out.drop_first() =~= out);
    } else {
        assert(out =~= Seq::<ModelInfoModel>::empty());
    }
}

/// The first ill-shaped model description settles the error.
proof fn lemma_models_of_fail(s: Seq<JsonModel>, i: int, e: (Seq<char>, JsonKind))
    requires
        0 <= i < s.len(),
        model_info_of(s[i]) == Err::<ModelInfoModel, (Seq<char>, JsonKind)>(e),
        forall|j: int| 0 <= j < i ==> (#[trigger] model_info_of(s[j])) is Ok,
    ensures
        models_of(s) == Err::<Seq<ModelInfoModel>, (Seq<char>, JsonKind)>(e),
    decreases s.len(),
{
    if i > 0 {
        lemma_models_of_fail(s.drop_first(), i - 1, e);
    }
}

/// What decoding the models listing yields: the top-level array, element
/// by element.
pub open spec fn models_list_of(m: JsonModel) -> Result<
    Seq<ModelInfoModel>,
    (Seq<char>, JsonKind),
> {
    match m {
        JsonModel::Array(items) => models_of(items),
        _ => Err(("$"@, JsonKind::Array)),
    }
}

/// Decodes the models listing: a top-level array of model descriptions.
pub fn decode_models(v: &JsonValue) -> (r: Result<Vec<ModelInfo>, (String, JsonKind)>)
    ensures
        match r {
            Ok(out) => models_list_of(v.model()) == Ok::<
                Seq<ModelInfoModel>,
                (Seq<char>, JsonKind),
            >(models_view(out@)),
            Err((f, k)) => models_list_of(v.model()) == Err::<
                Seq<ModelInfoModel>,
                (Seq<char>, JsonKind),
            >((f@, k)),
        },
{
    let items = match v {
        JsonValue::Array(a) => a,
        _ => {
            return Err(("$".to_owned(), JsonKind::Array));
        },
    };
    proof {
        assert(v.model()->Array_0 =~= crate::json::items_model(items@));
    }
    let n = items.len();
    let mut out: Vec<ModelInfo> = Vec::new();
    let mut i: usize = 0;
    while i < n
        invariant
            i <= n,
            n == items@.len(),
            out@.len() == i,
            v.model() is Array,
            v.model()->Array_0 == crate::json::items_model(items@),
            forall|j: int| 0 <= j < i ==> model_info_of(items@[j].model()) == Ok::<
                ModelInfoModel,
                (Seq<char>, JsonKind),
            >((#[trigger] out@[j]).model()),
        decreases n - i,
    {
        match decode_model_info(&items[i]) {
            Ok(m) => {
                out.push(m);
            },
            Err((f, k)) => {
                proof {
                    let ee = (f@, k);
                    assert forall|j: int| 0 <= j < i implies (#[trigger] model_info_of(
                        crate::json::items_model(items@)[j],
                    )) is Ok by {
                        assert(model_info_of(items@[j].model()) == Ok::<
                            ModelInfoModel,
                            (Seq<char>, JsonKind),
                        >(out@[j].model()));
                        assert(crate::json::items_model(items@)[j] == items@[j].model());
                    }
                    assert(crate::json::items_model(items@)[i as int] == items@[i as int].model());
                    lemma_models_of_fail(crate::json::items_model(items@), i as int, ee);
                }
                return Err((f, k));
            },
        }
        i = i + 1;
    }
    proof {
        assert forall|j: int| 0 <= j < n implies (#[trigger] model_info_of(
            crate::json::items_model(items@)[j],
        )) == Ok::<ModelInfoModel, (Seq<char>, JsonKind)>(models_view(out@)[j]) by {
            assert(model_info_of(items@[j].model()) == Ok::<ModelInfoModel, (Seq<char>, JsonKind)>(
                out@[j].model(),
            ));
            assert(crate::json::items_model(items@)[j] == items@[j].model());
            assert(models_view(out@)[j] == out@[j].model());
        }
        lemma_models_of_all(crate::json::items_model(items@), models_view(out@));
    }
    Ok(out)
}

// ---------------------------------------------------------------------------
// The command layer's request
// ---------------------------------------------------------------------------

/// Hyperparameters as the command layer hands them over; fractional
/// quantities as decimal text.
#[derive(Debug, Clone)]
pub struct HyperparametersInput {
    pub learning_rate: String,
    pub batch_size: u32,
    pub num_epochs: u32,
    pub max_steps: Option<u32>,
    pub warmup_steps: Option<u32>,
    pub weight_decay: Option<String>,
    pub gradient_accumulation_steps: Option<u32>,
}

/// Adaptation settings as the command layer hands them over.
#[derive(Debug, Clone)]
pub struct LoraConfigInput {
    pub rank: u32,
    pub alpha: String,
    pub dropout: String,
    pub target_modules: Option<Vec<String>>,
}

/// A run-creation request of the command layer.
#[derive(Debug, Clone)]
pub struct CreateTrainingRequest {
    pub name: Option<String>,
    pub description: Option<String>,
    pub model: String,
    pub training_type: String,
    pub dataset_id: String,
    pub hyperparameters: HyperparametersInput,
    pub lora_config: Option<LoraConfigInput>,
}

/// Maps a command-layer request onto a training configuration: the
/// training type must parse, and absent target modules default to the
/// attention projections.
pub fn config_from_request(req: CreateTrainingRequest) -> (r: Result<TrainingConfig, String>)
    ensures
        r is Ok <==> training_type_of(lower_of(req.training_type@)) is Some,
        r matches Ok(cfg) ==> {
            &&& Some(cfg.training_type) == training_type_of(lower_of(req.training_type@))
            &&& cfg.model == req.model
            &&& cfg.dataset_path == req.dataset_id
            &&& cfg.name == req.name
            &&& cfg.description == req.description
            &&& cfg.hyperparameters.learning_rate == req.hyperparameters.learning_rate
            &&& cfg.hyperparameters.batch_size == req.hyperparameters.batch_size
            &&& cfg.hyperparameters.num_epochs == req.hyperparameters.num_epochs
            &&& cfg.hyperparameters.max_steps == req.hyperparameters.max_steps
            &&& cfg.hyperparameters.warmup_steps == req.hyperparameters.warmup_steps
            &&& cfg.hyperparameters.weight_decay == req.hyperparameters.weight_decay
            &&& cfg.hyperparameters.gradient_accumulation_steps
                == req.hyperparameters.gradient_accumulation_steps
            &&& (req.lora_config is None ==> cfg.lora_config is None)
            &&& (req.lora_config matches Some(l) ==> (cfg.lora_config matches Some(cl) && {
                &&& cl.rank == l.rank
                &&& cl.alpha == l.alpha
                &&& cl.dropout == l.dropout
                &&& (l.target_modules matches Some(tm) ==> cl.target_modules == tm)
                &&& (l.target_modules is None ==> cl.target_modules@.len() == 2
                    && cl.target_modules@[0]@ == "q_proj"@ && cl.target_modules@[1]@ == "v_proj"@)
            }))
        },
{
    let training_type = match parse_training_type(req.training_type.as_str()) {
        Some(t) => t,
        None => {
            return Err("Unknown training type: ".to_owned().concat(req.training_type.as_str()));
        },
    };
    let lora_config = match req.lora_config {
        Some(l) => Some(
            LoraConfig {
                rank: l.rank,
                alpha: l.alpha,
                dropout: l.dropout,
                target_modules: match l.target_modules {
                    Some(tm) => tm,
                    None => {
                        let mut v: Vec<String> = Vec::new();
                        v.push("q_proj".to_owned());
                        v.push("v_proj".to_owned());
                        v
                    },
                },
            },
        ),
        None => None,
    };
    Ok(
        TrainingConfig {
            model: req.model,
            training_type,
            dataset_path: req.dataset_id,
            hyperparameters: Hyperparameters {
                learning_rate: req.hyperparameters.learning_rate,
                batch_size: req.hyperparameters.batch_size,
                num_epochs: req.hyperparameters.num_epochs,
                max_steps: req.hyperparameters.max_steps,
                warmup_steps: req.hyperparameters.warmup_steps,
                weight_decay: req.hyperparameters.weight_decay,
                gradient_accumulation_steps: req.hyperparameters.gradient_accumulation_steps,
            },
            lora_config,
            name: req.name,
            description: req.description,
        },
    )
}

} // verus!
