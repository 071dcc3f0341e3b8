//! The agent command surface: the typed values the reasoning commands
//! exchange, and the fixed replies the current pipeline answers with.

use vstd::prelude::*;

use crate::chat::AgentType;
use crate::text::str_eq;

verus! {

/// What a user wants to train, as parsed from a voice transcript. The
/// confidence is kept as decimal text.
#[derive(Debug, Clone)]
pub struct TrainingIntent {
    pub task_description: String,
    pub domain: String,
    pub style: Option<String>,
    pub suggested_model: Option<String>,
    pub suggested_training_type: Option<String>,
    pub needs_synthetic_data: bool,
    pub suggested_example_count: Option<u32>,
    pub constraints: Vec<String>,
    pub confidence: String,
}

/// The stock intent the pipeline answers with until reply parsing is
/// wired through: the transcript itself as the task, a general domain,
/// and a standard model and training setup.
pub fn default_intent(transcript: String) -> (r: TrainingIntent)
    ensures
        r.task_description == transcript,
        r.domain@ == "general"@,
        r.style is None,
        (r.suggested_model matches Some(m) && m@ == "llama-3-8b"@),
        (r.suggested_training_type matches Some(t) && t@ == "sft"@),
        r.needs_synthetic_data == true,
        r.suggested_example_count == Some(1000u32),
        r.constraints@.len() == 0,
        r.confidence@ == "0.8"@,
{
    TrainingIntent {
        task_description: transcript,
        domain: "general".to_owned(),
        style: None,
        suggested_model: Some("llama-3-8b".to_owned()),
        suggested_training_type: Some("sft".to_owned()),
        needs_synthetic_data: true,
        suggested_example_count: Some(1000),
        constraints: Vec::new(),
        confidence: "0.8".to_owned(),
    }
}

/// How severe a reported issue is.
#[derive(Debug, Clone, Copy, PartialEq, Eq, Structural)]
pub enum IssueSeverity {
    Error,
    Warning,
    Info,
}

/// One issue found in a dataset.
#[derive(Debug, Clone)]
pub struct ValidationIssue {
    pub severity: IssueSeverity,
    pub category: String,
    pub description: String,
    pub affected_count: Option<u32>,
}

/// A close look at one sample.
#[derive(Debug, Clone)]
pub struct SampleAnalysis {
    pub index: u32,
    pub input_preview: String,
    pub output_preview: String,
    pub feedback: String,
}

/// A dataset quality report.
#[derive(Debug)]
pub struct ValidationReport {
    pub quality_score: u32,
    pub is_acceptable: bool,
    pub issues: Vec<ValidationIssue>,
    pub suggestions: Vec<String>,
    pub sample_analysis: Vec<SampleAnalysis>,
}

/// The stock report the pipeline answers with until reply parsing is
/// wired through: a passing score and one standing suggestion.
pub fn default_validation_report() -> (r: ValidationReport)
    ensures
        r.quality_score == 85,
        r.is_acceptable == true,
        r.issues@.len() == 0,
        r.suggestions@.len() == 1,
        r.suggestions@[0]@ == "Consider adding more diverse examples"@,
        r.sample_analysis@.len() == 0,
{
    let mut suggestions: Vec<String> = Vec::new();
    suggestions.push("Consider adding more diverse examples".to_owned());
    ValidationReport {
        quality_score: 85,
        is_acceptable: true,
        issues: Vec::new(),
        suggestions,
        sample_analysis: Vec::new(),
    }
}

/// Recommended hyperparameters, fractional quantities as decimal text.
#[derive(Debug, Clone)]
pub struct RecommendedHyperparameters {
    pub learning_rate: String,
    pub batch_size: u32,
    pub num_epochs: u32,
    pub warmup_steps: u32,
}

/// Recommended adaptation settings, decimal quantities as text.
#[derive(Debug, Clone)]
pub struct RecommendedLoraConfig {
    pub rank: u32,
    pub alpha: String,
    pub dropout: String,
}

/// A training-configuration recommendation of the command layer. The
/// estimated cost is kept as decimal text.
#[derive(Debug)]
pub struct ConfigRecommendation {
    pub model: String,
    pub training_type: String,
    pub hyperparameters: RecommendedHyperparameters,
    pub lora_config: Option<RecommendedLoraConfig>,
    pub estimated_cost: String,
    pub estimated_time_minutes: u32,
    pub rationale: String,
}

/// The stock recommendation the pipeline answers with: the intent's
/// suggestions where present, else a standard model and supervised
/// fine-tuning, with fixed hyperparameters.
pub fn default_config_recommendation(intent: TrainingIntent) -> (r: ConfigRecommendation)
    ensures
        r.model@ == (match intent.suggested_model {
            Some(m) => m@,
            None => "llama-3-8b"@,
        }),
        r.training_type@ == (match intent.suggested_training_type {
            Some(t) => t@,
            None => "sft"@,
        }),
        r.hyperparameters.learning_rate@ == "1e-5"@,
        r.hyperparameters.batch_size == 8,
        r.hyperparameters.num_epochs == 3,
        r.hyperparameters.warmup_steps == 100,
        (r.lora_config matches Some(l) && l.rank == 16 && l.alpha@ == "32.0"@ && l.dropout@
            == "0.1"@),
        r.estimated_cost@ == "15.0"@,
        r.estimated_time_minutes == 90,
        r.rationale@ == "Standard configuration for instruction fine-tuning"@,
{
    ConfigRecommendation {
        model: match intent.suggested_model {
            Some(m) => m,
            None => "llama-3-8b".to_owned(),
        },
        training_type: match intent.suggested_training_type {
            Some(t) => t,
            None => "sft".to_owned(),
        },
        hyperparameters: RecommendedHyperparameters {
            learning_rate: "1e-5".to_owned(),
            batch_size: 8,
            num_epochs: 3,
            warmup_steps: 100,
        },
        lora_config: Some(
            RecommendedLoraConfig {
                rank: 16,
                alpha: "32.0".to_owned(),
                dropout: "0.1".to_owned(),
            },
        ),
        estimated_cost: "15.0".to_owned(),
        estimated_time_minutes: 90,
        rationale: "Standard configuration for instruction fine-tuning".to_owned(),
    }
}

/// Shape of a dataset as the configuration command sees it.
#[derive(Debug, Clone, Copy, PartialEq, Eq, Structural)]
pub struct DataStats {
    pub num_samples: u32,
    pub avg_tokens_per_sample: u32,
    pub max_tokens: u32,
    pub min_tokens: u32,
}

/// A spoken-back chat reply.
#[derive(Debug, Clone)]
pub struct ChatResponse {
    pub message: String,
    pub should_speak: bool,
}

/// Wraps an agent reply for the voice surface: always spoken.
pub fn agent_chat_reply(content: String) -> (r: ChatResponse)
    ensures
        r.message == content,
        r.should_speak == true,
{
    ChatResponse { message: content, should_speak: true }
}

/// The agent an optional kind name selects: `intent`, `validation` and
/// `config` name their agents, anything else is the general assistant.
pub open spec fn agent_kind_of(s: Option<Seq<char>>) -> AgentType {
    match s {
        Some(t) => if t == "intent"@ {
            AgentType::Intent
        } else if t == "validation"@ {
            AgentType::Validation
        } else if t == "config"@ {
            AgentType::Config
        } else {
            AgentType::General
        },
        None => AgentType::General,
    }
}

/// Selects the agent a chat command addresses.
pub fn parse_agent_kind(agent_type: Option<&String>) -> (r: AgentType)
    ensures
        r == agent_kind_of(
            match agent_type {
                Some(s) => Some(s@),
                None => None,
            },
        ),
{
    match agent_type {
        Some(s) => {
            if str_eq(s.as_str(), "intent") {
                AgentType::Intent
            } else if str_eq(s.as_str(), "validation") {
                AgentType::Validation
            } else if str_eq(s.as_str(), "config") {
                AgentType::Config
            } else {
                AgentType::General
            }
        },
        None => AgentType::General,
    }
}

/// The prompt the configuration command asks with: the task, the sample
/// count, and the token average.
pub fn config_command_prompt(task_description: &str, stats: DataStats) -> (r: String)
    ensures
        r@ == "Recommend training config for:\nTask: "@ + task_description@ + "\nData samples: "@
            + crate::text::dec_digits(stats.num_samples as nat) + "\nAvg tokens: "@
            + crate::text::dec_digits(stats.avg_tokens_per_sample as nat),
{
    "Recommend training config for:\nTask: ".to_owned().concat(task_description).concat(
        "\nData samples: ",
    ).concat(crate::text::u64_to_string(stats.num_samples as u64).as_str()).concat(
        "\nAvg tokens: ",
    ).concat(crate::text::u64_to_string(stats.avg_tokens_per_sample as u64).as_str())
}

/// The prompt the validation command asks with: the task and the raw data.
pub fn validation_command_prompt(task_description: &str, data_json: &str) -> (r: String)
    ensures
        r@ == "Validate this training data for the task: "@ + task_description@ + "\n\nData:\n"@
            + data_json@,
{
    "Validate this training data for the task: ".to_owned().concat(task_description).concat(
        "\n\nData:\n",
    ).concat(data_json)
}

} // verus!
