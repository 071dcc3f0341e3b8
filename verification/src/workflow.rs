//! The research command surface: mapping finished vendor research onto the
//! response the workflow hands back.

use vstd::prelude::*;

use crate::research::{MLResearchResult, ParameterRecommendation};

verus! {

/// A research task as the command layer receives it.
#[derive(Debug, Clone)]
pub struct ResearchRequest {
    pub task_description: String,
    pub domain: String,
    pub model_type: Option<String>,
    pub training_type: Option<String>,
}

/// One mined parameter recommendation, as the command layer returns it.
#[derive(Debug, Clone)]
pub struct ParamRecommendation {
    pub name: String,
    pub value: String,
    pub rationale: String,
}

/// One consulted source, its relevance as decimal text.
#[derive(Debug, Clone)]
pub struct ResearchSource {
    pub title: String,
    pub url: String,
    pub relevance: String,
}

/// The finished research the workflow hands back.
#[derive(Debug)]
pub struct ResearchResponse {
    pub research_id: String,
    pub summary: String,
    pub best_practices: Vec<String>,
    pub data_patterns: Vec<String>,
    pub recommended_params: Vec<ParamRecommendation>,
    pub pitfalls: Vec<String>,
    pub sources: Vec<ResearchSource>,
}

/// Progress of an ongoing research task; the progress fraction is kept as
/// decimal text.
#[derive(Debug)]
pub struct ResearchStatus {
    pub research_id: String,
    pub status: String,
    pub progress: Option<String>,
    pub result: Option<ResearchResponse>,
}

/// Assembles the workflow's research response out of mined guidance: a
/// fresh identifier, a one-line summary naming the task and domain, the
/// mined lists moved over, and no sources (the research service reports
/// them separately).
pub fn research_response_from(
    request_task: &str,
    request_domain: &str,
    research_id: String,
    result: MLResearchResult,
) -> (r: ResearchResponse)
    ensures
        r.research_id == research_id,
        r.summary@ == "Research completed for "@ + request_task@ + " task in "@ + request_domain@
            + " domain"@,
        r.best_practices == result.best_practices,
        r.data_patterns == result.data_patterns,
        r.pitfalls == result.pitfalls,
        r.recommended_params@.len() == result.recommended_params@.len(),
        forall|k: int| 0 <= k < r.recommended_params@.len() ==> {
            &&& (#[trigger] r.recommended_params@[k]).name == result.recommended_params@[k].name
            &&& r.recommended_params@[k].value == result.recommended_params@[k].value
            &&& r.recommended_params@[k].rationale == result.recommended_params@[k].rationale
        },
        r.sources@.len() == 0,
{
    let ghost gres = result;
    let summary = "Research completed for ".to_owned().concat(request_task).concat(
        " task in ",
    ).concat(request_domain).concat(" domain");
    let n = result.recommended_params.len();
    let mut ps = result.recommended_params;
    let mut recommended_params: Vec<ParamRecommendation> = Vec::new();
    let mut i: usize = 0;
    while i < n
        invariant
            i <= n,
            n == gres.recommended_params@.len(),
            ps@.len() == n - i,
            forall|j: int| 0 <= j < ps@.len() ==> #[trigger] ps@[j]
                == gres.recommended_params@[i + j],
            recommended_params@.len() == i,
            forall|k: int| 0 <= k < i ==> {
                &&& (#[trigger] recommended_params@[k]).name == gres.recommended_params@[k].name
                &&& recommended_params@[k].value == gres.recommended_params@[k].value
                &&& recommended_params@[k].rationale == gres.recommended_params@[k].rationale
            },
        decreases n - i,
    {
        let p = ps.remove(0);
        recommended_params.push(
            ParamRecommendation { name: p.name, value: p.value, rationale: p.rationale },
        );
        i = i + 1;
    }
    ResearchResponse {
        research_id,
        summary,
        best_practices: result.best_practices,
        data_patterns: result.data_patterns,
        recommended_params,
        pitfalls: result.pitfalls,
        sources: Vec::new(),
    }
}

/// The fixed status the workflow reports for a synchronous research task:
/// already completed, in full.
pub fn completed_research_status(research_id: String) -> (r: ResearchStatus)
    ensures
        r.research_id == research_id,
        r.status@ == "completed"@,
        (r.progress matches Some(p) && p@ == "1.0"@),
        r.result is None,
{
    ResearchStatus {
        research_id,
        status: "completed".to_owned(),
        progress: Some("1.0".to_owned()),
        result: None,
    }
}

} // verus!
