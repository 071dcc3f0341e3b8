//! The web-research vendor: submitting a research job, decoding its status
//! reports, and mining the finished insights for training guidance.

use vstd::prelude::*;

use crate::json::{
    fields_model, items_model, json_clone, json_parse, lookup, lookup_model, parse_json_text,
    strings_view, JsonKind, JsonModel, JsonValue,
};
use crate::poll::JobStatus;
use crate::text::{
    all_digits, chars_of, contains_pat, contains_seq, dec_digits, digits_val, lower_of, lowercase,
    parse_u32_digits, parse_u64_digits, str_eq, unicode_numeric, word_ranges, words_spec,
};

verus! {

/// The research endpoint.
pub const RESEARCH_BASE_URL: &'static str = "https://api.yutori.com";

/// A research task: the query, how deep to go (one to five), an optional
/// domain focus, and a cap on consulted sources.
#[derive(Debug, Clone)]
pub struct ResearchRequest {
    pub query: String,
    pub depth: u8,
    pub domain: Option<String>,
    pub max_sources: Option<u32>,
}

/// Clamps a requested depth into the service's one-to-five range.
pub fn clamp_depth(d: u8) -> (r: u8)
    ensures
        r == if d < 1 {
            1u8
        } else if d > 5 {
            5u8
        } else {
            d
        },
{
    if d < 1 {
        1
    } else if d > 5 {
        5
    } else {
        d
    }
}

/// The wire shape of a research submission: the query, the clamped depth,
/// and the optional domain and source cap, in the order the service
/// documents.
pub open spec fn research_body_spec(req: ResearchRequest) -> JsonModel {
    JsonModel::Object(
        seq![
            ("query"@, JsonModel::Text(req.query@)),
            (
                "depth"@,
                JsonModel::Number(
                    dec_digits(
                        (if req.depth < 1 {
                            1u8
                        } else if req.depth > 5 {
                            5u8
                        } else {
                            req.depth
                        }) as nat,
                    ),
                ),
            ),
        ] + (match req.domain {
            Some(d) => seq![("domain"@, JsonModel::Text(d@))],
            None => Seq::empty(),
        }) + (match req.max_sources {
            Some(m) => seq![("max_sources"@, JsonModel::Number(dec_digits(m as nat)))],
            None => Seq::empty(),
        }),
    )
}

/// Builds the body of a research submission.
pub fn research_request_body(req: ResearchRequest) -> (r: JsonValue)
    ensures
        r.model() == research_body_spec(req),
{
    let ghost greq = req;
    let mut fields: Vec<(String, JsonValue)> = Vec::new();
    fields.push(("query".to_owned(), JsonValue::Text(req.query)));
    let d = clamp_depth(req.depth);
    fields.push(("depth".to_owned(), JsonValue::Number(crate::text::u64_to_string(d as u64))));
    match req.domain {
        Some(dom) => {
            fields.push(("domain".to_owned(), JsonValue::Text(dom)));
        },
        None => {},
    }
    match req.max_sources {
        Some(m) => {
            fields.push(("max_sources".to_owned(), JsonValue::Number(
                crate::text::u64_to_string(m as u64),
            )));
        },
        None => {},
    }
    let r = JsonValue::Object(fields);
    proof {
        let sfs = research_body_spec(greq)->Object_0;
        let fm = r.model()->Object_0;
        assert forall|j: int| 0 <= j < fm.len() implies fm[j] == (
            fields@[j].0@,
            fields@[j].1.model(),
        ) by {}
        if greq.domain is Some {
            if greq.max_sources is Some {
                assert(fm.len() == 4 && sfs.len() == 4);
            } else {
                assert(fm.len() == 3 && sfs.len() == 3);
            }
        } else {
            if greq.max_sources is Some {
                assert(fm.len() == 3 && sfs.len() == 3);
            } else {
                assert(fm.len() == 2 && sfs.len() == 2);
            }
        }
        assert(fm =~~= sfs);
    }
    r
}

// ---------------------------------------------------------------------------
// Parameter mining
// ---------------------------------------------------------------------------

/// The characters a candidate numeric value may keep: Unicode numerics,
/// the decimal point, the minus sign and the exponent letter.
pub open spec fn keepable_char(c: char) -> bool {
    unicode_numeric(c) || c == '.' || c == '-' || c == 'e'
}

/// `s` without its leading non-keepable characters.
pub open spec fn trim_keep_start(s: Seq<char>) -> Seq<char>
    decreases s.len(),
{
    if s.len() > 0 && !keepable_char(s[0]) {
        trim_keep_start(s.subrange(1, s.len() as int))
    } else {
        s
    }
}

/// `s` without its trailing non-keepable characters.
pub open spec fn trim_keep_end(s: Seq<char>) -> Seq<char>
    decreases s.len(),
{
    if s.len() > 0 && !keepable_char(s[s.len() - 1]) {
        trim_keep_end(s.subrange(0, s.len() - 1))
    } else {
        s
    }
}

/// `s` with non-keepable characters trimmed from both ends.
pub open spec fn trim_keep(s: Seq<char>) -> Seq<char> {
    trim_keep_end(trim_keep_start(s))
}

/// Narrows `[lo, hi)` to the keepable-trimmed part of that range.
fn trim_keep_range(text: &Vec<char>, lo: usize, hi: usize) -> (r: (usize, usize))
    requires
        lo <= hi <= text@.len(),
    ensures
        lo <= r.0 <= r.1 <= hi,
        text@.subrange(r.0 as int, r.1 as int) == trim_keep(
            text@.subrange(lo as int, hi as int),
        ),
{
    let mut a: usize = lo;
    let mut b: usize = hi;
    while a < b && !(text[a].is_numeric() || text[a] == '.' || text[a] == '-' || text[a] == 'e')
        invariant
            lo <= a <= b <= hi <= text@.len(),
            b == hi,
            trim_keep_start(text@.subrange(lo as int, hi as int)) == trim_keep_start(
                text@.subrange(a as int, b as int),
            ),
        decreases b - a,
    {
        proof {
            assert(text@.subrange(a as int, b as int).subrange(
                1,
                text@.subrange(a as int, b as int).len() as int,
            ) =~= text@.subrange(a + 1, b as int));
        }
        a = a + 1;
    }
    proof {
        assert(trim_keep_start(text@.subrange(a as int, b as int)) == text@.subrange(
            a as int,
            b as int,
        ));
    }
    while b > a && !(text[b - 1].is_numeric() || text[b - 1] == '.' || text[b - 1] == '-' || text[b
        - 1] == 'e')
        invariant
            lo <= a <= b <= hi <= text@.len(),
            trim_keep(text@.subrange(lo as int, hi as int)) == trim_keep_end(
                text@.subrange(a as int, b as int),
            ),
        decreases b,
    {
        proof {
            assert(text@.subrange(a as int, b as int).subrange(
                0,
                text@.subrange(a as int, b as int).len() - 1,
            ) =~= text@.subrange(a as int, b - 1));
        }
        b = b - 1;
    }
    (a, b)
}

/// The parameter name an insight suggests, judged on its lowered text.
pub open spec fn param_name_spec(low: Seq<char>) -> Seq<char> {
    if contains_seq(low, "learning rate"@) {
        "learning_rate"@
    } else if contains_seq(low, "batch size"@) {
        "batch_size"@
    } else if contains_seq(low, "lora rank"@) || contains_seq(low, "rank"@) {
        "lora_rank"@
    } else if contains_seq(low, "epoch"@) {
        "num_epochs"@
    } else {
        "parameter"@
    }
}

/// Names the hyperparameter an insight speaks about, by searching its
/// lowered text for the known parameter phrases.
pub fn extract_param_name(insight: &str) -> (r: String)
    ensures
        r@ == param_name_spec(lower_of(insight@)),
{
    let low = lowercase(insight);
    let t = chars_of(low.as_str());
    if contains_pat(&t, "learning rate") {
        "learning_rate".to_owned()
    } else if contains_pat(&t, "batch size") {
        "batch_size".to_owned()
    } else if contains_pat(&t, "lora rank") || contains_pat(&t, "rank") {
        "lora_rank".to_owned()
    } else if contains_pat(&t, "epoch") {
        "num_epochs".to_owned()
    } else {
        "parameter".to_owned()
    }
}

/// The candidate value of the first word that, trimmed of non-numeric
/// decoration, starts with a numeric character.
pub open spec fn param_value_of_words(ws: Seq<Seq<char>>) -> Seq<char>
    decreases ws.len(),
{
    if ws.len() == 0 {
        "unknown"@
    } else {
        let c = trim_keep(ws[0]);
        if c.len() > 0 && unicode_numeric(c[0]) {
            c
        } else {
            param_value_of_words(ws.drop_first())
        }
    }
}

/// What `extract_param_value` returns for an insight.
pub open spec fn param_value_spec(s: Seq<char>) -> Seq<char> {
    param_value_of_words(words_spec(s))
}

/// Picks the numeric-looking value out of an insight: the first word that,
/// trimmed of surrounding decoration, starts with a numeric character.
pub fn extract_param_value(insight: &str) -> (r: String)
    ensures
        r@ == param_value_spec(insight@),
{
    let text = chars_of(insight);
    let words = word_ranges(&text);
    let n = words.len();
    let ghost ws = words_spec(text@);
    let mut k: usize = 0;
    proof {
        assert(ws.skip(0) =~= ws);
    }
    while k < n
        invariant
            k <= n,
            n == ws.len(),
            n == words@.len(),
            text@ == insight@,
            ws == words_spec(text@),
            forall|j: int| 0 <= j < n ==> (#[trigger] words@[j]).0 < words@[j].1 <= text@.len()
                && text@.subrange(words@[j].0 as int, words@[j].1 as int) == ws[j],
            param_value_of_words(ws) == param_value_of_words(ws.skip(k as int)),
        decreases n - k,
    {
        let (a, b) = words[k];
        let (a2, b2) = trim_keep_range(&text, a, b);
        proof {
            assert(ws.skip(k as int)[0] == ws[k as int]);
            assert(text@.subrange(a2 as int, b2 as int) == trim_keep(ws[k as int]));
        }
        if a2 < b2 && text[a2].is_numeric() {
            proof {
                assert(trim_keep(ws[k as int])[0] == text@[a2 as int]);
            }
            return insight.substring_char(a2, b2).to_owned();
        }
        proof {
            assert(ws.skip(k as int).drop_first() =~= ws.skip(k + 1));
            if trim_keep(ws[k as int]).len() > 0 {
                assert(trim_keep(ws[k as int])[0] == text@[a2 as int]);
            }
        }
        k = k + 1;
    }
    proof {
        assert(ws.skip(n as int) =~= Seq::<Seq<char>>::empty());
        reveal_strlit("unknown");
    }
    "unknown".to_owned()
}

// ---------------------------------------------------------------------------
// Status reports
// ---------------------------------------------------------------------------

/// One source a research job consulted. The relevance score is kept as the
/// decimal text of the number the service sent.
#[derive(Debug, Clone)]
pub struct Source {
    pub url: String,
    pub title: String,
    pub relevance_score: String,
}

/// The mathematical shape of a source.
pub struct SourceModel {
    pub url: Seq<char>,
    pub title: Seq<char>,
    pub relevance_score: Seq<char>,
}

impl Source {
    /// The shape of this value.
    pub open spec fn model(self) -> SourceModel {
        SourceModel {
            url: self.url@,
            title: self.title@,
            relevance_score: self.relevance_score@,
        }
    }
}

/// One raw finding. The confidence is kept as decimal text.
#[derive(Debug, Clone)]
pub struct Finding {
    pub content: String,
    pub source_url: String,
    pub confidence: String,
}

/// The mathematical shape of a finding.
pub struct FindingModel {
    pub content: Seq<char>,
    pub source_url: Seq<char>,
    pub confidence: Seq<char>,
}

impl Finding {
    /// The shape of this value.
    pub open spec fn model(self) -> FindingModel {
        FindingModel {
            content: self.content@,
            source_url: self.source_url@,
            confidence: self.confidence@,
        }
    }
}

/// What decoding one source yields: `url` and `title` must be text and
/// `relevance_score` a number.
pub open spec fn source_of(m: JsonModel) -> Result<SourceModel, (Seq<char>, JsonKind)> {
    match m {
        JsonModel::Object(fs) => match lookup_model(fs, "url"@) {
            Some(JsonModel::Text(u)) => match lookup_model(fs, "title"@) {
                Some(JsonModel::Text(t)) => match lookup_model(fs, "relevance_score"@) {
                    Some(JsonModel::Number(sc)) => Ok(
                        SourceModel { url: u, title: t, relevance_score: sc },
                    ),
                    _ => Err(("relevance_score"@, JsonKind::Number)),
                },
                _ => Err(("title"@, JsonKind::Text)),
            },
            _ => Err(("url"@, JsonKind::Text)),
        },
        _ => Err(("$"@, JsonKind::Object)),
    }
}

/// What decoding one finding yields: `content` and `source_url` must be
/// text and `confidence` a number.
pub open spec fn finding_of(m: JsonModel) -> Result<FindingModel, (Seq<char>, JsonKind)> {
    match m {
        JsonModel::Object(fs) => match lookup_model(fs, "content"@) {
            Some(JsonModel::Text(c)) => match lookup_model(fs, "source_url"@) {
                Some(JsonModel::Text(u)) => match lookup_model(fs, "confidence"@) {
                    Some(JsonModel::Number(cf)) => Ok(
                        FindingModel { content: c, source_url: u, confidence: cf },
                    ),
                    _ => Err(("confidence"@, JsonKind::Number)),
                },
                _ => Err(("source_url"@, JsonKind::Text)),
            },
            _ => Err(("content"@, JsonKind::Text)),
        },
        _ => Err(("$"@, JsonKind::Object)),
    }
}

/// The sources of an array, or the first mismatch among them.
pub open spec fn sources_of(s: Seq<JsonModel>) -> Result<Seq<SourceModel>, (Seq<char>, JsonKind)>
    decreases s.len(),
{
    if s.len() == 0 {
        Ok(Seq::empty())
    } else {
        match source_of(s[0]) {
            Ok(m) => match sources_of(s.drop_first()) {
                Ok(rest) => Ok(seq![m] + rest),
                Err(e) => Err(e),
            },
            Err(e) => Err(e),
        }
    }
}

/// The findings of an array, or the first mismatch among them.
pub open spec fn findings_of(s: Seq<JsonModel>) -> Result<Seq<FindingModel>, (Seq<char>, JsonKind)>
    decreases s.len(),
{
    if s.len() == 0 {
        Ok(Seq::empty())
    } else {
        match finding_of(s[0]) {
            Ok(m) => match findings_of(s.drop_first()) {
                Ok(rest) => Ok(seq![m] + rest),
                Err(e) => Err(e),
            },
            Err(e) => Err(e),
        }
    }
}

/// The views of a list of sources.
pub open spec fn sources_view(s: Seq<Source>) -> Seq<SourceModel> {
    Seq::new(
        s.len(),
        |i: int| if 0 <= i < s.len() { s[i].model() } else { SourceModel { url: Seq::empty(), title: Seq::empty(), relevance_score: Seq::empty() } },
    )
}

/// The views of a list of findings.
pub open spec fn findings_view(s: Seq<Finding>) -> Seq<FindingModel> {
    Seq::new(
        s.len(),
        |i: int| if 0 <= i < s.len() { s[i].model() } else { FindingModel { content: Seq::empty(), source_url: Seq::empty(), confidence: Seq::empty() } },
    )
}

/// A sequence of well-shaped sources decodes to their models.
proof fn lemma_sources_of_all(s: Seq<JsonModel>, out: Seq<SourceModel>)
    requires
        s.len() == out.len(),
        forall|j: int| 0 <= j < s.len() ==> (#[trigger] source_of(s[j])) == Ok::<
            SourceModel,
            (Seq<char>, JsonKind),
        >(out[j]),
    ensures
        sources_of(s) == Ok::<Seq<SourceModel>, (Seq<char>, JsonKind)>(out),
    decreases s.len(),
{
    if s.len() > 0 {
        assert(source_of(s[0]) == Ok::<SourceModel, (Seq<char>, JsonKind)>(out[0]));
        assert forall|j: int| 0 <= j < s.drop_first().len() implies source_of(s.drop_first()[j])
            == Ok::<SourceModel, (Seq<char>, JsonKind)>(out.drop_first()[j]) by {
            assert(s.drop_first()[j] == s[j + 1]);
            assert(out.drop_first()[j] == out[j + 1]);
            assert(source_of(s[j + 1]) == Ok::<SourceModel, (Seq<char>, JsonKind)>(out[j + 1]));
        }
        lemma_sources_of_all(s.drop_first(), out.drop_first());
        assert(seq![out[0]] + out.drop_first() =~= out);
    } else {
        assert(out =~= Seq::<SourceModel>::empty());
    }
}

/// The first ill-shaped source settles the error.
proof fn lemma_sources_of_fail(s: Seq<JsonModel>, i: int, e: (Seq<char>, JsonKind))
    requires
        0 <= i < s.len(),
        source_of(s[i]) == Err::<SourceModel, (Seq<char>, JsonKind)>(e),
        forall|j: int| 0 <= j < i ==> (#[trigger] source_of(s[j])) is Ok,
    ensures
        sources_of(s) == Err::<Seq<SourceModel>, (Seq<char>, JsonKind)>(e),
    decreases s.len(),
{
    if i > 0 {
        lemma_sources_of_fail(s.drop_first(), i - 1, e);
    }
}

/// A sequence of well-shaped findings decodes to their models.
proof fn lemma_findings_of_all(s: Seq<JsonModel>, out: Seq<FindingModel>)
    requires
        s.len() == out.len(),
        forall|j: int| 0 <= j < s.len() ==> (#[trigger] finding_of(s[j])) == Ok::<
            FindingModel,
            (Seq<char>, JsonKind),
        >(out[j]),
    ensures
        findings_of(s) == Ok::<Seq<FindingModel>, (Seq<char>, JsonKind)>(out),
    decreases s.len(),
{
    if s.len() > 0 {
        assert(finding_of(s[0]) == Ok::<FindingModel, (Seq<char>, JsonKind)>(out[0]));
        assert forall|j: int| 0 <= j < s.drop_first().len() implies finding_of(s.drop_first()[j])
            == Ok::<FindingModel, (Seq<char>, JsonKind)>(out.drop_first()[j]) by {
            assert(s.drop_first()[j] == s[j + 1]);
            assert(out.drop_first()[j] == out[j + 1]);
            assert(finding_of(s[j + 1]) == Ok::<FindingModel, (Seq<char>, JsonKind)>(out[j + 1]));
        }
        lemma_findings_of_all(s.drop_first(), out.drop_first());
        assert(seq![out[0]] + out.drop_first() =~= out);
    } else {
        assert(out =~= Seq::<FindingModel>::empty());
    }
}

/// The first ill-shaped finding settles the error.
proof fn lemma_findings_of_fail(s: Seq<JsonModel>, i: int, e: (Seq<char>, JsonKind))
    requires
        0 <= i < s.len(),
        finding_of(s[i]) == Err::<FindingModel, (Seq<char>, JsonKind)>(e),
        forall|j: int| 0 <= j < i ==> (#[trigger] finding_of(s[j])) is Ok,
    ensures
        findings_of(s) == Err::<Seq<FindingModel>, (Seq<char>, JsonKind)>(e),
    decreases s.len(),
{
    if i > 0 {
        lemma_findings_of_fail(s.drop_first(), i - 1, e);
    }
}

/// Decodes an array of sources.
fn decode_sources(a: &Vec<JsonValue>) -> (r: Result<Vec<Source>, (String, JsonKind)>)
    ensures
        match r {
            Ok(out) => sources_of(items_model(a@)) == Ok::<Seq<SourceModel>, (Seq<char>, JsonKind)>(
                sources_view(out@),
            ),
            Err((f, k)) => sources_of(items_model(a@)) == Err::<
                Seq<SourceModel>,
                (Seq<char>, JsonKind),
            >((f@, k)),
        },
{
    let n = a.len();
    let mut out: Vec<Source> = Vec::new();
    let mut i: usize = 0;
    while i < n
        invariant
            i <= n,
            n == a@.len(),
            out@.len() == i,
            forall|j: int| 0 <= j < i ==> source_of(a@[j].model()) == Ok::<
                SourceModel,
                (Seq<char>, JsonKind),
            >((#[trigger] out@[j]).model()),
        decreases n - i,
    {
        let fields = match &a[i] {
            JsonValue::Object(fs) => fs,
            _ => {
                proof {
                    bridge_sources_prefix(a@, i as int, out@);
                    lemma_sources_of_fail(items_model(a@), i as int, ("$"@, JsonKind::Object));
                }
                return Err(("$".to_owned(), JsonKind::Object));
            },
        };
        proof {
            assert(a@[i as int].model()->Object_0 =~= fields_model(fields@));
        }
        let url = match lookup(fields, "url") {
            Some(JsonValue::Text(s)) => s.clone(),
            _ => {
                proof {
                    bridge_sources_prefix(a@, i as int, out@);
                    lemma_sources_of_fail(items_model(a@), i as int, ("url"@, JsonKind::Text));
                }
                return Err(("url".to_owned(), JsonKind::Text));
            },
        };
        let title = match lookup(fields, "title") {
            Some(JsonValue::Text(s)) => s.clone(),
            _ => {
                proof {
                    bridge_sources_prefix(a@, i as int, out@);
                    lemma_sources_of_fail(items_model(a@), i as int, ("title"@, JsonKind::Text));
                }
                return Err(("title".to_owned(), JsonKind::Text));
            },
        };
        let relevance_score = match lookup(fields, "relevance_score") {
            Some(JsonValue::Number(s)) => s.clone(),
            _ => {
                proof {
                    bridge_sources_prefix(a@, i as int, out@);
                    lemma_sources_of_fail(
                        items_model(a@),
                        i as int,
                        ("relevance_score"@, JsonKind::Number),
                    );
                }
                return Err(("relevance_score".to_owned(), JsonKind::Number));
            },
        };
        out.push(Source { url, title, relevance_score });
        i = i + 1;
    }
    proof {
        assert forall|j: int| 0 <= j < n implies (#[trigger] source_of(items_model(a@)[j])) == Ok::<
            SourceModel,
            (Seq<char>, JsonKind),
        >(sources_view(out@)[j]) by {
            assert(source_of(a@[j].model()) == Ok::<SourceModel, (Seq<char>, JsonKind)>(
                out@[j].model(),
            ));
            assert(items_model(a@)[j] == a@[j].model());
            assert(sources_view(out@)[j] == out@[j].model());
        }
        lemma_sources_of_all(items_model(a@), sources_view(out@));
    }
    Ok(out)
}

/// The decoded prefix of a source array is well shaped.
proof fn bridge_sources_prefix(a: Seq<JsonValue>, i: int, out: Seq<Source>)
    requires
        0 <= i <= a.len(),
        out.len() == i,
        forall|j: int| 0 <= j < i ==> source_of(a[j].model()) == Ok::<
            SourceModel,
            (Seq<char>, JsonKind),
        >((#[trigger] out[j]).model()),
    ensures
        forall|j: int| 0 <= j < i ==> (#[trigger] source_of(items_model(a)[j])) is Ok,
{
    assert forall|j: int| 0 <= j < i implies (#[trigger] source_of(items_model(a)[j])) is Ok by {
        assert(source_of(a[j].model()) == Ok::<SourceModel, (Seq<char>, JsonKind)>(
            out[j].model(),
        ));
        assert(items_model(a)[j] == a[j].model());
    }
}

/// Decodes an array of findings.
fn decode_findings(a: &Vec<JsonValue>) -> (r: Result<Vec<Finding>, (String, JsonKind)>)
    ensures
        match r {
            Ok(out) => findings_of(items_model(a@)) == Ok::<
                Seq<FindingModel>,
                (Seq<char>, JsonKind),
            >(findings_view(out@)),
            Err((f, k)) => findings_of(items_model(a@)) == Err::<
                Seq<FindingModel>,
                (Seq<char>, JsonKind),
            >((f@, k)),
        },
{
    let n = a.len();
    let mut out: Vec<Finding> = Vec::new();
    let mut i: usize = 0;
    while i < n
        invariant
            i <= n,
            n == a@.len(),
            out@.len() == i,
            forall|j: int| 0 <= j < i ==> finding_of(a@[j].model()) == Ok::<
                FindingModel,
                (Seq<char>, JsonKind),
            >((#[trigger] out@[j]).model()),
        decreases n - i,
    {
        let fields = match &a[i] {
            JsonValue::Object(fs) => fs,
            _ => {
                proof {
                    bridge_findings_prefix(a@, i as int, out@);
                    lemma_findings_of_fail(items_model(a@), i as int, ("$"@, JsonKind::Object));
                }
                return Err(("$".to_owned(), JsonKind::Object));
            },
        };
        proof {
            assert(a@[i as int].model()->Object_0 =~= fields_model(fields@));
        }
        let content = match lookup(fields, "content") {
            Some(JsonValue::Text(s)) => s.clone(),
            _ => {
                proof {
                    bridge_findings_prefix(a@, i as int, out@);
                    lemma_findings_of_fail(
                        items_model(a@),
                        i as int,
                        ("content"@, JsonKind::Text),
                    );
                }
                return Err(("content".to_owned(), JsonKind::Text));
            },
        };
        let source_url = match lookup(fields, "source_url") {
            Some(JsonValue::Text(s)) => s.clone(),
            _ => {
                proof {
                    bridge_findings_prefix(a@, i as int, out@);
                    lemma_findings_of_fail(
                        items_model(a@),
                        i as int,
                        ("source_url"@, JsonKind::Text),
                    );
                }
                return Err(("source_url".to_owned(), JsonKind::Text));
            },
        };
        let confidence = match lookup(fields, "confidence") {
            Some(JsonValue::Number(s)) => s.clone(),
            _ => {
                proof {
                    bridge_findings_prefix(a@, i as int, out@);
                    lemma_findings_of_fail(
                        items_model(a@),
                        i as int,
                        ("confidence"@, JsonKind::Number),
                    );
                }
                return Err(("confidence".to_owned(), JsonKind::Number));
            },
        };
        out.push(Finding { content, source_url, confidence });
        i = i + 1;
    }
    proof {
        assert forall|j: int| 0 <= j < n implies (#[trigger] finding_of(items_model(a@)[j]))
            == Ok::<FindingModel, (Seq<char>, JsonKind)>(findings_view(out@)[j]) by {
            assert(finding_of(a@[j].model()) == Ok::<FindingModel, (Seq<char>, JsonKind)>(
                out@[j].model(),
            ));
            assert(items_model(a@)[j] == a@[j].model());
            assert(findings_view(out@)[j] == out@[j].model());
        }
        lemma_findings_of_all(items_model(a@), findings_view(out@));
    }
    Ok(out)
}

/// The decoded prefix of a finding array is well shaped.
proof fn bridge_findings_prefix(a: Seq<JsonValue>, i: int, out: Seq<Finding>)
    requires
        0 <= i <= a.len(),
        out.len() == i,
        forall|j: int| 0 <= j < i ==> finding_of(a[j].model()) == Ok::<
            FindingModel,
            (Seq<char>, JsonKind),
        >((#[trigger] out[j]).model()),
    ensures
        forall|j: int| 0 <= j < i ==> (#[trigger] finding_of(items_model(a)[j])) is Ok,
{
    assert forall|j: int| 0 <= j < i implies (#[trigger] finding_of(items_model(a)[j])) is Ok by {
        assert(finding_of(a[j].model()) == Ok::<FindingModel, (Seq<char>, JsonKind)>(
            out[j].model(),
        ));
        assert(items_model(a)[j] == a[j].model());
    }
}

// ---------------------------------------------------------------------------
// The status report as a whole
// ---------------------------------------------------------------------------

/// The job status a report's `status` text denotes.
pub open spec fn research_status_of(s: Seq<char>) -> Option<JobStatus> {
    if s == "pending"@ {
        Some(JobStatus::Pending)
    } else if s == "inprogress"@ {
        Some(JobStatus::InProgress)
    } else if s == "completed"@ {
        Some(JobStatus::Completed)
    } else if s == "failed"@ {
        Some(JobStatus::Failed)
    } else {
        None
    }
}

/// One decoded status report of a research job. Fields the service omits
/// take their documented defaults.
#[derive(Debug)]
pub struct ResearchReply {
    pub research_id: String,
    pub status: JobStatus,
    pub summary: Option<String>,
    pub insights: Vec<String>,
    pub sources: Vec<Source>,
    pub findings: Vec<Finding>,
    pub duration_ms: u64,
    pub sources_consulted: u32,
}

/// The mathematical shape of a status report.
pub struct ReplyModel {
    pub research_id: Seq<char>,
    pub status: JobStatus,
    pub summary: Option<Seq<char>>,
    pub insights: Seq<Seq<char>>,
    pub sources: Seq<SourceModel>,
    pub findings: Seq<FindingModel>,
    pub duration_ms: int,
    pub sources_consulted: int,
}

impl ResearchReply {
    /// The shape of this value.
    pub open spec fn model(self) -> ReplyModel {
        ReplyModel {
            research_id: self.research_id@,
            status: self.status,
            summary: match self.summary {
                Some(s) => Some(s@),
                None => None,
            },
            insights: strings_view(self.insights@),
            sources: sources_view(self.sources@),
            findings: findings_view(self.findings@),
            duration_ms: self.duration_ms as int,
            sources_consulted: self.sources_consulted as int,
        }
    }
}

/// What decoding a status report yields: a required identifier and status,
/// and optional summary, insights, sources, findings and counters, each
/// defaulting when absent.
pub open spec fn research_reply_of(m: JsonModel) -> Result<ReplyModel, (Seq<char>, JsonKind)> {
    match m {
        JsonModel::Object(fs) => match lookup_model(fs, "research_id"@) {
            Some(JsonModel::Text(rid)) => match lookup_model(fs, "status"@) {
                Some(JsonModel::Text(st)) => match research_status_of(st) {
                    Some(status) => match crate::chat::opt_text_of(lookup_model(fs, "summary"@)) {
                        Some(summary) => {
                            let ins = match lookup_model(fs, "insights"@) {
                                None => Ok(Seq::<Seq<char>>::empty()),
                                Some(JsonModel::Array(a)) => match crate::decode::strings_of(a) {
                                    Some(xs) => Ok(xs),
                                    None => Err(("insights"@, JsonKind::Text)),
                                },
                                Some(_) => Err(("insights"@, JsonKind::Array)),
                            };
                            match ins {
                                Ok(insights) => {
                                    let srcs = match lookup_model(fs, "sources"@) {
                                        None => Ok(Seq::<SourceModel>::empty()),
                                        Some(JsonModel::Array(a)) => sources_of(a),
                                        Some(_) => Err(("sources"@, JsonKind::Array)),
                                    };
                                    match srcs {
                                        Ok(sources) => {
                                            let fnds = match lookup_model(fs, "findings"@) {
                                                None => Ok(Seq::<FindingModel>::empty()),
                                                Some(JsonModel::Array(a)) => findings_of(a),
                                                Some(_) => Err(("findings"@, JsonKind::Array)),
                                            };
                                            match fnds {
                                                Ok(findings) => {
                                                    let dur = match lookup_model(
                                                        fs,
                                                        "duration_ms"@,
                                                    ) {
                                                        None => Ok(0int),
                                                        Some(JsonModel::Number(t)) => if all_digits(
                                                            t,
                                                        ) && t.len() > 0 && digits_val(t)
                                                            <= u64::MAX {
                                                            Ok(digits_val(t))
                                                        } else {
                                                            Err(
                                                                (
                                                                    "duration_ms"@,
                                                                    JsonKind::Number,
                                                                ),
                                                            )
                                                        },
                                                        Some(_) => Err(
                                                            ("duration_ms"@, JsonKind::Number),
                                                        ),
                                                    };
                                                    match dur {
                                                        Ok(duration_ms) => {
                                                            let sc = match lookup_model(
                                                                fs,
                                                                "sources_consulted"@,
                                                            ) {
                                                                None => Ok(0int),
                                                                Some(
                                                                    JsonModel::Number(t),
                                                                ) => if all_digits(t) && t.len()
                                                                    > 0 && digits_val(t)
                                                                    <= u32::MAX {
                                                                    Ok(digits_val(t))
                                                                } else {
                                                                    Err(
                                                                        (
                                                                            "sources_consulted"@,
                                                                            JsonKind::Number,
                                                                        ),
                                                                    )
                                                                },
                                                                Some(_) => Err(
                                                                    (
                                                                        "sources_consulted"@,
                                                                        JsonKind::Number,
                                                                    ),
                                                                ),
                                                            };
                                                            match sc {
                                                                Ok(sources_consulted) => Ok(
                                                                    ReplyModel {
                                                                        research_id: rid,
                                                                        status,
                                                                        summary,
                                                                        insights,
                                                                        sources,
                                                                        findings,
                                                                        duration_ms,
                                                                        sources_consulted,
                                                                    },
                                                                ),
                                                                Err(e) => Err(e),
                                                            }
                                                        },
                                                        Err(e) => Err(e),
                                                    }
                                                },
                                                Err(e) => Err(e),
                                            }
                                        },
                                        Err(e) => Err(e),
                                    }
                                },
                                Err(e) => Err(e),
                            }
                        },
                        None => Err(("summary"@, JsonKind::Text)),
                    },
                    None => Err(("status"@, JsonKind::Text)),
                },
                _ => Err(("status"@, JsonKind::Text)),
            },
            _ => Err(("research_id"@, JsonKind::Text)),
        },
        _ => Err(("$"@, JsonKind::Object)),
    }
}

/// Decodes a status report from a parsed document.
pub fn decode_research_reply(v: &JsonValue) -> (r: Result<ResearchReply, (String, JsonKind)>)
    ensures
        match r {
            Ok(t) => research_reply_of(v.model()) == Ok::<ReplyModel, (Seq<char>, JsonKind)>(
                t.model(),
            ),
            Err((f, k)) => research_reply_of(v.model()) == Err::<
                ReplyModel,
                (Seq<char>, JsonKind),
            >((f@, k)),
        },
{
    let fields = match v {
        JsonValue::Object(fs) => fs,
        _ => {
            return Err(("$".to_owned(), JsonKind::Object));
        },
    };
    proof {
        assert(v.model()->Object_0 =~= fields_model(fields@));
    }
    let research_id = match lookup(fields, "research_id") {
        Some(JsonValue::Text(s)) => s.clone(),
        _ => {
            return Err(("research_id".to_owned(), JsonKind::Text));
        },
    };
    let status = match lookup(fields, "status") {
        Some(JsonValue::Text(s)) => {
            if str_eq(s.as_str(), "pending") {
                JobStatus::Pending
            } else if str_eq(s.as_str(), "inprogress") {
                JobStatus::InProgress
            } else if str_eq(s.as_str(), "completed") {
                JobStatus::Completed
            } else if str_eq(s.as_str(), "failed") {
                JobStatus::Failed
            } else {
                return Err(("status".to_owned(), JsonKind::Text));
            }
        },
        _ => {
            return Err(("status".to_owned(), JsonKind::Text));
        },
    };
    let summary = match lookup(fields, "summary") {
        None => None,
        Some(JsonValue::Null) => None,
        Some(JsonValue::Text(s)) => Some(s.clone()),
        Some(_) => {
            return Err(("summary".to_owned(), JsonKind::Text));
        },
    };
    let insights = match lookup(fields, "insights") {
        None => Vec::new(),
        Some(JsonValue::Array(a)) => {
            proof {
                let av = lookup_model(fields_model(fields@), "insights"@)->Some_0;
                assert(av->Array_0 =~= items_model(a@));
            }
            match crate::decode::decode_strings(a) {
                Some(xs) => xs,
                None => {
                    return Err(("insights".to_owned(), JsonKind::Text));
                },
            }
        },
        Some(_) => {
            return Err(("insights".to_owned(), JsonKind::Array));
        },
    };
    let sources = match lookup(fields, "sources") {
        None => Vec::new(),
        Some(JsonValue::Array(a)) => {
            proof {
                let av = lookup_model(fields_model(fields@), "sources"@)->Some_0;
                assert(av->Array_0 =~= items_model(a@));
            }
            match decode_sources(a) {
                Ok(xs) => xs,
                Err(e) => {
                    return Err(e);
                },
            }
        },
        Some(_) => {
            return Err(("sources".to_owned(), JsonKind::Array));
        },
    };
    let findings = match lookup(fields, "findings") {
        None => Vec::new(),
        Some(JsonValue::Array(a)) => {
            proof {
                let av = lookup_model(fields_model(fields@), "findings"@)->Some_0;
                assert(av->Array_0 =~= items_model(a@));
            }
            match decode_findings(a) {
                Ok(xs) => xs,
                Err(e) => {
                    return Err(e);
                },
            }
        },
        Some(_) => {
            return Err(("findings".to_owned(), JsonKind::Array));
        },
    };
    let duration_ms = match lookup(fields, "duration_ms") {
        None => 0u64,
        Some(JsonValue::Number(s)) => match parse_u64_digits(s.as_str()) {
            Some(n) => n,
            None => {
                return Err(("duration_ms".to_owned(), JsonKind::Number));
            },
        },
        Some(_) => {
            return Err(("duration_ms".to_owned(), JsonKind::Number));
        },
    };
    let sources_consulted = match lookup(fields, "sources_consulted") {
        None => 0u32,
        Some(JsonValue::Number(s)) => match parse_u32_digits(s.as_str()) {
            Some(n) => n,
            None => {
                return Err(("sources_consulted".to_owned(), JsonKind::Number));
            },
        },
        Some(_) => {
            return Err(("sources_consulted".to_owned(), JsonKind::Number));
        },
    };
    proof {
        assert(strings_view(Seq::<String>::empty()) =~= Seq::<Seq<char>>::empty());
        assert(sources_view(Seq::<Source>::empty()) =~= Seq::<SourceModel>::empty());
        assert(findings_view(Seq::<Finding>::empty()) =~= Seq::<FindingModel>::empty());
    }
    Ok(
        ResearchReply {
            research_id,
            status,
            summary,
            insights,
            sources,
            findings,
            duration_ms,
            sources_consulted,
        },
    )
}

/// Decodes a status report from raw text; the parser's message comes back
/// on malformed text.
pub fn decode_research_reply_text(raw: &str) -> (r: Result<ResearchReply, String>)
    ensures
        json_parse(raw@) is None ==> r is Err,
        json_parse(raw@) matches Some(m) ==> match r {
            Ok(t) => research_reply_of(m) == Ok::<ReplyModel, (Seq<char>, JsonKind)>(t.model()),
            Err(_) => research_reply_of(m) is Err,
        },
{
    match parse_json_text(raw) {
        Ok(v) => match decode_research_reply(&v) {
            Ok(t) => Ok(t),
            Err((f, _)) => Err("schema mismatch at field ".to_owned().concat(f.as_str())),
        },
        Err(msg) => Err(msg),
    }
}

// ---------------------------------------------------------------------------
// Outcome of one status fetch
// ---------------------------------------------------------------------------

/// Completed research: the synthesis, the insights, the sources consulted
/// and the raw findings, with accounting metadata.
#[derive(Debug)]
pub struct ResearchResult {
    pub summary: String,
    pub insights: Vec<String>,
    pub sources: Vec<Source>,
    pub raw_findings: Vec<Finding>,
    pub metadata: ResearchMetadata,
}

/// Accounting of one research job.
#[derive(Debug, Clone)]
pub struct ResearchMetadata {
    pub research_id: String,
    pub duration_ms: u64,
    pub sources_consulted: u32,
    pub status: JobStatus,
}

/// What one status fetch settles: a finished result, a failure reason, or
/// the need to keep polling.
#[derive(Debug)]
pub enum ResearchFetch {
    Completed(ResearchResult),
    Failed(String),
    InProgress { research_id: String },
}

/// Settles one fetched status report: a completed report carries the
/// result (an absent summary read as empty), a failed one carries its
/// reason (the summary, or a fixed phrase when there is none), and any
/// other status asks for another poll.
pub fn research_fetch_from_reply(reply: ResearchReply) -> (r: ResearchFetch)
    ensures
        reply.status == JobStatus::Completed ==> (r matches ResearchFetch::Completed(res) && {
            &&& res.summary@ == (match reply.summary {
                Some(s) => s@,
                None => Seq::<char>::empty(),
            })
            &&& res.insights == reply.insights
            &&& res.sources == reply.sources
            &&& res.raw_findings == reply.findings
            &&& res.metadata.research_id == reply.research_id
            &&& res.metadata.duration_ms == reply.duration_ms
            &&& res.metadata.sources_consulted == reply.sources_consulted
            &&& res.metadata.status == JobStatus::Completed
        }),
        reply.status == JobStatus::Failed ==> (r matches ResearchFetch::Failed(reason) && reason@
            == (match reply.summary {
            Some(s) => s@,
            None => "Research failed"@,
        })),
        !reply.status.is_terminal_spec() ==> (r matches ResearchFetch::InProgress {
            research_id } && research_id == reply.research_id),
{
    match reply.status {
        JobStatus::Completed => ResearchFetch::Completed(
            ResearchResult {
                summary: match reply.summary {
                    Some(s) => s,
                    None => String::new(),
                },
                insights: reply.insights,
                sources: reply.sources,
                raw_findings: reply.findings,
                metadata: ResearchMetadata {
                    research_id: reply.research_id,
                    duration_ms: reply.duration_ms,
                    sources_consulted: reply.sources_consulted,
                    status: JobStatus::Completed,
                },
            },
        ),
        JobStatus::Failed => ResearchFetch::Failed(
            match reply.summary {
                Some(s) => s,
                None => "Research failed".to_owned(),
            },
        ),
        _ => ResearchFetch::InProgress { research_id: reply.research_id },
    }
}

// ---------------------------------------------------------------------------
// Research for training best practices
// ---------------------------------------------------------------------------

/// Structured training guidance mined from finished research.
#[derive(Debug)]
pub struct MLResearchResult {
    pub recommended_params: Vec<ParameterRecommendation>,
    pub best_practices: Vec<String>,
    pub data_patterns: Vec<String>,
    pub pitfalls: Vec<String>,
}

/// One mined hyperparameter recommendation.
#[derive(Debug, Clone)]
pub struct ParameterRecommendation {
    pub name: String,
    pub value: String,
    pub rationale: String,
}

/// The query `research_ml_task` submits.
pub fn ml_research_query(task_description: &str, model_type: &str, training_type: &str) -> (r:
    String)
    ensures
        r@ == "Best practices and recommended hyperparameters for "@ + training_type@
            + " fine-tuning "@ + model_type@ + " models. Task: "@ + task_description@
            + ". Include: learning rates, batch sizes, LoRA configurations, common pitfalls, data formatting patterns, and evaluation strategies."@,
{
    "Best practices and recommended hyperparameters for ".to_owned().concat(training_type).concat(
        " fine-tuning ",
    ).concat(model_type).concat(" models. Task: ").concat(task_description).concat(
        ". Include: learning rates, batch sizes, LoRA configurations, common pitfalls, data formatting patterns, and evaluation strategies.",
    )
}

/// The request `research_ml_task` submits: the mined query, depth four, a
/// fine-tuning domain focus, and at most twenty sources.
pub fn ml_research_request(task_description: &str, model_type: &str, training_type: &str) -> (r:
    ResearchRequest)
    ensures
        r.query@ == "Best practices and recommended hyperparameters for "@ + training_type@
            + " fine-tuning "@ + model_type@ + " models. Task: "@ + task_description@
            + ". Include: learning rates, batch sizes, LoRA configurations, common pitfalls, data formatting patterns, and evaluation strategies."@,
        r.depth == 4u8,
        r.domain matches Some(d) && d@ == "machine learning fine-tuning"@,
        r.max_sources == Some(20u32),
{
    ResearchRequest {
        query: ml_research_query(task_description, model_type, training_type),
        depth: 4,
        domain: Some("machine learning fine-tuning".to_owned()),
        max_sources: Some(20),
    }
}

/// An insight that names a tunable quantity.
pub open spec fn is_param_insight(s: Seq<char>) -> bool {
    contains_seq(s, "rate"@) || contains_seq(s, "batch"@) || contains_seq(s, "rank"@)
}

/// An insight that states a practice.
pub open spec fn is_practice_insight(s: Seq<char>) -> bool {
    contains_seq(s, "should"@) || contains_seq(s, "best"@) || contains_seq(s, "recommend"@)
}

/// An insight that describes data shape.
pub open spec fn is_pattern_insight(s: Seq<char>) -> bool {
    contains_seq(s, "format"@) || contains_seq(s, "data"@) || contains_seq(s, "example"@)
}

/// An insight that warns.
pub open spec fn is_pitfall_insight(s: Seq<char>) -> bool {
    contains_seq(s, "avoid"@) || contains_seq(s, "don't"@) || contains_seq(s, "warning"@)
}

/// The parameter-insight predicate as a value.
pub open spec fn param_pred() -> spec_fn(Seq<char>) -> bool {
    |s: Seq<char>| is_param_insight(s)
}

/// The practice-insight predicate as a value.
pub open spec fn practice_pred() -> spec_fn(Seq<char>) -> bool {
    |s: Seq<char>| is_practice_insight(s)
}

/// The pattern-insight predicate as a value.
pub open spec fn pattern_pred() -> spec_fn(Seq<char>) -> bool {
    |s: Seq<char>| is_pattern_insight(s)
}

/// The pitfall-insight predicate as a value.
pub open spec fn pitfall_pred() -> spec_fn(Seq<char>) -> bool {
    |s: Seq<char>| is_pitfall_insight(s)
}

/// Collects the insights that state a practice.
fn filter_insights_practice(insights: &Vec<String>) -> (r: Vec<String>)
    ensures
        strings_view(r@) == strings_view(insights@).filter(practice_pred()),
{
    let ghost iv = strings_view(insights@);
    let n = insights.len();
    let mut out: Vec<String> = Vec::new();
    let mut i: usize = 0;
    proof {
        reveal(Seq::filter);
        assert(iv.take(0) =~= Seq::<Seq<char>>::empty());
        assert(strings_view(out@) =~= iv.take(0).filter(practice_pred()));
    }
    while i < n
        invariant
            i <= n,
            n == insights@.len(),
            iv == strings_view(insights@),
            strings_view(out@) == iv.take(i as int).filter(practice_pred()),
        decreases n - i,
    {
        let t = chars_of(insights[i].as_str());
        let keep = contains_pat(&t, "should") || contains_pat(&t, "best") || contains_pat(
            &t,
            "recommend",
        );
        proof {
            reveal(Seq::filter);
            assert(iv.take(i + 1).drop_last() =~= iv.take(i as int));
            assert(iv.take(i + 1).last() == insights@[i as int]@);
        }
        if keep {
            out.push(insights[i].clone());
            proof {
                assert(strings_view(out@) =~= iv.take(i + 1).filter(practice_pred()));
            }
        } else {
            proof {
                assert(strings_view(out@) =~= iv.take(i + 1).filter(practice_pred()));
            }
        }
        i = i + 1;
    }
    proof {
        assert(iv.take(n as int) =~= iv);
    }
    out
}

/// Collects the insights that describe data shape.
fn filter_insights_pattern(insights: &Vec<String>) -> (r: Vec<String>)
    ensures
        strings_view(r@) == strings_view(insights@).filter(pattern_pred()),
{
    let ghost iv = strings_view(insights@);
    let n = insights.len();
    let mut out: Vec<String> = Vec::new();
    let mut i: usize = 0;
    proof {
        reveal(Seq::filter);
        assert(iv.take(0) =~= Seq::<Seq<char>>::empty());
        assert(strings_view(out@) =~= iv.take(0).filter(pattern_pred()));
    }
    while i < n
        invariant
            i <= n,
            n == insights@.len(),
            iv == strings_view(insights@),
            strings_view(out@) == iv.take(i as int).filter(pattern_pred()),
        decreases n - i,
    {
        let t = chars_of(insights[i].as_str());
        let keep = contains_pat(&t, "format") || contains_pat(&t, "data") || contains_pat(
            &t,
            "example",
        );
        proof {
            reveal(Seq::filter);
            assert(iv.take(i + 1).drop_last() =~= iv.take(i as int));
            assert(iv.take(i + 1).last() == insights@[i as int]@);
        }
        if keep {
            out.push(insights[i].clone());
        }
        proof {
            assert(strings_view(out@) =~= iv.take(i + 1).filter(pattern_pred()));
        }
        i = i + 1;
    }
    proof {
        assert(iv.take(n as int) =~= iv);
    }
    out
}

/// Collects the insights that warn.
fn filter_insights_pitfall(insights: &Vec<String>) -> (r: Vec<String>)
    ensures
        strings_view(r@) == strings_view(insights@).filter(pitfall_pred()),
{
    let ghost iv = strings_view(insights@);
    let n = insights.len();
    let mut out: Vec<String> = Vec::new();
    let mut i: usize = 0;
    proof {
        reveal(Seq::filter);
        assert(iv.take(0) =~= Seq::<Seq<char>>::empty());
        assert(strings_view(out@) =~= iv.take(0).filter(pitfall_pred()));
    }
    while i < n
        invariant
            i <= n,
            n == insights@.len(),
            iv == strings_view(insights@),
            strings_view(out@) == iv.take(i as int).filter(pitfall_pred()),
        decreases n - i,
    {
        let t = chars_of(insights[i].as_str());
        let keep = contains_pat(&t, "avoid") || contains_pat(&t, "don't") || contains_pat(
            &t,
            "warning",
        );
        proof {
            reveal(Seq::filter);
            assert(iv.take(i + 1).drop_last() =~= iv.take(i as int));
            assert(iv.take(i + 1).last() == insights@[i as int]@);
        }
        if keep {
            out.push(insights[i].clone());
        }
        proof {
            assert(strings_view(out@) =~= iv.take(i + 1).filter(pitfall_pred()));
        }
        i = i + 1;
    }
    proof {
        assert(iv.take(n as int) =~= iv);
    }
    out
}

/// The first `n` items, or all of them when there are fewer.
pub open spec fn take_up_to(s: Seq<Seq<char>>, n: int) -> Seq<Seq<char>> {
    if s.len() <= n {
        s
    } else {
        s.take(n)
    }
}

/// Mines at most five parameter recommendations out of the insights that
/// name a tunable quantity.
fn mine_param_recommendations(insights: &Vec<String>) -> (r: Vec<ParameterRecommendation>)
    ensures
        r@.len() == take_up_to(strings_view(insights@).filter(param_pred()), 5).len(),
        forall|k: int| 0 <= k < r@.len() ==> {
            let fp = take_up_to(strings_view(insights@).filter(param_pred()), 5);
            &&& (#[trigger] r@[k]).name@ == param_name_spec(lower_of(fp[k]))
            &&& r@[k].value@ == param_value_spec(fp[k])
            &&& r@[k].rationale@ == fp[k]
        },
{
    let ghost iv = strings_view(insights@);
    let n = insights.len();
    let mut out: Vec<ParameterRecommendation> = Vec::new();
    let mut i: usize = 0;
    proof {
        reveal(Seq::filter);
        assert(iv.take(0) =~= Seq::<Seq<char>>::empty());
        assert(iv.take(0).filter(param_pred()) =~= Seq::<Seq<char>>::empty());
    }
    while i < n
        invariant
            i <= n,
            n == insights@.len(),
            iv == strings_view(insights@),
            out@.len() <= 5,
            out@.len() == take_up_to(iv.take(i as int).filter(param_pred()), 5).len(),
            forall|k: int| 0 <= k < out@.len() ==> {
                let fp = take_up_to(iv.take(i as int).filter(param_pred()), 5);
                &&& (#[trigger] out@[k]).name@ == param_name_spec(lower_of(fp[k]))
                &&& out@[k].value@ == param_value_spec(fp[k])
                &&& out@[k].rationale@ == fp[k]
            },
        decreases n - i,
    {
        let t = chars_of(insights[i].as_str());
        let keep = contains_pat(&t, "rate") || contains_pat(&t, "batch") || contains_pat(
            &t,
            "rank",
        );
        let ghost base = iv.take(i as int).filter(param_pred());
        proof {
            reveal(Seq::filter);
            assert(iv.take(i + 1).drop_last() =~= iv.take(i as int));
            assert(iv.take(i + 1).last() == insights@[i as int]@);
        }
        if keep {
            if out.len() < 5 {
                proof {
                    assert(take_up_to(base, 5) == base);
                    assert(take_up_to(iv.take(i + 1).filter(param_pred()), 5) == base.push(
                        insights@[i as int]@,
                    ));
                }
                let name = extract_param_name(insights[i].as_str());
                let value = extract_param_value(insights[i].as_str());
                let rationale = insights[i].clone();
                out.push(ParameterRecommendation { name, value, rationale });
            } else {
                proof {
                    assert(base.len() >= 5);
                    assert(base.push(insights@[i as int]@).take(5) =~= base.take(5));
                    assert(take_up_to(iv.take(i + 1).filter(param_pred()), 5) == base.take(5));
                    assert(take_up_to(base, 5) == base.take(5));
                }
            }
        }
        i = i + 1;
    }
    proof {
        assert(iv.take(n as int) =~= iv);
    }
    out
}

/// Structures finished research insights into training guidance: up to
/// five parameter recommendations mined from quantity-naming insights, and
/// the practice, data-shape and warning insights, each kept in order.
pub fn ml_result_from_insights(insights: &Vec<String>) -> (r: MLResearchResult)
    ensures
        strings_view(r.best_practices@) == strings_view(insights@).filter(practice_pred()),
        strings_view(r.data_patterns@) == strings_view(insights@).filter(pattern_pred()),
        strings_view(r.pitfalls@) == strings_view(insights@).filter(pitfall_pred()),
        r.recommended_params@.len() == take_up_to(
            strings_view(insights@).filter(param_pred()),
            5,
        ).len(),
        forall|k: int| 0 <= k < r.recommended_params@.len() ==> {
            let fp = take_up_to(strings_view(insights@).filter(param_pred()), 5);
            &&& (#[trigger] r.recommended_params@[k]).name@ == param_name_spec(lower_of(fp[k]))
            &&& r.recommended_params@[k].value@ == param_value_spec(fp[k])
            &&& r.recommended_params@[k].rationale@ == fp[k]
        },
{
    MLResearchResult {
        recommended_params: mine_param_recommendations(insights),
        best_practices: filter_insights_practice(insights),
        data_patterns: filter_insights_pattern(insights),
        pitfalls: filter_insights_pitfall(insights),
    }
}

} // verus!
