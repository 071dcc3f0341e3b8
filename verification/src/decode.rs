//! Typed decoding of the reply schemas the reasoning agents produce:
//! a parsed intent, a validation report and a configuration recommendation.
//! Decoding is specified field by field, and re-decoding an encoded value
//! gives the value back.

use vstd::prelude::*;

use crate::json::{
    fields_model, items_model, json_clone, json_parse, lookup, lookup_model, parse_json_text,
    strings_view, JsonKind, JsonModel, JsonValue,
};

verus! {

/// Why a reply failed to decode: the text was not JSON at all, or a field
/// was missing or of the wrong shape.
#[derive(Debug, PartialEq, Eq)]
pub enum DecodeError {
    /// The raw text, and the parser's own message.
    Malformed(String, String),
    /// The field that failed, and the shape it was expected to have.
    SchemaMismatch(String, JsonKind),
}

// ---------------------------------------------------------------------------
// Parsed intent
// ---------------------------------------------------------------------------

/// A user intent parsed from natural language. The confidence is kept as
/// the decimal text of the number the reply carried.
#[derive(Debug)]
pub struct ParsedIntent {
    pub intent: String,
    pub entities: JsonValue,
    pub confidence: String,
    pub clarification_needed: Option<String>,
}

/// The mathematical shape of a parsed intent.
pub struct IntentModel {
    pub intent: Seq<char>,
    pub entities: JsonModel,
    pub confidence: Seq<char>,
    pub clarification_needed: Option<Seq<char>>,
}

impl ParsedIntent {
    /// The shape of this value.
    pub open spec fn model(self) -> IntentModel {
        IntentModel {
            intent: self.intent@,
            entities: self.entities.model(),
            confidence: self.confidence@,
            clarification_needed: match self.clarification_needed {
                Some(s) => Some(s@),
                None => None,
            },
        }
    }
}

/// What decoding an intent reply yields on a document of shape `m`:
/// `intent` must be text, `entities` must be present with any shape,
/// `confidence` must be a number, and `clarification_needed` may be absent,
/// null or text.
pub open spec fn intent_of(m: JsonModel) -> Result<IntentModel, (Seq<char>, JsonKind)> {
    match m {
        JsonModel::Object(fs) => match lookup_model(fs, "intent"@) {
            Some(JsonModel::Text(s)) => match lookup_model(fs, "entities"@) {
                Some(e) => match lookup_model(fs, "confidence"@) {
                    Some(JsonModel::Number(c)) => match lookup_model(
                        fs,
                        "clarification_needed"@,
                    ) {
                        None => Ok(
                            IntentModel {
                                intent: s,
                                entities: e,
                                confidence: c,
                                clarification_needed: None,
                            },
                        ),
                        Some(JsonModel::Null) => Ok(
                            IntentModel {
                                intent: s,
                                entities: e,
                                confidence: c,
                                clarification_needed: None,
                            },
                        ),
                        Some(JsonModel::Text(t)) => Ok(
                            IntentModel {
                                intent: s,
                                entities: e,
                                confidence: c,
                                clarification_needed: Some(t),
                            },
                        ),
                        Some(_) => Err(("clarification_needed"@, JsonKind::Text)),
                    },
                    _ => Err(("confidence"@, JsonKind::Number)),
                },
                None => Err(("entities"@, JsonKind::Any)),
            },
            _ => Err(("intent"@, JsonKind::Text)),
        },
        _ => Err(("$"@, JsonKind::Object)),
    }
}

/// Decodes an intent reply from a parsed document.
pub fn decode_intent_value(v: &JsonValue) -> (r: Result<ParsedIntent, DecodeError>)
    ensures
        match r {
            Ok(t) => intent_of(v.model()) == Ok::<IntentModel, (Seq<char>, JsonKind)>(t.model()),
            Err(e) => e matches DecodeError::SchemaMismatch(f, k) && intent_of(v.model())
                == Err::<IntentModel, (Seq<char>, JsonKind)>((f@, k)),
        },
{
    let fields = match v {
        JsonValue::Object(fs) => fs,
        _ => {
            return Err(DecodeError::SchemaMismatch("$".to_owned(), JsonKind::Object));
        },
    };
    proof {
        assert(v.model()->Object_0 =~= fields_model(fields@));
    }
    let intent = match lookup(fields, "intent") {
        Some(JsonValue::Text(s)) => s.clone(),
        _ => {
            return Err(DecodeError::SchemaMismatch("intent".to_owned(), JsonKind::Text));
        },
    };
    let entities = match lookup(fields, "entities") {
        Some(x) => json_clone(x),
        None => {
            return Err(DecodeError::SchemaMismatch("entities".to_owned(), JsonKind::Any));
        },
    };
    let confidence = match lookup(fields, "confidence") {
        Some(JsonValue::Number(s)) => s.clone(),
        _ => {
            return Err(DecodeError::SchemaMismatch("confidence".to_owned(), JsonKind::Number));
        },
    };
    let clarification_needed = match lookup(fields, "clarification_needed") {
        None => None,
        Some(JsonValue::Null) => None,
        Some(JsonValue::Text(s)) => Some(s.clone()),
        Some(_) => {
            return Err(
                DecodeError::SchemaMismatch("clarification_needed".to_owned(), JsonKind::Text),
            );
        },
    };
    Ok(ParsedIntent { intent, entities, confidence, clarification_needed })
}

/// Law: re-decoding the serialization of a decoded intent yields the same
/// value; decoding is idempotent across one encode step.
pub fn intent_to_json(t: ParsedIntent) -> (r: JsonValue)
    ensures
        intent_of(r.model()) == Ok::<IntentModel, (Seq<char>, JsonKind)>(t.model()),
{
    let ghost m = t.model();
    let mut fields: Vec<(String, JsonValue)> = Vec::new();
    fields.push(("intent".to_owned(), JsonValue::Text(t.intent)));
    fields.push(("entities".to_owned(), t.entities));
    fields.push(("confidence".to_owned(), JsonValue::Number(t.confidence)));
    let had_clarification = match t.clarification_needed {
        Some(s) => {
            fields.push(("clarification_needed".to_owned(), JsonValue::Text(s)));
            true
        },
        None => false,
    };
    let r = JsonValue::Object(fields);
    proof {
        reveal_strlit("intent");
        reveal_strlit("entities");
        reveal_strlit("confidence");
        reveal_strlit("clarification_needed");
        assert("intent"@.len() == 6);
        assert("entities"@.len() == 8);
        assert("confidence"@.len() == 10);
        assert("clarification_needed"@.len() == 20);
        let fm = r.model()->Object_0;
        assert(fm =~= fields_model(fields@));
        assert(fm[0] == ("intent"@, JsonModel::Text(m.intent)));
        assert(lookup_model(fm, "intent"@) == Some(JsonModel::Text(m.intent)));
        assert(lookup_model(fm, "entities"@) == lookup_model(fm.drop_first(), "entities"@));
        assert(fm.drop_first()[0] == ("entities"@, m.entities));
        assert(lookup_model(fm, "entities"@) == Some(m.entities));
        assert(lookup_model(fm, "confidence"@) == lookup_model(fm.drop_first(), "confidence"@));
        assert(fm.drop_first().drop_first()[0] == ("confidence"@, JsonModel::Number(m.confidence)));
        assert(lookup_model(fm.drop_first(), "confidence"@) == lookup_model(
            fm.drop_first().drop_first(),
            "confidence"@,
        ));
        assert(lookup_model(fm, "confidence"@) == Some(JsonModel::Number(m.confidence)));
        let key = "clarification_needed"@;
        assert(lookup_model(fm, key) == lookup_model(fm.drop_first(), key));
        assert(lookup_model(fm.drop_first(), key) == lookup_model(
            fm.drop_first().drop_first(),
            key,
        ));
        assert(lookup_model(fm.drop_first().drop_first(), key) == lookup_model(
            fm.drop_first().drop_first().drop_first(),
            key,
        ));
        if had_clarification {
            assert(fm.drop_first().drop_first().drop_first()[0] == (
                key,
                JsonModel::Text(m.clarification_needed->0),
            ));
            assert(lookup_model(fm, key) == Some(JsonModel::Text(m.clarification_needed->0)));
        } else {
            assert(fm.drop_first().drop_first().drop_first() =~= Seq::<
                (Seq<char>, JsonModel),
            >::empty());
            assert(lookup_model(fm, key) is None);
        }
        assert(intent_of(r.model()) == Ok::<IntentModel, (Seq<char>, JsonKind)>(m));
    }
    r
}

/// Decodes an intent reply from raw text: a parse failure is `Malformed`
/// with the original text and the parser's message, and a shape failure is
/// the mismatch `intent_of` assigns.
pub fn decode_intent(raw: &str) -> (r: Result<ParsedIntent, DecodeError>)
    ensures
        json_parse(raw@) is None ==> (r matches Err(e) && e matches DecodeError::Malformed(t, _)
            && t@ == raw@),
        json_parse(raw@) matches Some(m) ==> match r {
            Ok(t) => intent_of(m) == Ok::<IntentModel, (Seq<char>, JsonKind)>(t.model()),
            Err(e) => e matches DecodeError::SchemaMismatch(f, k) && intent_of(m) == Err::<
                IntentModel,
                (Seq<char>, JsonKind),
            >((f@, k)),
        },
{
    match parse_json_text(raw) {
        Ok(v) => decode_intent_value(&v),
        Err(msg) => Err(DecodeError::Malformed(raw.to_owned(), msg)),
    }
}

// ---------------------------------------------------------------------------
// Arrays of text and arrays of arbitrary documents
// ---------------------------------------------------------------------------

/// The texts of an all-text array, or nothing if some item is not text.
pub open spec fn strings_of(s: Seq<JsonModel>) -> Option<Seq<Seq<char>>>
    decreases s.len(),
{
    if s.len() == 0 {
        Some(Seq::empty())
    } else {
        match s[0] {
            JsonModel::Text(t) => match strings_of(s.drop_first()) {
                Some(rest) => Some(seq![t] + rest),
                None => None,
            },
            _ => None,
        }
    }
}

/// An all-text sequence decodes to its texts.
proof fn lemma_strings_of_all(s: Seq<JsonModel>, out: Seq<Seq<char>>)
    requires
        s.len() == out.len(),
        forall|j: int| 0 <= j < s.len() ==> s[j] == JsonModel::Text(out[j]),
    ensures
        strings_of(s) == Some(out),
    decreases s.len(),
{
    if s.len() > 0 {
        lemma_strings_of_all(s.drop_first(), out.drop_first());
        assert(seq![out[0]] + out.drop_first() =~= out);
    }
}

/// A sequence with a non-text item does not decode.
proof fn lemma_strings_of_fail(s: Seq<JsonModel>, i: int)
    requires
        0 <= i < s.len(),
        !(s[i] is Text),
        forall|j: int| 0 <= j < i ==> s[j] is Text,
    ensures
        strings_of(s) is None,
    decreases s.len(),
{
    if i > 0 {
        lemma_strings_of_fail(s.drop_first(), i - 1);
    }
}

/// Decodes an array expected to hold only text.
pub fn decode_strings(a: &Vec<JsonValue>) -> (r: Option<Vec<String>>)
    ensures
        match r {
            Some(out) => strings_of(items_model(a@)) == Some(strings_view(out@)),
            None => strings_of(items_model(a@)) is None,
        },
{
    let n = a.len();
    let mut out: Vec<String> = Vec::new();
    let mut i: usize = 0;
    while i < n
        invariant
            i <= n,
            n == a@.len(),
            out@.len() == i,
            forall|j: int| 0 <= j < i ==> a@[j].model() == JsonModel::Text((#[trigger] out@[j])@),
        decreases n - i,
    {
        match &a[i] {
            JsonValue::Text(s) => {
                out.push(s.clone());
            },
            _ => {
                proof {
                    assert forall|j: int| 0 <= j < i implies items_model(a@)[j] is Text by {
                        assert(a@[j].model() == JsonModel::Text(out@[j]@));
                        assert(items_model(a@)[j] == a@[j].model());
                    }
                    lemma_strings_of_fail(items_model(a@), i as int);
                }
                return None;
            },
        }
        i = i + 1;
    }
    proof {
        assert forall|j: int| 0 <= j < n implies items_model(a@)[j] == JsonModel::Text(
            strings_view(out@)[j],
        ) by {
            assert(items_model(a@)[j] == a@[j].model());
            assert(strings_view(out@)[j] == out@[j]@);
        }
        lemma_strings_of_all(items_model(a@), strings_view(out@));
    }
    Some(out)
}

/// Encodes a list of strings as an all-text array.
pub fn strings_to_json(v: Vec<String>) -> (r: Vec<JsonValue>)
    ensures
        strings_of(items_model(r@)) == Some(strings_view(v@)),
{
    let n = v.len();
    let mut out: Vec<JsonValue> = Vec::new();
    let mut i: usize = 0;
    while i < n
        invariant
            i <= n,
            n == v@.len(),
            out@.len() == i,
            forall|j: int| 0 <= j < i ==> (#[trigger] out@[j]).model() == JsonModel::Text(v@[j]@),
        decreases n - i,
    {
        out.push(JsonValue::Text(v[i].clone()));
        i = i + 1;
    }
    proof {
        assert forall|j: int| 0 <= j < n implies items_model(out@)[j] == JsonModel::Text(
            strings_view(v@)[j],
        ) by {
            assert(items_model(out@)[j] == out@[j].model());
            assert(strings_view(v@)[j] == v@[j]@);
        }
        lemma_strings_of_all(items_model(out@), strings_view(v@));
    }
    out
}

/// Copies an array of documents; the copy has the same item shapes.
pub fn clone_array(a: &Vec<JsonValue>) -> (r: Vec<JsonValue>)
    ensures
        items_model(r@) == items_model(a@),
{
    let n = a.len();
    let mut out: Vec<JsonValue> = Vec::new();
    let mut i: usize = 0;
    while i < n
        invariant
            i <= n,
            n == a@.len(),
            out@.len() == i,
            forall|j: int| 0 <= j < i ==> (#[trigger] out@[j].model()) == a@[j].model(),
        decreases n - i,
    {
        out.push(json_clone(&a[i]));
        i = i + 1;
    }
    proof {
        assert(items_model(out@) =~= items_model(a@));
    }
    out
}

// ---------------------------------------------------------------------------
// Validation report
// ---------------------------------------------------------------------------

/// One issue a validation reply lists.
#[derive(Debug)]
pub struct ValidationIssue {
    pub severity: String,
    pub message: String,
    pub location: Option<String>,
}

/// The mathematical shape of an issue.
pub struct IssueModel {
    pub severity: Seq<char>,
    pub message: Seq<char>,
    pub location: Option<Seq<char>>,
}

impl ValidationIssue {
    /// The shape of this value.
    pub open spec fn model(self) -> IssueModel {
        IssueModel {
            severity: self.severity@,
            message: self.message@,
            location: match self.location {
                Some(s) => Some(s@),
                None => None,
            },
        }
    }
}

/// What decoding one issue yields: `severity` and `message` must be text,
/// `location` may be absent, null or text.
pub open spec fn issue_of(m: JsonModel) -> Result<IssueModel, (Seq<char>, JsonKind)> {
    match m {
        JsonModel::Object(fs) => match lookup_model(fs, "severity"@) {
            Some(JsonModel::Text(sev)) => match lookup_model(fs, "message"@) {
                Some(JsonModel::Text(msg)) => match lookup_model(fs, "location"@) {
                    None => Ok(IssueModel { severity: sev, message: msg, location: None }),
                    Some(JsonModel::Null) => Ok(
                        IssueModel { severity: sev, message: msg, location: None },
                    ),
                    Some(JsonModel::Text(loc)) => Ok(
                        IssueModel { severity: sev, message: msg, location: Some(loc) },
                    ),
                    Some(_) => Err(("location"@, JsonKind::Text)),
                },
                _ => Err(("message"@, JsonKind::Text)),
            },
            _ => Err(("severity"@, JsonKind::Text)),
        },
        _ => Err(("$"@, JsonKind::Object)),
    }
}

/// Decodes one issue from a parsed document.
pub fn decode_issue_value(v: &JsonValue) -> (r: Result<ValidationIssue, DecodeError>)
    ensures
        match r {
            Ok(t) => issue_of(v.model()) == Ok::<IssueModel, (Seq<char>, JsonKind)>(t.model()),
            Err(e) => e matches DecodeError::SchemaMismatch(f, k) && issue_of(v.model()) == Err::<
                IssueModel,
                (Seq<char>, JsonKind),
            >((f@, k)),
        },
{
    let fields = match v {
        JsonValue::Object(fs) => fs,
        _ => {
            return Err(DecodeError::SchemaMismatch("$".to_owned(), JsonKind::Object));
        },
    };
    proof {
        assert(v.model()->Object_0 =~= fields_model(fields@));
    }
    let severity = match lookup(fields, "severity") {
        Some(JsonValue::Text(s)) => s.clone(),
        _ => {
            return Err(DecodeError::SchemaMismatch("severity".to_owned(), JsonKind::Text));
        },
    };
    let message = match lookup(fields, "message") {
        Some(JsonValue::Text(s)) => s.clone(),
        _ => {
            return Err(DecodeError::SchemaMismatch("message".to_owned(), JsonKind::Text));
        },
    };
    let location = match lookup(fields, "location") {
        None => None,
        Some(JsonValue::Null) => None,
        Some(JsonValue::Text(s)) => Some(s.clone()),
        Some(_) => {
            return Err(DecodeError::SchemaMismatch("location".to_owned(), JsonKind::Text));
        },
    };
    Ok(ValidationIssue { severity, message, location })
}

/// Law: re-decoding an encoded issue yields the same value.
pub fn issue_to_json(t: ValidationIssue) -> (r: JsonValue)
    ensures
        issue_of(r.model()) == Ok::<IssueModel, (Seq<char>, JsonKind)>(t.model()),
{
    let ghost m = t.model();
    let mut fields: Vec<(String, JsonValue)> = Vec::new();
    fields.push(("severity".to_owned(), JsonValue::Text(t.severity)));
    fields.push(("message".to_owned(), JsonValue::Text(t.message)));
    let had_location = match t.location {
        Some(s) => {
            fields.push(("location".to_owned(), JsonValue::Text(s)));
            true
        },
        None => false,
    };
    let r = JsonValue::Object(fields);
    proof {
        reveal_strlit("severity");
        reveal_strlit("message");
        reveal_strlit("location");
        assert("severity"@.len() == 8);
        assert("message"@.len() == 7);
        assert("location"@.len() == 8);
        assert("severity"@[0] != "location"@[0]);
        let fm = r.model()->Object_0;
        assert(fm =~= fields_model(fields@));
        assert(fm[0] == ("severity"@, JsonModel::Text(m.severity)));
        assert(lookup_model(fm, "severity"@) == Some(JsonModel::Text(m.severity)));
        assert(lookup_model(fm, "message"@) == lookup_model(fm.drop_first(), "message"@));
        assert(fm.drop_first()[0] == ("message"@, JsonModel::Text(m.message)));
        assert(lookup_model(fm, "message"@) == Some(JsonModel::Text(m.message)));
        let key = "location"@;
        assert(lookup_model(fm, key) == lookup_model(fm.drop_first(), key));
        assert(lookup_model(fm.drop_first(), key) == lookup_model(
            fm.drop_first().drop_first(),
            key,
        ));
        if had_location {
            assert(fm.drop_first().drop_first()[0] == (key, JsonModel::Text(m.location->0)));
            assert(lookup_model(fm, key) == Some(JsonModel::Text(m.location->0)));
        } else {
            assert(fm.drop_first().drop_first() =~= Seq::<(Seq<char>, JsonModel)>::empty());
            assert(lookup_model(fm, key) is None);
        }
        assert(issue_of(r.model()) == Ok::<IssueModel, (Seq<char>, JsonKind)>(m));
    }
    r
}

/// The issues of an array, or the first mismatch among them.
pub open spec fn issues_of(s: Seq<JsonModel>) -> Result<Seq<IssueModel>, (Seq<char>, JsonKind)>
    decreases s.len(),
{
    if s.len() == 0 {
        Ok(Seq::empty())
    } else {
        match issue_of(s[0]) {
            Ok(m) => match issues_of(s.drop_first()) {
                Ok(rest) => Ok(seq![m] + rest),
                Err(e) => Err(e),
            },
            Err(e) => Err(e),
        }
    }
}

/// The views of a list of issues.
pub open spec fn issues_view(s: Seq<ValidationIssue>) -> Seq<IssueModel> {
    Seq::new(
        s.len(),
        |i: int| if 0 <= i < s.len() { s[i].model() } else { IssueModel { severity: Seq::empty(), message: Seq::empty(), location: None } },
    )
}

/// A sequence of well-shaped issues decodes to their models.
proof fn lemma_issues_of_all(s: Seq<JsonModel>, out: Seq<IssueModel>)
    requires
        s.len() == out.len(),
        forall|j: int| 0 <= j < s.len() ==> (#[trigger] issue_of(s[j])) == Ok::<
            IssueModel,
            (Seq<char>, JsonKind),
        >(out[j]),
    ensures
        issues_of(s) == Ok::<Seq<IssueModel>, (Seq<char>, JsonKind)>(out),
    decreases s.len(),
{
    if s.len() > 0 {
        assert(issue_of(s[0]) == Ok::<IssueModel, (Seq<char>, JsonKind)>(out[0]));
        assert forall|j: int| 0 <= j < s.drop_first().len() implies issue_of(s.drop_first()[j])
            == Ok::<IssueModel, (Seq<char>, JsonKind)>(out.drop_first()[j]) by {
            assert(s.drop_first()[j] == s[j + 1]);
            assert(out.drop_first()[j] == out[j + 1]);
            assert(issue_of(s[j + 1]) == Ok::<IssueModel, (Seq<char>, JsonKind)>(out[j + 1]));
        }
        lemma_issues_of_all(s.drop_first(), out.drop_first());
        assert(seq![out[0]] + out.drop_first() =~= out);
    } else {
        assert(out =~= Seq::<IssueModel>::empty());
    }
}

/// The first ill-shaped issue settles the error.
proof fn lemma_issues_of_fail(s: Seq<JsonModel>, i: int, e: (Seq<char>, JsonKind))
    requires
        0 <= i < s.len(),
        issue_of(s[i]) == Err::<IssueModel, (Seq<char>, JsonKind)>(e),
        forall|j: int| 0 <= j < i ==> issue_of(s[j]) is Ok,
    ensures
        issues_of(s) == Err::<Seq<IssueModel>, (Seq<char>, JsonKind)>(e),
    decreases s.len(),
{
    if i > 0 {
        lemma_issues_of_fail(s.drop_first(), i - 1, e);
    }
}

/// Decodes an array of issues.
pub fn decode_issues(a: &Vec<JsonValue>) -> (r: Result<Vec<ValidationIssue>, DecodeError>)
    ensures
        match r {
            Ok(out) => issues_of(items_model(a@)) == Ok::<Seq<IssueModel>, (Seq<char>, JsonKind)>(
                issues_view(out@),
            ),
            Err(e) => e matches DecodeError::SchemaMismatch(f, k) && issues_of(items_model(a@))
                == Err::<Seq<IssueModel>, (Seq<char>, JsonKind)>((f@, k)),
        },
{
    let n = a.len();
    let mut out: Vec<ValidationIssue> = Vec::new();
    let mut i: usize = 0;
    while i < n
        invariant
            i <= n,
            n == a@.len(),
            out@.len() == i,
            forall|j: int| 0 <= j < i ==> issue_of(a@[j].model()) == Ok::<
                IssueModel,
                (Seq<char>, JsonKind),
            >((#[trigger] out@[j]).model()),
        decreases n - i,
    {
        match decode_issue_value(&a[i]) {
            Ok(issue) => {
                out.push(issue);
            },
            Err(e) => {
                proof {
                    let ghost ee = match &e {
                        DecodeError::SchemaMismatch(f, k) => (f@, *k),
                        _ => (Seq::empty(), JsonKind::Any),
                    };
                    assert forall|j: int| 0 <= j < i implies issue_of(
                        items_model(a@)[j],
                    ) is Ok by {
                        assert(issue_of(a@[j].model()) == Ok::<IssueModel, (Seq<char>, JsonKind)>(
                            out@[j].model(),
                        ));
                        assert(items_model(a@)[j] == a@[j].model());
                    }
                    assert(items_model(a@)[i as int] == a@[i as int].model());
                    lemma_issues_of_fail(items_model(a@), i as int, ee);
                }
                return Err(e);
            },
        }
        i = i + 1;
    }
    proof {
        assert forall|j: int| 0 <= j < n implies issue_of(items_model(a@)[j]) == Ok::<
            IssueModel,
            (Seq<char>, JsonKind),
        >(issues_view(out@)[j]) by {
            assert(items_model(a@)[j] == a@[j].model());
            assert(issues_view(out@)[j] == out@[j].model());
        }
        lemma_issues_of_all(items_model(a@), issues_view(out@));
    }
    Ok(out)
}

/// Encodes a list of issues as an array.
pub fn issues_to_json(v: Vec<ValidationIssue>) -> (r: Vec<JsonValue>)
    ensures
        issues_of(items_model(r@)) == Ok::<Seq<IssueModel>, (Seq<char>, JsonKind)>(
            issues_view(v@),
        ),
{
    let ghost vm = issues_view(v@);
    let n = v.len();
    let mut v = v;
    let mut out: Vec<JsonValue> = Vec::new();
    let mut i: usize = 0;
    while i < n
        invariant
            i <= n,
            n == vm.len(),
            v@.len() == n - i,
            forall|j: int| 0 <= j < v@.len() ==> (#[trigger] v@[j]).model() == vm[i + j],
            out@.len() == i,
            forall|j: int| 0 <= j < i ==> issue_of((#[trigger] out@[j]).model()) == Ok::<
                IssueModel,
                (Seq<char>, JsonKind),
            >(vm[j]),
        decreases n - i,
    {
        let issue = v.remove(0);
        let enc = issue_to_json(issue);
        out.push(enc);
        i = i + 1;
    }
    proof {
        assert forall|j: int| 0 <= j < n implies issue_of(items_model(out@)[j]) == Ok::<
            IssueModel,
            (Seq<char>, JsonKind),
        >(vm[j]) by {
            assert(items_model(out@)[j] == out@[j].model());
        }
        lemma_issues_of_all(items_model(out@), vm);
    }
    out
}

/// A data-quality validation reply.
#[derive(Debug)]
pub struct ValidationResult {
    pub valid: bool,
    pub issues: Vec<ValidationIssue>,
    pub stats: JsonValue,
    pub recommendations: Vec<String>,
}

/// The mathematical shape of a validation reply.
pub struct ValidationModel {
    pub valid: bool,
    pub issues: Seq<IssueModel>,
    pub stats: JsonModel,
    pub recommendations: Seq<Seq<char>>,
}

impl ValidationResult {
    /// The shape of this value.
    pub open spec fn model(self) -> ValidationModel {
        ValidationModel {
            valid: self.valid,
            issues: issues_view(self.issues@),
            stats: self.stats.model(),
            recommendations: strings_view(self.recommendations@),
        }
    }
}

/// What decoding a validation reply yields: `valid` must be a boolean,
/// `issues` an array of issues, `stats` present with any shape, and
/// `recommendations` an array of text.
pub open spec fn validation_of(m: JsonModel) -> Result<ValidationModel, (Seq<char>, JsonKind)> {
    match m {
        JsonModel::Object(fs) => match lookup_model(fs, "valid"@) {
            Some(JsonModel::Bool(b)) => match lookup_model(fs, "issues"@) {
                Some(JsonModel::Array(items)) => match issues_of(items) {
                    Ok(iss) => match lookup_model(fs, "stats"@) {
                        Some(st) => match lookup_model(fs, "recommendations"@) {
                            Some(JsonModel::Array(rec)) => match strings_of(rec) {
                                Some(rs) => Ok(
                                    ValidationModel {
                                        valid: b,
                                        issues: iss,
                                        stats: st,
                                        recommendations: rs,
                                    },
                                ),
                                None => Err(("recommendations"@, JsonKind::Text)),
                            },
                            _ => Err(("recommendations"@, JsonKind::Array)),
                        },
                        None => Err(("stats"@, JsonKind::Any)),
                    },
                    Err(e) => Err(e),
                },
                _ => Err(("issues"@, JsonKind::Array)),
            },
            _ => Err(("valid"@, JsonKind::Bool)),
        },
        _ => Err(("$"@, JsonKind::Object)),
    }
}

/// Decodes a validation reply from a parsed document.
pub fn decode_validation_value(v: &JsonValue) -> (r: Result<ValidationResult, DecodeError>)
    ensures
        match r {
            Ok(t) => validation_of(v.model()) == Ok::<ValidationModel, (Seq<char>, JsonKind)>(
                t.model(),
            ),
            Err(e) => e matches DecodeError::SchemaMismatch(f, k) && validation_of(v.model())
                == Err::<ValidationModel, (Seq<char>, JsonKind)>((f@, k)),
        },
{
    let fields = match v {
        JsonValue::Object(fs) => fs,
        _ => {
            return Err(DecodeError::SchemaMismatch("$".to_owned(), JsonKind::Object));
        },
    };
    proof {
        assert(v.model()->Object_0 =~= fields_model(fields@));
    }
    let valid = match lookup(fields, "valid") {
        Some(JsonValue::Bool(b)) => *b,
        _ => {
            return Err(DecodeError::SchemaMismatch("valid".to_owned(), JsonKind::Bool));
        },
    };
    let issues = match lookup(fields, "issues") {
        Some(JsonValue::Array(items)) => {
            proof {
                let iv = lookup_model(fields_model(fields@), "issues"@)->Some_0;
                assert(iv->Array_0 =~= items_model(items@));
            }
            match decode_issues(items) {
                Ok(iss) => iss,
                Err(e) => {
                    return Err(e);
                },
            }
        },
        _ => {
            return Err(DecodeError::SchemaMismatch("issues".to_owned(), JsonKind::Array));
        },
    };
    let stats = match lookup(fields, "stats") {
        Some(x) => json_clone(x),
        None => {
            return Err(DecodeError::SchemaMismatch("stats".to_owned(), JsonKind::Any));
        },
    };
    let recommendations = match lookup(fields, "recommendations") {
        Some(JsonValue::Array(rec)) => {
            proof {
                let rv = lookup_model(fields_model(fields@), "recommendations"@)->Some_0;
                assert(rv->Array_0 =~= items_model(rec@));
            }
            match decode_strings(rec) {
                Some(rs) => rs,
                None => {
                    return Err(
                        DecodeError::SchemaMismatch("recommendations".to_owned(), JsonKind::Text),
                    );
                },
            }
        },
        _ => {
            return Err(
                DecodeError::SchemaMismatch("recommendations".to_owned(), JsonKind::Array),
            );
        },
    };
    Ok(ValidationResult { valid, issues, stats, recommendations })
}

/// Law: re-decoding an encoded validation reply yields the same value.
pub fn validation_to_json(t: ValidationResult) -> (r: JsonValue)
    ensures
        validation_of(r.model()) == Ok::<ValidationModel, (Seq<char>, JsonKind)>(t.model()),
{
    let ghost m = t.model();
    let issues_enc = issues_to_json(t.issues);
    let recs_enc = strings_to_json(t.recommendations);
    let mut fields: Vec<(String, JsonValue)> = Vec::new();
    fields.push(("valid".to_owned(), JsonValue::Bool(t.valid)));
    fields.push(("issues".to_owned(), JsonValue::Array(issues_enc)));
    fields.push(("stats".to_owned(), t.stats));
    fields.push(("recommendations".to_owned(), JsonValue::Array(recs_enc)));
    let r = JsonValue::Object(fields);
    proof {
        reveal_strlit("valid");
        reveal_strlit("issues");
        reveal_strlit("stats");
        reveal_strlit("recommendations");
        assert("valid"@.len() == 5);
        assert("issues"@.len() == 6);
        assert("stats"@.len() == 5);
        assert("recommendations"@.len() == 15);
        assert("valid"@[0] != "stats"@[0]);
        let fm = r.model()->Object_0;
        assert(fm =~= fields_model(fields@));
        assert(fm[0] == ("valid"@, JsonModel::Bool(m.valid)));
        assert(lookup_model(fm, "valid"@) == Some(JsonModel::Bool(m.valid)));
        let issues_item = fm[1].1;
        assert(issues_item->Array_0 =~= items_model(issues_enc@));
        assert(lookup_model(fm, "issues"@) == lookup_model(fm.drop_first(), "issues"@));
        assert(lookup_model(fm, "issues"@) == Some(issues_item));
        assert(issues_of(issues_item->Array_0) == Ok::<Seq<IssueModel>, (Seq<char>, JsonKind)>(
            m.issues,
        ));
        assert(lookup_model(fm, "stats"@) == lookup_model(fm.drop_first(), "stats"@));
        assert(lookup_model(fm.drop_first(), "stats"@) == lookup_model(
            fm.drop_first().drop_first(),
            "stats"@,
        ));
        assert(fm.drop_first().drop_first()[0] == ("stats"@, m.stats));
        assert(lookup_model(fm, "stats"@) == Some(m.stats));
        let key = "recommendations"@;
        assert(lookup_model(fm, key) == lookup_model(fm.drop_first(), key));
        assert(lookup_model(fm.drop_first(), key) == lookup_model(
            fm.drop_first().drop_first(),
            key,
        ));
        assert(lookup_model(fm.drop_first().drop_first(), key) == lookup_model(
            fm.drop_first().drop_first().drop_first(),
            key,
        ));
        let recs_item = fm[3].1;
        assert(fm.drop_first().drop_first().drop_first()[0] == (key, recs_item));
        assert(lookup_model(fm, key) == Some(recs_item));
        assert(recs_item->Array_0 =~= items_model(recs_enc@));
        assert(strings_of(recs_item->Array_0) == Some(m.recommendations));
        assert(validation_of(r.model()) == Ok::<ValidationModel, (Seq<char>, JsonKind)>(m));
    }
    r
}

/// Decodes a validation reply from raw text.
pub fn decode_validation(raw: &str) -> (r: Result<ValidationResult, DecodeError>)
    ensures
        json_parse(raw@) is None ==> (r matches Err(e) && e matches DecodeError::Malformed(t, _)
            && t@ == raw@),
        json_parse(raw@) matches Some(m) ==> match r {
            Ok(t) => validation_of(m) == Ok::<ValidationModel, (Seq<char>, JsonKind)>(t.model()),
            Err(e) => e matches DecodeError::SchemaMismatch(f, k) && validation_of(m) == Err::<
                ValidationModel,
                (Seq<char>, JsonKind),
            >((f@, k)),
        },
{
    match parse_json_text(raw) {
        Ok(v) => decode_validation_value(&v),
        Err(msg) => Err(DecodeError::Malformed(raw.to_owned(), msg)),
    }
}

// ---------------------------------------------------------------------------
// Configuration recommendation
// ---------------------------------------------------------------------------

/// A training-configuration recommendation reply.
#[derive(Debug)]
pub struct ConfigRecommendation {
    pub recommended_config: JsonValue,
    pub reasoning: String,
    pub alternatives: Vec<JsonValue>,
    pub warnings: Vec<String>,
}

/// The mathematical shape of a configuration recommendation.
pub struct ConfigModel {
    pub recommended_config: JsonModel,
    pub reasoning: Seq<char>,
    pub alternatives: Seq<JsonModel>,
    pub warnings: Seq<Seq<char>>,
}

impl ConfigRecommendation {
    /// The shape of this value.
    pub open spec fn model(self) -> ConfigModel {
        ConfigModel {
            recommended_config: self.recommended_config.model(),
            reasoning: self.reasoning@,
            alternatives: items_model(self.alternatives@),
            warnings: strings_view(self.warnings@),
        }
    }
}

/// What decoding a configuration reply yields: `recommended_config` must be
/// present with any shape, `reasoning` must be text, `alternatives` an
/// array of any documents, and `warnings` an array of text.
pub open spec fn config_of(m: JsonModel) -> Result<ConfigModel, (Seq<char>, JsonKind)> {
    match m {
        JsonModel::Object(fs) => match lookup_model(fs, "recommended_config"@) {
            Some(rc) => match lookup_model(fs, "reasoning"@) {
                Some(JsonModel::Text(rs)) => match lookup_model(fs, "alternatives"@) {
                    Some(JsonModel::Array(alts)) => match lookup_model(fs, "warnings"@) {
                        Some(JsonModel::Array(ws)) => match strings_of(ws) {
                            Some(wss) => Ok(
                                ConfigModel {
                                    recommended_config: rc,
                                    reasoning: rs,
                                    alternatives: alts,
                                    warnings: wss,
                                },
                            ),
                            None => Err(("warnings"@, JsonKind::Text)),
                        },
                        _ => Err(("warnings"@, JsonKind::Array)),
                    },
                    _ => Err(("alternatives"@, JsonKind::Array)),
                },
                _ => Err(("reasoning"@, JsonKind::Text)),
            },
            None => Err(("recommended_config"@, JsonKind::Any)),
        },
        _ => Err(("$"@, JsonKind::Object)),
    }
}

/// Decodes a configuration reply from a parsed document.
pub fn decode_config_value(v: &JsonValue) -> (r: Result<ConfigRecommendation, DecodeError>)
    ensures
        match r {
            Ok(t) => config_of(v.model()) == Ok::<ConfigModel, (Seq<char>, JsonKind)>(t.model()),
            Err(e) => e matches DecodeError::SchemaMismatch(f, k) && config_of(v.model()) == Err::<
                ConfigModel,
                (Seq<char>, JsonKind),
            >((f@, k)),
        },
{
    let fields = match v {
        JsonValue::Object(fs) => fs,
        _ => {
            return Err(DecodeError::SchemaMismatch("$".to_owned(), JsonKind::Object));
        },
    };
    proof {
        assert(v.model()->Object_0 =~= fields_model(fields@));
    }
    let recommended_config = match lookup(fields, "recommended_config") {
        Some(x) => json_clone(x),
        None => {
            return Err(
                DecodeError::SchemaMismatch("recommended_config".to_owned(), JsonKind::Any),
            );
        },
    };
    let reasoning = match lookup(fields, "reasoning") {
        Some(JsonValue::Text(s)) => s.clone(),
        _ => {
            return Err(DecodeError::SchemaMismatch("reasoning".to_owned(), JsonKind::Text));
        },
    };
    let alternatives = match lookup(fields, "alternatives") {
        Some(JsonValue::Array(alts)) => {
            proof {
                let av = lookup_model(fields_model(fields@), "alternatives"@)->Some_0;
                assert(av->Array_0 =~= items_model(alts@));
            }
            clone_array(alts)
        },
        _ => {
            return Err(DecodeError::SchemaMismatch("alternatives".to_owned(), JsonKind::Array));
        },
    };
    let warnings = match lookup(fields, "warnings") {
        Some(JsonValue::Array(ws)) => {
            proof {
                let wv = lookup_model(fields_model(fields@), "warnings"@)->Some_0;
                assert(wv->Array_0 =~= items_model(ws@));
            }
            match decode_strings(ws) {
                Some(wss) => wss,
                None => {
                    return Err(
                        DecodeError::SchemaMismatch("warnings".to_owned(), JsonKind::Text),
                    );
                },
            }
        },
        _ => {
            return Err(DecodeError::SchemaMismatch("warnings".to_owned(), JsonKind::Array));
        },
    };
    Ok(ConfigRecommendation { recommended_config, reasoning, alternatives, warnings })
}

/// Law: re-decoding an encoded configuration reply yields the same value.
pub fn config_to_json(t: ConfigRecommendation) -> (r: JsonValue)
    ensures
        config_of(r.model()) == Ok::<ConfigModel, (Seq<char>, JsonKind)>(t.model()),
{
    let ghost m = t.model();
    let warns_enc = strings_to_json(t.warnings);
    let mut fields: Vec<(String, JsonValue)> = Vec::new();
    fields.push(("recommended_config".to_owned(), t.recommended_config));
    fields.push(("reasoning".to_owned(), JsonValue::Text(t.reasoning)));
    fields.push(("alternatives".to_owned(), JsonValue::Array(t.alternatives)));
    fields.push(("warnings".to_owned(), JsonValue::Array(warns_enc)));
    let r = JsonValue::Object(fields);
    proof {
        reveal_strlit("recommended_config");
        reveal_strlit("reasoning");
        reveal_strlit("alternatives");
        reveal_strlit("warnings");
        assert("recommended_config"@.len() == 18);
        assert("reasoning"@.len() == 9);
        assert("alternatives"@.len() == 12);
        assert("warnings"@.len() == 8);
        let fm = r.model()->Object_0;
        assert(fm =~= fields_model(fields@));
        assert(fm[0] == ("recommended_config"@, m.recommended_config));
        assert(lookup_model(fm, "recommended_config"@) == Some(m.recommended_config));
        assert(lookup_model(fm, "reasoning"@) == lookup_model(fm.drop_first(), "reasoning"@));
        assert(fm.drop_first()[0] == ("reasoning"@, JsonModel::Text(m.reasoning)));
        assert(lookup_model(fm, "reasoning"@) == Some(JsonModel::Text(m.reasoning)));
        assert(lookup_model(fm, "alternatives"@) == lookup_model(
            fm.drop_first(),
            "alternatives"@,
        ));
        assert(lookup_model(fm.drop_first(), "alternatives"@) == lookup_model(
            fm.drop_first().drop_first(),
            "alternatives"@,
        ));
        let alts_item = fm[2].1;
        assert(fm.drop_first().drop_first()[0] == ("alternatives"@, alts_item));
        assert(lookup_model(fm, "alternatives"@) == Some(alts_item));
        assert(alts_item->Array_0 =~= m.alternatives);
        let key = "warnings"@;
        assert(lookup_model(fm, key) == lookup_model(fm.drop_first(), key));
        assert(lookup_model(fm.drop_first(), key) == lookup_model(
            fm.drop_first().drop_first(),
            key,
        ));
        assert(lookup_model(fm.drop_first().drop_first(), key) == lookup_model(
            fm.drop_first().drop_first().drop_first(),
            key,
        ));
        let warns_item = fm[3].1;
        assert(fm.drop_first().drop_first().drop_first()[0] == (key, warns_item));
        assert(lookup_model(fm, key) == Some(warns_item));
        assert(warns_item->Array_0 =~= items_model(warns_enc@));
        assert(strings_of(warns_item->Array_0) == Some(m.warnings));
        assert(config_of(r.model()) == Ok::<ConfigModel, (Seq<char>, JsonKind)>(m));
    }
    r
}

/// Decodes a configuration reply from raw text.
pub fn decode_config(raw: &str) -> (r: Result<ConfigRecommendation, DecodeError>)
    ensures
        json_parse(raw@) is None ==> (r matches Err(e) && e matches DecodeError::Malformed(t, _)
            && t@ == raw@),
        json_parse(raw@) matches Some(m) ==> match r {
            Ok(t) => config_of(m) == Ok::<ConfigModel, (Seq<char>, JsonKind)>(t.model()),
            Err(e) => e matches DecodeError::SchemaMismatch(f, k) && config_of(m) == Err::<
                ConfigModel,
                (Seq<char>, JsonKind),
            >((f@, k)),
        },
{
    match parse_json_text(raw) {
        Ok(v) => decode_config_value(&v),
        Err(msg) => Err(DecodeError::Malformed(raw.to_owned(), msg)),
    }
}

} // verus!
