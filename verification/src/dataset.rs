//! Dataset handling: parsing uploaded files into training examples,
//! format detection, previews, and assembly of generated datasets.

use vstd::prelude::*;

use crate::json::{
    fields_model, items_model, json_parse, lookup, lookup_model, parse_json_text, JsonKind,
    JsonModel, JsonValue,
};
use crate::text::{
    chars_of, line_ranges, lines_spec, range_eq, split_char_spec, split_ranges, trim_range,
    trim_spec,
};

verus! {

/// One training example: an input, the wanted output, and an optional
/// system prompt.
#[derive(Debug, Clone)]
pub struct TrainingExample {
    pub input: String,
    pub output: String,
    pub system: Option<String>,
}

/// The mathematical shape of a training example.
pub struct ExampleModel {
    pub input: Seq<char>,
    pub output: Seq<char>,
    pub system: Option<Seq<char>>,
}

impl TrainingExample {
    /// The shape of this value.
    pub open spec fn model(self) -> ExampleModel {
        ExampleModel {
            input: self.input@,
            output: self.output@,
            system: match self.system {
                Some(s) => Some(s@),
                None => None,
            },
        }
    }
}

/// The views of a list of examples.
pub open spec fn examples_view(s: Seq<TrainingExample>) -> Seq<ExampleModel> {
    Seq::new(
        s.len(),
        |i: int| if 0 <= i < s.len() { s[i].model() } else { ExampleModel { input: Seq::empty(), output: Seq::empty(), system: None } },
    )
}

// ---------------------------------------------------------------------------
// CSV
// ---------------------------------------------------------------------------

/// The first column whose trimmed header is `a`, `b` or `c`.
pub open spec fn first_col(hs: Seq<Seq<char>>, a: Seq<char>, b: Seq<char>, c: Seq<char>, i: int) -> Option<int>
    decreases hs.len() - i + 1,
{
    if i < 0 || i >= hs.len() {
        None
    } else if hs[i] == a || hs[i] == b || hs[i] == c {
        Some(i)
    } else {
        first_col(hs, a, b, c, i + 1)
    }
}

/// The converse direction for `first_col`.
proof fn lemma_first_col_found(hs: Seq<Seq<char>>, a: Seq<char>, b: Seq<char>, c: Seq<char>, from: int, k: int)
    requires
        0 <= from <= k < hs.len(),
        hs[k] == a || hs[k] == b || hs[k] == c,
        forall|j: int| from <= j < k ==> hs[j] != a && hs[j] != b && hs[j] != c,
    ensures
        first_col(hs, a, b, c, from) == Some(k),
    decreases k - from,
{
    if from < k {
        lemma_first_col_found(hs, a, b, c, from + 1, k);
    }
}

/// Absence of the three headers settles a `None` answer.
proof fn lemma_first_col_none(hs: Seq<Seq<char>>, a: Seq<char>, b: Seq<char>, c: Seq<char>, from: int)
    requires
        from >= 0,
        forall|j: int| from <= j < hs.len() ==> hs[j] != a && hs[j] != b && hs[j] != c,
    ensures
        first_col(hs, a, b, c, from) is None,
    decreases hs.len() - from + 1,
{
    if from < hs.len() {
        lemma_first_col_none(hs, a, b, c, from + 1);
    }
}

/// Finds the first trimmed header equal to `a`, `b` or `c`.
fn find_col(
    text: &Vec<char>,
    trimmed: &Vec<(usize, usize)>,
    Ghost(hs): Ghost<Seq<Seq<char>>>,
    a: &str,
    b: &str,
    c: &str,
) -> (r: Option<usize>)
    requires
        trimmed@.len() == hs.len(),
        forall|j: int| 0 <= j < trimmed@.len() ==> (#[trigger] trimmed@[j]).0 <= trimmed@[j].1
            <= text@.len() && text@.subrange(trimmed@[j].0 as int, trimmed@[j].1 as int) == hs[j],
    ensures
        match r {
            Some(i) => i < hs.len() && first_col(hs, a@, b@, c@, 0) == Some(i as int),
            None => first_col(hs, a@, b@, c@, 0) is None,
        },
{
    let nh = trimmed.len();
    let mut k: usize = 0;
    while k < nh
        invariant
            k <= nh,
            nh == trimmed@.len(),
            nh == hs.len(),
            forall|j: int| 0 <= j < k ==> hs[j] != a@ && hs[j] != b@ && hs[j] != c@,
            forall|j: int| 0 <= j < trimmed@.len() ==> (#[trigger] trimmed@[j]).0 <= trimmed@[j].1
                <= text@.len() && text@.subrange(trimmed@[j].0 as int, trimmed@[j].1 as int)
                == hs[j],
        decreases nh - k,
    {
        let (p, q) = trimmed[k];
        if range_eq(text, p, q, a) || range_eq(text, p, q, b) || range_eq(text, p, q, c) {
            proof {
                lemma_first_col_found(hs, a@, b@, c@, 0, k as int);
            }
            return Some(k);
        }
        k = k + 1;
    }
    proof {
        lemma_first_col_none(hs, a@, b@, c@, 0);
    }
    None
}

/// The trimmed headers of a header line.
pub open spec fn headers_of(line: Seq<char>) -> Seq<Seq<char>> {
    let p = split_char_spec(line, ',');
    Seq::new(p.len(), |i: int| if 0 <= i < p.len() { trim_spec(p[i]) } else { Seq::empty() })
}

/// The examples the data rows yield, given the chosen column indices: a
/// row is skipped when blank or too short, and otherwise contributes its
/// input and output columns untrimmed, with the system column when the
/// row reaches it.
pub open spec fn csv_rows(
    ls: Seq<Seq<char>>,
    k: int,
    inx: int,
    outx: int,
    sysx: Option<int>,
) -> Seq<ExampleModel>
    decreases ls.len() - k + 1,
{
    if k < 1 || k >= ls.len() {
        Seq::empty()
    } else {
        let rest = csv_rows(ls, k + 1, inx, outx, sysx);
        let line = ls[k];
        if trim_spec(line).len() == 0 {
            rest
        } else {
            let cols = split_char_spec(line, ',');
            if cols.len() <= (if inx >= outx {
                inx
            } else {
                outx
            }) {
                rest
            } else {
                seq![
                    ExampleModel {
                        input: cols[inx],
                        output: cols[outx],
                        system: match sysx {
                            Some(si) => if si < cols.len() {
                                Some(cols[si])
                            } else {
                                None
                            },
                            None => None,
                        },
                    },
                ] + rest
            }
        }
    }
}

/// What parsing CSV text yields: the header line names the input column
/// (`input` or `prompt`) and the output column (`output`, `completion` or
/// `response`), optionally a `system` column, and each well-formed data
/// row contributes one example.
pub open spec fn csv_spec(s: Seq<char>) -> Result<Seq<ExampleModel>, Seq<char>> {
    let ls = lines_spec(s);
    if ls.len() == 0 {
        Err("Empty CSV file"@)
    } else {
        let hs = headers_of(ls[0]);
        match first_col(hs, "input"@, "prompt"@, "prompt"@, 0) {
            Some(inx) => match first_col(hs, "output"@, "completion"@, "response"@, 0) {
                Some(outx) => Ok(
                    csv_rows(ls, 1, inx, outx, first_col(hs, "system"@, "system"@, "system"@, 0)),
                ),
                None => Err("CSV must have 'output', 'completion', or 'response' column"@),
            },
            None => Err("CSV must have 'input' or 'prompt' column"@),
        }
    }
}

/// Parses CSV text into training examples.
pub fn parse_csv(content: &str) -> (r: Result<Vec<TrainingExample>, String>)
    ensures
        match r {
            Ok(out) => csv_spec(content@) == Ok::<Seq<ExampleModel>, Seq<char>>(
                examples_view(out@),
            ),
            Err(e) => csv_spec(content@) == Err::<Seq<ExampleModel>, Seq<char>>(e@),
        },
{
    let text = chars_of(content);
    let lines = line_ranges(&text);
    let ghost ls = lines_spec(text@);
    let nl = lines.len();
    if nl == 0 {
        return Err("Empty CSV file".to_owned());
    }
    let (h0, h1) = lines[0];
    let header_cols = split_ranges(&text, h0, h1, ',');
    let ghost hs = headers_of(ls[0]);
    let nh = header_cols.len();
    let mut trimmed: Vec<(usize, usize)> = Vec::new();
    let mut t: usize = 0;
    while t < nh
        invariant
            t <= nh,
            nh == header_cols@.len(),
            nh == hs.len(),
            hs == headers_of(text@.subrange(h0 as int, h1 as int)),
            forall|j: int| 0 <= j < nh ==> (#[trigger] header_cols@[j]).0 <= header_cols@[j].1
                <= text@.len() && text@.subrange(
                header_cols@[j].0 as int,
                header_cols@[j].1 as int,
            ) == split_char_spec(text@.subrange(h0 as int, h1 as int), ',')[j],
            trimmed@.len() == t,
            forall|j: int| 0 <= j < t ==> (#[trigger] trimmed@[j]).0 <= trimmed@[j].1
                <= text@.len() && text@.subrange(trimmed@[j].0 as int, trimmed@[j].1 as int)
                == hs[j],
        decreases nh - t,
    {
        let (a, b) = header_cols[t];
        let (a2, b2) = trim_range(&text, a, b);
        proof {
            assert(hs[t as int] == trim_spec(
                split_char_spec(text@.subrange(h0 as int, h1 as int), ',')[t as int],
            ));
        }
        trimmed.push((a2, b2));
        t = t + 1;
    }
    proof {
        assert(hs == headers_of(ls[0]));
    }
    let input_idx = match find_col(&text, &trimmed, Ghost(hs), "input", "prompt", "prompt") {
        Some(i) => i,
        None => {
            return Err("CSV must have 'input' or 'prompt' column".to_owned());
        },
    };
    let output_idx = match find_col(
        &text,
        &trimmed,
        Ghost(hs),
        "output",
        "completion",
        "response",
    ) {
        Some(i) => i,
        None => {
            return Err("CSV must have 'output', 'completion', or 'response' column".to_owned());
        },
    };
    let system_idx = find_col(&text, &trimmed, Ghost(hs), "system", "system", "system");
    let ghost ginx = input_idx as int;
    let ghost goutx = output_idx as int;
    let ghost gsysx = match system_idx {
        Some(s) => Some(s as int),
        None => None,
    };
    let mut out: Vec<TrainingExample> = Vec::new();
    let mut row: usize = 1;
    while row < nl
        invariant
            1 <= row <= nl,
            nl == lines@.len(),
            nl == ls.len(),
            ls == lines_spec(text@),
            text@ == content@,
            forall|j: int| 0 <= j < nl ==> (#[trigger] lines@[j]).0 <= lines@[j].1 <= text@.len()
                && text@.subrange(lines@[j].0 as int, lines@[j].1 as int) == ls[j],
            ginx == input_idx as int,
            goutx == output_idx as int,
            system_idx matches Some(s) ==> gsysx == Some(s as int),
            system_idx is None ==> gsysx is None,
            csv_rows(ls, 1, ginx, goutx, gsysx) =~= examples_view(out@) + csv_rows(
                ls,
                row as int,
                ginx,
                goutx,
                gsysx,
            ),
        decreases nl - row,
    {
        let (la, lb) = lines[row];
        let (ta, tb) = trim_range(&text, la, lb);
        if ta == tb {
            row = row + 1;
            continue ;
        }
        let cols = split_ranges(&text, la, lb, ',');
        let needed = if input_idx >= output_idx {
            input_idx
        } else {
            output_idx
        };
        if cols.len() <= needed {
            row = row + 1;
            continue ;
        }
        let (ia, ib) = cols[input_idx];
        let (oa, ob) = cols[output_idx];
        let system = match system_idx {
            Some(si) => if si < cols.len() {
                let (sa, sb) = cols[si];
                Some(content.substring_char(sa, sb).to_owned())
            } else {
                None
            },
            None => None,
        };
        let ex = TrainingExample {
            input: content.substring_char(ia, ib).to_owned(),
            output: content.substring_char(oa, ob).to_owned(),
            system,
        };
        out.push(ex);
        proof {
            assert(examples_view(out@) =~= examples_view(out@.drop_last()) + seq![
                out@.last().model(),
            ]);
        }
        row = row + 1;
    }
    proof {
        assert(csv_rows(ls, nl as int, ginx, goutx, gsysx) =~= Seq::<ExampleModel>::empty());
        assert(examples_view(out@) =~= examples_view(out@) + csv_rows(
            ls,
            nl as int,
            ginx,
            goutx,
            gsysx,
        ));
        assert(csv_spec(content@) == Ok::<Seq<ExampleModel>, Seq<char>>(examples_view(out@)));
    }
    Ok(out)
}

// ---------------------------------------------------------------------------
// JSONL and JSON
// ---------------------------------------------------------------------------

/// What decoding one example yields: `input` and `output` must be text,
/// `system` may be absent, null or text.
pub open spec fn example_of(m: JsonModel) -> Result<ExampleModel, (Seq<char>, JsonKind)> {
    match m {
        JsonModel::Object(fs) => match lookup_model(fs, "input"@) {
            Some(JsonModel::Text(i)) => match lookup_model(fs, "output"@) {
                Some(JsonModel::Text(o)) => match lookup_model(fs, "system"@) {
                    None => Ok(ExampleModel { input: i, output: o, system: None }),
                    Some(JsonModel::Null) => Ok(ExampleModel { input: i, output: o, system: None }),
                    Some(JsonModel::Text(sy)) => Ok(
                        ExampleModel { input: i, output: o, system: Some(sy) },
                    ),
                    Some(_) => Err(("system"@, JsonKind::Text)),
                },
                _ => Err(("output"@, JsonKind::Text)),
            },
            _ => Err(("input"@, JsonKind::Text)),
        },
        _ => Err(("$"@, JsonKind::Object)),
    }
}

/// Decodes one example from a parsed document.
pub fn decode_example_value(v: &JsonValue) -> (r: Result<TrainingExample, (String, JsonKind)>)
    ensures
        match r {
            Ok(t) => example_of(v.model()) == Ok::<ExampleModel, (Seq<char>, JsonKind)>(t.model()),
            Err((f, k)) => example_of(v.model()) == Err::<ExampleModel, (Seq<char>, JsonKind)>(
                (f@, k),
            ),
        },
{
    let fields = match v {
        JsonValue::Object(fs) => fs,
        _ => {
            return Err(("$".to_owned(), JsonKind::Object));
        },
    };
    proof {
        assert(v.model()->Object_0 =~= fields_model(fields@));
    }
    let input = match lookup(fields, "input") {
        Some(JsonValue::Text(s)) => s.clone(),
        _ => {
            return Err(("input".to_owned(), JsonKind::Text));
        },
    };
    let output = match lookup(fields, "output") {
        Some(JsonValue::Text(s)) => s.clone(),
        _ => {
            return Err(("output".to_owned(), JsonKind::Text));
        },
    };
    let system = match lookup(fields, "system") {
        None => None,
        Some(JsonValue::Null) => None,
        Some(JsonValue::Text(s)) => Some(s.clone()),
        Some(_) => {
            return Err(("system".to_owned(), JsonKind::Text));
        },
    };
    Ok(TrainingExample { input, output, system })
}

/// What the data lines of JSONL text yield from line `k` on: blank lines
/// are skipped, and every other line must be a JSON document holding one
/// example.
pub open spec fn jsonl_lines(ls: Seq<Seq<char>>, k: int) -> Option<Seq<ExampleModel>>
    decreases ls.len() - k + 1,
{
    if k < 0 || k >= ls.len() {
        Some(Seq::empty())
    } else if trim_spec(ls[k]).len() == 0 {
        jsonl_lines(ls, k + 1)
    } else {
        match json_parse(ls[k]) {
            Some(m) => match example_of(m) {
                Ok(e) => match jsonl_lines(ls, k + 1) {
                    Some(rest) => Some(seq![e] + rest),
                    None => None,
                },
                Err(_) => None,
            },
            None => None,
        }
    }
}

/// What parsing JSONL text yields, or nothing when some line fails.
pub open spec fn jsonl_spec(s: Seq<char>) -> Option<Seq<ExampleModel>> {
    jsonl_lines(lines_spec(s), 0)
}

/// Parses JSONL text (one JSON example per non-blank line).
pub fn parse_jsonl(content: &str) -> (r: Result<Vec<TrainingExample>, String>)
    ensures
        match r {
            Ok(out) => jsonl_spec(content@) == Some(examples_view(out@)),
            Err(_) => jsonl_spec(content@) is None,
        },
{
    let text = chars_of(content);
    let lines = line_ranges(&text);
    let ghost ls = lines_spec(text@);
    let nl = lines.len();
    let mut out: Vec<TrainingExample> = Vec::new();
    let mut i: usize = 0;
    while i < nl
        invariant
            i <= nl,
            nl == lines@.len(),
            nl == ls.len(),
            ls == lines_spec(text@),
            text@ == content@,
            forall|j: int| 0 <= j < nl ==> (#[trigger] lines@[j]).0 <= lines@[j].1 <= text@.len()
                && text@.subrange(lines@[j].0 as int, lines@[j].1 as int) == ls[j],
            jsonl_lines(ls, 0) is Some <==> jsonl_lines(ls, i as int) is Some,
            jsonl_lines(ls, 0) is Some ==> jsonl_lines(ls, 0)->Some_0 == examples_view(out@)
                + jsonl_lines(ls, i as int)->Some_0,
        decreases nl - i,
    {
        let (a, b) = lines[i];
        let (ta, tb) = trim_range(&text, a, b);
        if ta == tb {
            i = i + 1;
            continue ;
        }
        let line = content.substring_char(a, b);
        let parsed = match parse_json_text(line) {
            Ok(v) => v,
            Err(msg) => {
                return Err("Failed to parse JSONL line: ".to_owned().concat(msg.as_str()));
            },
        };
        match decode_example_value(&parsed) {
            Ok(ex) => {
                out.push(ex);
                proof {
                    assert(examples_view(out@) =~= examples_view(out@.drop_last()) + seq![
                        out@.last().model(),
                    ]);
                    if jsonl_lines(ls, i + 1) is Some {
                        assert(jsonl_lines(ls, i as int)->Some_0 == seq![out@.last().model()]
                            + jsonl_lines(ls, i + 1)->Some_0);
                        if jsonl_lines(ls, 0) is Some {
                            assert(jsonl_lines(ls, 0)->Some_0 =~= examples_view(out@)
                                + jsonl_lines(ls, i + 1)->Some_0);
                        }
                    }
                }
            },
            Err((f, _)) => {
                return Err("Failed to parse JSONL line: schema mismatch at field ".to_owned()
                    .concat(f.as_str()));
            },
        }
        i = i + 1;
    }
    proof {
        assert(jsonl_lines(ls, nl as int) == Some(Seq::<ExampleModel>::empty()));
        if jsonl_lines(ls, 0) is Some {
            let whole = jsonl_lines(ls, 0)->Some_0;
            assert(whole =~= examples_view(out@));
        }
    }
    Ok(out)
}

/// The examples of an array, or the first mismatch among them.
pub open spec fn array_examples_of(s: Seq<JsonModel>) -> Result<
    Seq<ExampleModel>,
    (Seq<char>, JsonKind),
>
    decreases s.len(),
{
    if s.len() == 0 {
        Ok(Seq::empty())
    } else {
        match example_of(s[0]) {
            Ok(m) => match array_examples_of(s.drop_first()) {
                Ok(rest) => Ok(seq![m] + rest),
                Err(e) => Err(e),
            },
            Err(e) => Err(e),
        }
    }
}

/// What parsing a whole-file JSON array of examples yields.
pub open spec fn json_array_spec(s: Seq<char>) -> Option<Seq<ExampleModel>> {
    match json_parse(s) {
        Some(JsonModel::Array(items)) => match array_examples_of(items) {
            Ok(es) => Some(es),
            Err(_) => None,
        },
        _ => None,
    }
}

/// A sequence of well-shaped examples decodes to their models.
proof fn lemma_examples_of_all(s: Seq<JsonModel>, out: Seq<ExampleModel>)
    requires
        s.len() == out.len(),
        forall|j: int| 0 <= j < s.len() ==> (#[trigger] example_of(s[j])) == Ok::<
            ExampleModel,
            (Seq<char>, JsonKind),
        >(out[j]),
    ensures
        array_examples_of(s) == Ok::<Seq<ExampleModel>, (Seq<char>, JsonKind)>(out),
    decreases s.len(),
{
    if s.len() > 0 {
        assert(example_of(s[0]) == Ok::<ExampleModel, (Seq<char>, JsonKind)>(out[0]));
        assert forall|j: int| 0 <= j < s.drop_first().len() implies example_of(s.drop_first()[j])
            == Ok::<ExampleModel, (Seq<char>, JsonKind)>(out.drop_first()[j]) by {
            assert(s.drop_first()[j] == s[j + 1]);
            assert(out.drop_first()[j] == out[j + 1]);
            assert(example_of(s[j + 1]) == Ok::<ExampleModel, (Seq<char>, JsonKind)>(out[j + 1]));
        }
        lemma_examples_of_all(s.drop_first(), out.drop_first());
        assert(seq![out[0]] + out.drop_first() =~= out);
    } else {
        assert(out =~= Seq::<ExampleModel>::empty());
    }
}

/// The first ill-shaped example settles the error.
proof fn lemma_examples_of_fail(s: Seq<JsonModel>, i: int)
    requires
        0 <= i < s.len(),
        example_of(s[i]) is Err,
        forall|j: int| 0 <= j < i ==> (#[trigger] example_of(s[j])) is Ok,
    ensures
        array_examples_of(s) is Err,
    decreases s.len(),
{
    if i > 0 {
        lemma_examples_of_fail(s.drop_first(), i - 1);
    }
}

/// Parses a whole-file JSON array of examples.
pub fn parse_json(content: &str) -> (r: Result<Vec<TrainingExample>, String>)
    ensures
        match r {
            Ok(out) => json_array_spec(content@) == Some(examples_view(out@)),
            Err(_) => json_array_spec(content@) is None,
        },
{
    let v = match parse_json_text(content) {
        Ok(v) => v,
        Err(msg) => {
            return Err("Failed to parse JSON: ".to_owned().concat(msg.as_str()));
        },
    };
    let items = match &v {
        JsonValue::Array(a) => a,
        _ => {
            return Err("Failed to parse JSON: expected an array of examples".to_owned());
        },
    };
    proof {
        assert(v.model()->Array_0 =~= items_model(items@));
    }
    let n = items.len();
    let mut out: Vec<TrainingExample> = Vec::new();
    let mut i: usize = 0;
    while i < n
        invariant
            i <= n,
            n == items@.len(),
            out@.len() == i,
            json_parse(content@) == Some(v.model()),
            v.model() is Array,
            v.model()->Array_0 == items_model(items@),
            forall|j: int| 0 <= j < i ==> example_of(items@[j].model()) == Ok::<
                ExampleModel,
                (Seq<char>, JsonKind),
            >((#[trigger] out@[j]).model()),
        decreases n - i,
    {
        match decode_example_value(&items[i]) {
            Ok(ex) => {
                out.push(ex);
            },
            Err((f, _)) => {
                proof {
                    assert forall|j: int| 0 <= j < i implies (#[trigger] example_of(
                        items_model(items@)[j],
                    )) is Ok by {
                        assert(example_of(items@[j].model()) == Ok::<
                            ExampleModel,
                            (Seq<char>, JsonKind),
                        >(out@[j].model()));
                        assert(items_model(items@)[j] == items@[j].model());
                    }
                    assert(items_model(items@)[i as int] == items@[i as int].model());
                    lemma_examples_of_fail(items_model(items@), i as int);
                }
                return Err("Failed to parse JSON: schema mismatch at field ".to_owned().concat(
                    f.as_str(),
                ));
            },
        }
        i = i + 1;
    }
    proof {
        assert forall|j: int| 0 <= j < n implies (#[trigger] example_of(items_model(items@)[j]))
            == Ok::<ExampleModel, (Seq<char>, JsonKind)>(examples_view(out@)[j]) by {
            assert(example_of(items@[j].model()) == Ok::<ExampleModel, (Seq<char>, JsonKind)>(
                out@[j].model(),
            ));
            assert(items_model(items@)[j] == items@[j].model());
            assert(examples_view(out@)[j] == out@[j].model());
        }
        lemma_examples_of_all(items_model(items@), examples_view(out@));
    }
    Ok(out)
}

// ---------------------------------------------------------------------------
// Format detection, preview, assembly
// ---------------------------------------------------------------------------

/// `s` ends with `suf`.
pub open spec fn ends_with_spec(s: Seq<char>, suf: Seq<char>) -> bool {
    s.len() >= suf.len() && s.subrange(s.len() - suf.len(), s.len() as int) == suf
}

/// Decides `ends_with_spec`.
pub fn ends_with(text: &Vec<char>, suf: &str) -> (r: bool)
    ensures
        r == ends_with_spec(text@, suf@),
{
    let sv = chars_of(suf);
    let m = sv.len();
    let n = text.len();
    if m > n {
        return false;
    }
    range_eq(text, n - m, n, suf)
}

/// The dataset format a file name suggests, unless one was given
/// explicitly: `jsonl`, `json` or `csv` by extension, else `unknown`.
pub fn detect_format(filename: &str, explicit: Option<String>) -> (r: String)
    ensures
        explicit matches Some(f) ==> r == f,
        explicit is None ==> r@ == {
            if ends_with_spec(filename@, ".jsonl"@) {
                "jsonl"@
            } else if ends_with_spec(filename@, ".json"@) {
                "json"@
            } else if ends_with_spec(filename@, ".csv"@) {
                "csv"@
            } else {
                "unknown"@
            }
        },
{
    match explicit {
        Some(f) => f,
        None => {
            let t = chars_of(filename);
            if ends_with(&t, ".jsonl") {
                "jsonl".to_owned()
            } else if ends_with(&t, ".json") {
                "json".to_owned()
            } else if ends_with(&t, ".csv") {
                "csv".to_owned()
            } else {
                "unknown".to_owned()
            }
        },
    }
}

/// The first examples of a dataset, for display.
#[derive(Debug)]
pub struct DataPreview {
    pub samples: Vec<TrainingExample>,
    pub total_count: u32,
}

/// Keeps the first `limit` examples (ten when unspecified) and reports the
/// total count.
pub fn preview_dataset(examples: Vec<TrainingExample>, limit: Option<u32>) -> (r: Result<
    DataPreview,
    String,
>)
    requires
        examples@.len() <= u32::MAX,
    ensures
        r matches Ok(p) && {
            let lim = (match limit {
                Some(l) => l,
                None => 10u32,
            }) as int;
            &&& p.total_count == examples@.len()
            &&& p.samples@ == (if examples@.len() <= lim {
                examples@
            } else {
                examples@.take(lim)
            })
        },
{
    let lim = match limit {
        Some(l) => l,
        None => 10,
    };
    let total = examples.len() as u32;
    let mut samples = examples;
    samples.truncate(lim as usize);
    proof {
        if samples@.len() <= lim {
            assert(samples@ =~= samples@);
        }
    }
    Ok(DataPreview { samples, total_count: total })
}

/// Relies on uuid::Uuid::new_v4 and its hyphenated rendering: a fresh
/// random identifier of 36 characters. Nothing else is promised of a
/// random value.
#[verifier::external_body]
fn fresh_dataset_id() -> (r: String)
    ensures
        r@.len() == 36,
{
    uuid::Uuid::new_v4().to_string()
}

/// How an uploaded file looked on disk.
#[derive(Debug, Clone)]
pub struct FileMetadata {
    pub filename: String,
    pub format: String,
    pub size_bytes: u64,
    pub row_count: u32,
}

/// A parsed uploaded dataset under a fresh identifier.
#[derive(Debug)]
pub struct UploadedDataset {
    pub id: String,
    pub examples: Vec<TrainingExample>,
    pub file_metadata: FileMetadata,
}

/// Assembles an uploaded dataset: a fresh identifier, the parsed examples,
/// and the file metadata with the row count taken from the examples.
pub fn assemble_uploaded_dataset(
    examples: Vec<TrainingExample>,
    filename: String,
    format: String,
    size_bytes: u64,
) -> (r: UploadedDataset)
    requires
        examples@.len() <= u32::MAX,
    ensures
        r.id@.len() == 36,
        r.examples == examples,
        r.file_metadata.filename == filename,
        r.file_metadata.format == format,
        r.file_metadata.size_bytes == size_bytes,
        r.file_metadata.row_count == examples@.len(),
{
    let row_count = examples.len() as u32;
    UploadedDataset {
        id: fresh_dataset_id(),
        examples,
        file_metadata: FileMetadata { filename, format, size_bytes, row_count },
    }
}

// ---------------------------------------------------------------------------
// Dataset statistics
// ---------------------------------------------------------------------------

/// The integers of a count list.
pub open spec fn ints_of(s: Seq<u32>) -> Seq<int> {
    Seq::new(s.len(), |i: int| if 0 <= i < s.len() { s[i] as int } else { 0 })
}

/// The pointwise sums of two count lists.
pub open spec fn pair_sums(a: Seq<u32>, b: Seq<u32>) -> Seq<int> {
    Seq::new(a.len(), |i: int| if 0 <= i < a.len() && i < b.len() { a[i] + b[i] } else { 0 })
}

/// The sum of a list.
pub open spec fn sum_int(s: Seq<int>) -> int
    decreases s.len(),
{
    if s.len() == 0 {
        0
    } else {
        sum_int(s.drop_last()) + s.last()
    }
}

/// The largest element, zero for an empty list.
pub open spec fn max_int(s: Seq<int>) -> int
    decreases s.len(),
{
    if s.len() == 0 {
        0
    } else {
        let m = max_int(s.drop_last());
        if s.last() > m {
            s.last()
        } else {
            m
        }
    }
}

/// The smallest element, zero for an empty list.
pub open spec fn min_int(s: Seq<int>) -> int
    decreases s.len(),
{
    if s.len() == 0 {
        0
    } else if s.len() == 1 {
        s[0]
    } else {
        let m = min_int(s.drop_last());
        if s.last() < m {
            s.last()
        } else {
            m
        }
    }
}

/// The system prompts of a dataset, in order, one entry per example that
/// carries one.
pub open spec fn system_views(s: Seq<ExampleModel>) -> Seq<Seq<char>>
    decreases s.len(),
{
    if s.len() == 0 {
        Seq::empty()
    } else {
        system_views(s.drop_last()) + (match s.last().system {
            Some(x) => seq![x],
            None => Seq::<Seq<char>>::empty(),
        })
    }
}

/// The distinct values of a list, in order of first appearance.
pub open spec fn distinct_seq(s: Seq<Seq<char>>) -> Seq<Seq<char>>
    decreases s.len(),
{
    if s.len() == 0 {
        Seq::empty()
    } else {
        let d = distinct_seq(s.drop_last());
        if s.drop_last().contains(s.last()) {
            d
        } else {
            d.push(s.last())
        }
    }
}

/// The distinct values of a list hold exactly the values of the list.
pub proof fn lemma_distinct_contains(s: Seq<Seq<char>>, x: Seq<char>)
    ensures
        distinct_seq(s).contains(x) <==> s.contains(x),
    decreases s.len(),
{
    if s.len() > 0 {
        let dl = s.drop_last();
        lemma_distinct_contains(dl, x);
        assert(s.contains(x) <==> dl.contains(x) || x == s.last()) by {
            if s.contains(x) {
                let i = choose|i: int| 0 <= i < s.len() && s[i] == x;
                if i < s.len() - 1 {
                    assert(dl[i] == x);
                    assert(dl.contains(x));
                }
            }
            if dl.contains(x) {
                let i = choose|i: int| 0 <= i < dl.len() && dl[i] == x;
                assert(s[i] == x);
                assert(s.contains(x));
            }
            if x == s.last() {
                assert(s[s.len() - 1] == x);
                assert(s.contains(x));
            }
        }
        if !dl.contains(s.last()) {
            let d = distinct_seq(dl);
            assert(d.push(s.last()).contains(x) <==> d.contains(x) || x == s.last()) by {
                if d.push(s.last()).contains(x) {
                    let i = choose|i: int| 0 <= i < d.push(s.last()).len() && d.push(s.last())[i]
                        == x;
                    if i < d.len() {
                        assert(d[i] == x);
                        assert(d.contains(x));
                    }
                }
                if d.contains(x) {
                    let i = choose|i: int| 0 <= i < d.len() && d[i] == x;
                    assert(d.push(s.last())[i] == x);
                    assert(d.push(s.last()).contains(x));
                }
                if x == s.last() {
                    assert(d.push(s.last())[d.len() as int] == x);
                    assert(d.push(s.last()).contains(x));
                }
            }
        }
    }
}

/// A list's sum stays under its length times any per-element bound.
proof fn lemma_sum_bounded(s: Seq<int>, bound: int)
    requires
        forall|i: int| 0 <= i < s.len() ==> s[i] <= bound,
        bound >= 0,
    ensures
        sum_int(s) <= s.len() * bound,
    decreases s.len(),
{
    if s.len() > 0 {
        assert forall|i: int| 0 <= i < s.drop_last().len() implies s.drop_last()[i] <= bound by {
            assert(s.drop_last()[i] == s[i]);
        }
        lemma_sum_bounded(s.drop_last(), bound);
        assert(s.last() <= bound);
        assert((s.len() - 1) * bound + bound == s.len() * bound) by (nonlinear_arith);
    }
}

/// Shape of a dataset: how many samples, token averages and extremes, and
/// how its system prompts are used.
#[derive(Debug, Clone, Copy, PartialEq, Eq, Structural)]
pub struct DatasetStats {
    pub num_samples: u32,
    pub avg_input_length: u32,
    pub avg_output_length: u32,
    pub avg_tokens_per_sample: u32,
    pub max_tokens: u32,
    pub min_tokens: u32,
    pub has_system_prompts: bool,
    pub unique_system_prompts: u32,
}

/// Whether a string with these characters is in the list.
fn contains_string(seen: &Vec<String>, s: &str) -> (r: bool)
    ensures
        r == (exists|q: int| 0 <= q < seen@.len() && (#[trigger] seen@[q])@ == s@),
{
    let m = seen.len();
    let mut j: usize = 0;
    while j < m
        invariant
            j <= m,
            m == seen@.len(),
            forall|q: int| 0 <= q < j ==> (#[trigger] seen@[q])@ != s@,
        decreases m - j,
    {
        if crate::text::str_eq(seen[j].as_str(), s) {
            return true;
        }
        j = j + 1;
    }
    false
}

/// Aggregates dataset statistics from per-example token estimates: the
/// averages are the integer means, the extremes range over the per-example
/// totals, and the distinct system prompts are counted exactly. An empty
/// dataset is refused.
pub fn dataset_stats(
    examples: &Vec<TrainingExample>,
    input_tokens: &Vec<u32>,
    output_tokens: &Vec<u32>,
) -> (r: Result<DatasetStats, String>)
    requires
        input_tokens@.len() == examples@.len(),
        output_tokens@.len() == examples@.len(),
        examples@.len() <= u32::MAX,
        forall|i: int| 0 <= i < examples@.len() ==> input_tokens@[i] + output_tokens@[i]
            <= u32::MAX,
    ensures
        examples@.len() == 0 ==> (r matches Err(e) && e@ == "Dataset is empty"@),
        examples@.len() > 0 ==> (r matches Ok(st) && {
            let n = examples@.len() as int;
            let tots = pair_sums(input_tokens@, output_tokens@);
            &&& st.num_samples == n
            &&& st.avg_input_length == sum_int(ints_of(input_tokens@)) / n
            &&& st.avg_output_length == sum_int(ints_of(output_tokens@)) / n
            &&& st.avg_tokens_per_sample == sum_int(tots) / n
            &&& st.max_tokens == max_int(tots)
            &&& st.min_tokens == min_int(tots)
            &&& st.has_system_prompts == (system_views(examples_view(examples@)).len() > 0)
            &&& st.unique_system_prompts == distinct_seq(
                system_views(examples_view(examples@)),
            ).len()
        }),
{
    let n = examples.len();
    if n == 0 {
        return Err("Dataset is empty".to_owned());
    }
    let ghost ins = ints_of(input_tokens@);
    let ghost outs = ints_of(output_tokens@);
    let ghost tots = pair_sums(input_tokens@, output_tokens@);
    let mut sum_in: u64 = 0;
    let mut sum_out: u64 = 0;
    let mut sum_tot: u64 = 0;
    let first_total: u32 = input_tokens[0] + output_tokens[0];
    let mut max_t: u32 = first_total;
    let mut min_t: u32 = first_total;
    let mut i: usize = 0;
    proof {
        assert(ins.take(0) =~= Seq::<int>::empty());
        assert(outs.take(0) =~= Seq::<int>::empty());
        assert(tots.take(0) =~= Seq::<int>::empty());
        assert(tots.take(1).drop_last() =~= Seq::<int>::empty());
        assert(max_int(Seq::<int>::empty()) == 0);
        assert(tots.take(1).last() == tots[0]);
        assert(tots.take(1).len() == 1);
        assert(tots[0] >= 0);
        assert(max_int(tots.take(1)) == tots[0]);
        assert(min_int(tots.take(1)) == tots[0]);
    }
    while i < n
        invariant
            i <= n,
            1 <= n == examples@.len() <= u32::MAX,
            input_tokens@.len() == n,
            output_tokens@.len() == n,
            forall|j: int| 0 <= j < n ==> input_tokens@[j] + output_tokens@[j] <= u32::MAX,
            ins == ints_of(input_tokens@),
            outs == ints_of(output_tokens@),
            tots == pair_sums(input_tokens@, output_tokens@),
            sum_in == sum_int(ins.take(i as int)),
            sum_out == sum_int(outs.take(i as int)),
            sum_tot == sum_int(tots.take(i as int)),
            sum_in <= i * 0xFFFF_FFFF,
            sum_out <= i * 0xFFFF_FFFF,
            sum_tot <= i * 0xFFFF_FFFF,
            max_t as int == max_int(tots.take(if i == 0 { 1int } else { i as int })),
            min_t as int == min_int(tots.take(if i == 0 { 1int } else { i as int })),
        decreases n - i,
    {
        proof {
            assert(ins.take(i + 1).drop_last() =~= ins.take(i as int));
            assert(outs.take(i + 1).drop_last() =~= outs.take(i as int));
            assert(tots.take(i + 1).drop_last() =~= tots.take(i as int));
            assert(ins.take(i + 1).last() == input_tokens@[i as int]);
            assert(outs.take(i + 1).last() == output_tokens@[i as int]);
            assert(tots.take(i + 1).last() == input_tokens@[i as int] + output_tokens@[i as int]);
        }
        let a = input_tokens[i];
        let b = output_tokens[i];
        let total: u32 = a + b;
        sum_in = sum_in + (a as u64);
        sum_out = sum_out + (b as u64);
        sum_tot = sum_tot + (total as u64);
        if total > max_t {
            max_t = total;
        }
        if i > 0 && total < min_t {
            min_t = total;
        }
        proof {
            if i > 0 {
                let prefix = tots.take(i + 1);
                assert(prefix.len() >= 2);
                assert(prefix.drop_last() == tots.take(i as int));
                assert(prefix.last() == total as int);
                assert(min_int(prefix) == (if prefix.last() < min_int(prefix.drop_last()) {
                    prefix.last()
                } else {
                    min_int(prefix.drop_last())
                }));
                assert(max_int(prefix) == (if prefix.last() > max_int(prefix.drop_last()) {
                    prefix.last()
                } else {
                    max_int(prefix.drop_last())
                }));
            }
        }
        i = i + 1;
    }
    proof {
        assert(ins.take(n as int) =~= ins);
        assert(outs.take(n as int) =~= outs);
        assert(tots.take(n as int) =~= tots);
        assert forall|j: int| 0 <= j < tots.len() implies tots[j] <= 0xFFFF_FFFF by {}
        lemma_sum_bounded(tots, 0xFFFF_FFFF);
        assert forall|j: int| 0 <= j < ins.len() implies ins[j] <= 0xFFFF_FFFF by {}
        lemma_sum_bounded(ins, 0xFFFF_FFFF);
        assert forall|j: int| 0 <= j < outs.len() implies outs[j] <= 0xFFFF_FFFF by {}
        lemma_sum_bounded(outs, 0xFFFF_FFFF);
        assert(sum_int(tots) / (n as int) <= 0xFFFF_FFFF) by (nonlinear_arith)
            requires
                sum_int(tots) <= (n as int) * 0xFFFF_FFFF,
                n >= 1,
        ;
        assert(sum_int(ins) / (n as int) <= 0xFFFF_FFFF) by (nonlinear_arith)
            requires
                sum_int(ins) <= (n as int) * 0xFFFF_FFFF,
                n >= 1,
        ;
        assert(sum_int(outs) / (n as int) <= 0xFFFF_FFFF) by (nonlinear_arith)
            requires
                sum_int(outs) <= (n as int) * 0xFFFF_FFFF,
                n >= 1,
        ;
    }
    let avg_input_length = (sum_in / (n as u64)) as u32;
    let avg_output_length = (sum_out / (n as u64)) as u32;
    let avg_tokens_per_sample = (sum_tot / (n as u64)) as u32;

    let ghost evw = examples_view(examples@);
    let mut seen: Vec<String> = Vec::new();
    let mut k: usize = 0;
    proof {
        assert(evw.take(0) =~= Seq::<ExampleModel>::empty());
        assert(crate::json::strings_view(seen@) =~= Seq::<Seq<char>>::empty());
    }
    while k < n
        invariant
            k <= n,
            n == examples@.len(),
            evw == examples_view(examples@),
            crate::json::strings_view(seen@) == distinct_seq(system_views(evw.take(k as int))),
            seen@.len() == distinct_seq(system_views(evw.take(k as int))).len(),
        decreases n - k,
    {
        proof {
            assert(evw.take(k + 1).drop_last() =~= evw.take(k as int));
            assert(evw.take(k + 1).last() == examples@[k as int].model());
        }
        match &examples[k].system {
            Some(s) => {
                let ghost dl = system_views(evw.take(k as int));
                proof {
                    assert(system_views(evw.take(k + 1)) =~= dl + seq![s@]);
                    assert(system_views(evw.take(k + 1)).drop_last() =~= dl);
                    assert(system_views(evw.take(k + 1)).last() == s@);
                }
                let found = contains_string(&seen, s.as_str());
                proof {
                    let sv = crate::json::strings_view(seen@);
                    if found {
                        let q = choose|q: int|
                            0 <= q < seen@.len() && (#[trigger] seen@[q])@ == s@;
                        assert(sv[q] == s@);
                        assert(sv.contains(s@));
                    } else {
                        if sv.contains(s@) {
                            let q = choose|q: int| 0 <= q < sv.len() && sv[q] == s@;
                            assert(seen@[q]@ == s@);
                            assert(false);
                        }
                    }
                    lemma_distinct_contains(dl, s@);
                    assert(sv.contains(s@) <==> dl.contains(s@));
                }
                if !found {
                    seen.push(s.clone());
                    proof {
                        assert(crate::json::strings_view(seen@) =~= distinct_seq(
                            system_views(evw.take(k + 1)),
                        ));
                    }
                } else {
                    proof {
                        assert(distinct_seq(system_views(evw.take(k + 1))) == distinct_seq(dl));
                    }
                }
            },
            None => {
                proof {
                    assert(system_views(evw.take(k + 1)) =~= system_views(evw.take(k as int)));
                }
            },
        }
        k = k + 1;
    }
    proof {
        assert(evw.take(n as int) =~= evw);
        assert(seen@.len() <= system_views(evw).len() || true);
        lemma_distinct_len(system_views(evw));
        lemma_system_views_len(evw);
    }
    let unique = seen.len();
    let has_system_prompts = unique > 0;
    proof {
        if system_views(evw).len() > 0 {
            let sv0 = system_views(evw)[0];
            assert(system_views(evw).contains(sv0));
            lemma_distinct_contains(system_views(evw), sv0);
            let q = choose|q: int|
                0 <= q < distinct_seq(system_views(evw)).len() && distinct_seq(
                    system_views(evw),
                )[q] == sv0;
            assert(distinct_seq(system_views(evw)).len() > 0);
        } else {
            assert(system_views(evw) =~= Seq::<Seq<char>>::empty());
            assert(distinct_seq(system_views(evw)).len() == 0);
        }
    }
    Ok(
        DatasetStats {
            num_samples: n as u32,
            avg_input_length,
            avg_output_length,
            avg_tokens_per_sample,
            max_tokens: max_t,
            min_tokens: min_t,
            has_system_prompts,
            unique_system_prompts: unique as u32,
        },
    )
}

/// There are no more distinct values than values.
proof fn lemma_distinct_len(s: Seq<Seq<char>>)
    ensures
        distinct_seq(s).len() <= s.len(),
    decreases s.len(),
{
    if s.len() > 0 {
        lemma_distinct_len(s.drop_last());
    }
}

/// There are no more system prompts than examples.
proof fn lemma_system_views_len(s: Seq<ExampleModel>)
    ensures
        system_views(s).len() <= s.len(),
    decreases s.len(),
{
    if s.len() > 0 {
        lemma_system_views_len(s.drop_last());
    }
}

/// How a generated dataset came to be.
#[derive(Debug, Clone)]
pub struct GenerationMetadata {
    pub source: String,
    pub prompt_used: Option<String>,
    pub duration_ms: u64,
}

/// A synthetic dataset under a fresh identifier.
#[derive(Debug)]
pub struct GeneratedDataset {
    pub id: String,
    pub examples: Vec<TrainingExample>,
    pub generation_metadata: GenerationMetadata,
}

/// Assembles a generated dataset: a fresh identifier, the examples, and
/// metadata naming the generation service and the prompt that drove it.
pub fn assemble_generated_dataset(examples: Vec<TrainingExample>, task_description: String) -> (r:
    GeneratedDataset)
    ensures
        r.id@.len() == 36,
        r.examples == examples,
        r.generation_metadata.source@ == "tonic"@,
        r.generation_metadata.prompt_used == Some(task_description),
        r.generation_metadata.duration_ms == 1000,
{
    GeneratedDataset {
        id: fresh_dataset_id(),
        examples,
        generation_metadata: GenerationMetadata {
            source: "tonic".to_owned(),
            prompt_used: Some(task_description),
            duration_ms: 1000,
        },
    }
}

} // verus!
