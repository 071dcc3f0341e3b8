//! Best-effort recovery of a JSON payload embedded in free text, such as a
//! model reply that wraps the document in prose or fenced code blocks.

use vstd::prelude::*;

use crate::text::{
    chars_of, contains_seq, find_char_from, find_from, first_char_from, first_match_from,
    last_char_idx, lemma_first_char_some, lemma_first_match_some, lemma_last_char_some, match_at,
    rfind_char, trim_range, trim_spec,
};

verus! {

/// Failure of the extractor: the text holds no recognizable JSON payload.
#[derive(Debug, Clone, Copy, PartialEq, Eq, Structural)]
pub enum ExtractionError {
    NoJsonFound,
}

/// Step three and four of extraction: the widest `{...}` span, else the
/// widest `[...]` span, else failure.
pub open spec fn extract_braces_spec(s: Seq<char>) -> Result<Seq<char>, ExtractionError> {
    let brace = match (first_char_from(s, '{', 0), last_char_idx(s, '}')) {
        (Some(f), Some(l)) => if f <= l {
            Some(s.subrange(f, l + 1))
        } else {
            None
        },
        _ => None,
    };
    match brace {
        Some(out) => Ok(out),
        None => match (first_char_from(s, '[', 0), last_char_idx(s, ']')) {
            (Some(f), Some(l)) => if f <= l {
                Ok(s.subrange(f, l + 1))
            } else {
                Err(ExtractionError::NoJsonFound)
            },
            _ => Err(ExtractionError::NoJsonFound),
        },
    }
}

/// Step two of extraction: the interior of the first fenced block, taken
/// from just after the line break that follows the opening marker.
pub open spec fn extract_fence_spec(s: Seq<char>) -> Result<Seq<char>, ExtractionError> {
    match first_match_from(s, "```"@, 0) {
        Some(st) => {
            let after = st + "```"@.len();
            let js = match first_char_from(s, '\n', after) {
                Some(i) => i + 1,
                None => after,
            };
            match first_match_from(s, "```"@, js) {
                Some(e) => Ok(trim_spec(s.subrange(js, e))),
                None => extract_braces_spec(s),
            }
        },
        None => extract_braces_spec(s),
    }
}

/// What `extract_json` returns, in priority order: the interior of a fenced
/// block labeled `json`, else of any fenced block, else the widest brace or
/// bracket span, else `NoJsonFound`.
pub open spec fn extract_spec(s: Seq<char>) -> Result<Seq<char>, ExtractionError> {
    match first_match_from(s, "```json"@, 0) {
        Some(st) => {
            let js = st + "```json"@.len();
            match first_match_from(s, "```"@, js) {
                Some(e) => Ok(trim_spec(s.subrange(js, e))),
                None => extract_fence_spec(s),
            }
        },
        None => extract_fence_spec(s),
    }
}

/// Extracts the JSON payload embedded in `content`, trying a `json`-labeled
/// fenced block, then any fenced block, then a brace- or bracket-delimited
/// span.
pub fn extract_json(content: &str) -> (r: Result<String, ExtractionError>)
    ensures
        match r {
            Ok(out) => extract_spec(content@) == Ok::<Seq<char>, ExtractionError>(out@),
            Err(e) => extract_spec(content@) == Err::<Seq<char>, ExtractionError>(e),
        },
{
    let text = chars_of(content);
    let n = text.len();
    proof {
        reveal_strlit("```json");
        reveal_strlit("```");
    }

    match find_from(&text, "```json", 0) {
        Some(st) => {
            proof {
                lemma_first_match_some(text@, "```json"@, 0, st as int);
            }
            let js = st + 7;
            match find_from(&text, "```", js) {
                Some(e) => {
                    proof {
                        lemma_first_match_some(text@, "```"@, js as int, e as int);
                    }
                    let (a, b) = trim_range(&text, js, e);
                    return Ok(content.substring_char(a, b).to_owned());
                },
                None => {
                    assert(extract_spec(content@) == extract_fence_spec(content@));
                },
            }
        },
        None => {
            assert(extract_spec(content@) == extract_fence_spec(content@));
        },
    }

    match find_from(&text, "```", 0) {
        Some(st) => {
            proof {
                lemma_first_match_some(text@, "```"@, 0, st as int);
            }
            let after = st + 3;
            let js = match find_char_from(&text, '\n', after) {
                Some(i) => {
                    proof {
                        lemma_first_char_some(text@, '\n', after as int, i as int);
                    }
                    i + 1
                },
                None => after,
            };
            match find_from(&text, "```", js) {
                Some(e) => {
                    proof {
                        lemma_first_match_some(text@, "```"@, js as int, e as int);
                    }
                    let (a, b) = trim_range(&text, js, e);
                    return Ok(content.substring_char(a, b).to_owned());
                },
                None => {
                    assert(extract_fence_spec(content@) == extract_braces_spec(content@));
                },
            }
        },
        None => {
            assert(extract_fence_spec(content@) == extract_braces_spec(content@));
        },
    }

    match (find_char_from(&text, '{', 0), rfind_char(&text, '}')) {
        (Some(f), Some(l)) => {
            proof {
                lemma_first_char_some(text@, '{', 0, f as int);
                lemma_last_char_some(text@, '}', l as int);
            }
            if f <= l {
                return Ok(content.substring_char(f, l + 1).to_owned());
            }
        },
        _ => {},
    }

    match (find_char_from(&text, '[', 0), rfind_char(&text, ']')) {
        (Some(f), Some(l)) => {
            proof {
                lemma_first_char_some(text@, '[', 0, f as int);
                lemma_last_char_some(text@, ']', l as int);
            }
            if f <= l {
                return Ok(content.substring_char(f, l + 1).to_owned());
            }
        },
        _ => {},
    }

    Err(ExtractionError::NoJsonFound)
}

/// Law: on any input holding a fenced block labeled `json` with a closing
/// marker, extraction returns exactly the trimmed interior of that block,
/// whatever surrounds it.
pub proof fn lemma_extract_labeled_fence(s: Seq<char>, st: int, e: int)
    requires
        first_match_from(s, "```json"@, 0) == Some(st),
        first_match_from(s, "```"@, st + "```json"@.len()) == Some(e),
    ensures
        extract_spec(s) == Ok::<Seq<char>, ExtractionError>(
            trim_spec(s.subrange(st + "```json"@.len(), e)),
        ),
{
}

/// Law: on any input with no fence marker, no brace and no bracket,
/// extraction fails with `NoJsonFound`.
pub proof fn lemma_extract_nothing_found(s: Seq<char>)
    requires
        !contains_seq(s, "```"@),
        forall|j: int| 0 <= j < s.len() ==> s[j] != '{',
        forall|j: int| 0 <= j < s.len() ==> s[j] != '[',
    ensures
        extract_spec(s) == Err::<Seq<char>, ExtractionError>(ExtractionError::NoJsonFound),
{
    if first_match_from(s, "```json"@, 0) is Some {
        let st = first_match_from(s, "```json"@, 0)->Some_0;
        lemma_first_match_some(s, "```json"@, 0, st);
        reveal_strlit("```json");
        reveal_strlit("```");
        assert(s.subrange(st, st + 3) =~= s.subrange(st, st + 7).subrange(0, 3));
        assert("```json"@.subrange(0, 3) =~= "```"@);
        assert(match_at(s, "```"@, st));
        crate::text::lemma_first_match_none(s, "```"@, 0);
        assert(false);
    }
    if first_char_from(s, '{', 0) is Some {
        let k = first_char_from(s, '{', 0)->Some_0;
        lemma_first_char_some(s, '{', 0, k);
        assert(false);
    }
    if first_char_from(s, '[', 0) is Some {
        let k = first_char_from(s, '[', 0)->Some_0;
        lemma_first_char_some(s, '[', 0, k);
        assert(false);
    }
}

} // verus!
