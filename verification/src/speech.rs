//! The speech vendor: text-to-speech request bodies, transcription
//! decoding, and the base64 boundary audio crosses on its way in and out.

use vstd::prelude::*;

use base64::Engine;

use crate::json::{
    fields_model, json_parse, lookup, lookup_model, parse_json_text, JsonKind, JsonModel,
    JsonValue,
};

verus! {

/// The speech endpoint.
pub const SPEECH_BASE_URL: &'static str = "https://api.elevenlabs.io";

/// The voice used when the caller names none.
pub const DEFAULT_VOICE_ID: &'static str = "21m00Tcm4TlvDq8ikWAM";

/// The synthesis model requests are addressed to.
pub const DEFAULT_SPEECH_MODEL: &'static str = "eleven_multilingual_v2";

/// Voice rendering settings, each quantity as the decimal text of the
/// number to send.
#[derive(Debug, Clone)]
pub struct VoiceSettings {
    pub stability: String,
    pub similarity_boost: String,
    pub style: String,
    pub use_speaker_boost: bool,
}

impl Default for VoiceSettings {
    /// The documented defaults: stability one half, similarity boost three
    /// quarters, no style, speaker boost on.
    fn default() -> (r: VoiceSettings)
        ensures
            r.stability@ == "0.5"@,
            r.similarity_boost@ == "0.75"@,
            r.style@ == "0.0"@,
            r.use_speaker_boost == true,
    {
        VoiceSettings {
            stability: "0.5".to_owned(),
            similarity_boost: "0.75".to_owned(),
            style: "0.0".to_owned(),
            use_speaker_boost: true,
        }
    }
}

/// The wire shape of the settings object.
pub open spec fn settings_model(s: VoiceSettings) -> JsonModel {
    JsonModel::Object(
        seq![
            ("stability"@, JsonModel::Number(s.stability@)),
            ("similarity_boost"@, JsonModel::Number(s.similarity_boost@)),
            ("style"@, JsonModel::Number(s.style@)),
            ("use_speaker_boost"@, JsonModel::Bool(s.use_speaker_boost)),
        ],
    )
}

/// The wire shape of a synthesis request: the text, the model, and the
/// settings.
pub open spec fn tts_body_spec(text: Seq<char>, s: VoiceSettings) -> JsonModel {
    JsonModel::Object(
        seq![
            ("text"@, JsonModel::Text(text)),
            ("model_id"@, JsonModel::Text(DEFAULT_SPEECH_MODEL@)),
            ("voice_settings"@, settings_model(s)),
        ],
    )
}

/// Builds the body of a synthesis request.
pub fn tts_request_body(text: &str, settings: VoiceSettings) -> (r: JsonValue)
    ensures
        r.model() == tts_body_spec(text@, settings),
{
    let ghost gs = settings;
    let mut sf: Vec<(String, JsonValue)> = Vec::new();
    sf.push(("stability".to_owned(), JsonValue::Number(settings.stability)));
    sf.push(("similarity_boost".to_owned(), JsonValue::Number(settings.similarity_boost)));
    sf.push(("style".to_owned(), JsonValue::Number(settings.style)));
    sf.push(("use_speaker_boost".to_owned(), JsonValue::Bool(settings.use_speaker_boost)));
    let settings_obj = JsonValue::Object(sf);
    proof {
        let sm = settings_obj.model()->Object_0;
        assert forall|j: int| 0 <= j < sm.len() implies sm[j] == (
            sf@[j].0@,
            sf@[j].1.model(),
        ) by {}
        assert(sm =~= settings_model(gs)->Object_0);
    }
    let mut fields: Vec<(String, JsonValue)> = Vec::new();
    fields.push(("text".to_owned(), JsonValue::Text(text.to_owned())));
    fields.push(("model_id".to_owned(), JsonValue::Text(DEFAULT_SPEECH_MODEL.to_owned())));
    fields.push(("voice_settings".to_owned(), settings_obj));
    let r = JsonValue::Object(fields);
    proof {
        let fm = r.model()->Object_0;
        assert forall|j: int| 0 <= j < fm.len() implies fm[j] == (
            fields@[j].0@,
            fields@[j].1.model(),
        ) by {}
        assert(fm =~~= tts_body_spec(text@, gs)->Object_0);
    }
    r
}

// ---------------------------------------------------------------------------
// The base64 boundary
// ---------------------------------------------------------------------------

/// What the standard base64 encoding renders `bytes` as: a function of the
/// bytes alone.
pub uninterp spec fn base64_of(bytes: Seq<u8>) -> Seq<char>;

/// What the standard base64 decoder accepts for `s`: the decoded bytes, or
/// nothing when `s` is not valid base64.
pub uninterp spec fn base64_decoded(s: Seq<char>) -> Option<Seq<u8>>;

/// Relies on base64's standard-alphabet encoder.
#[verifier::external_body]
pub fn base64_encode(bytes: &Vec<u8>) -> (r: String)
    ensures
        r@ == base64_of(bytes@),
{
    base64::engine::general_purpose::STANDARD.encode(bytes)
}

/// Relies on base64's standard-alphabet decoder, returning its error text
/// on invalid input.
#[verifier::external_body]
pub fn base64_decode(s: &str) -> (r: Result<Vec<u8>, String>)
    ensures
        r is Ok <==> base64_decoded(s@) is Some,
        r matches Ok(b) ==> base64_decoded(s@) == Some(b@),
{
    match base64::engine::general_purpose::STANDARD.decode(s) {
        Ok(b) => Ok(b),
        Err(e) => Err(e.to_string()),
    }
}

/// Synthesized speech: the audio, base64-encoded, and its content type.
#[derive(Debug, Clone)]
pub struct SpeechResult {
    pub audio_base64: String,
    pub content_type: String,
}

/// Packs synthesized audio bytes for the caller: base64 of the bytes, and
/// the response content type, `audio/mpeg` when none was given.
pub fn speech_result_from_bytes(audio: &Vec<u8>, content_type: Option<String>) -> (r: SpeechResult)
    ensures
        r.audio_base64@ == base64_of(audio@),
        r.content_type@ == (match content_type {
            Some(c) => c@,
            None => "audio/mpeg"@,
        }),
{
    SpeechResult {
        audio_base64: base64_encode(audio),
        content_type: match content_type {
            Some(c) => c,
            None => "audio/mpeg".to_owned(),
        },
    }
}

// ---------------------------------------------------------------------------
// Transcription
// ---------------------------------------------------------------------------

/// A transcription: the text, and the confidence and language when the
/// service reports them. The confidence is kept as decimal text.
#[derive(Debug, Clone)]
pub struct TranscriptionResult {
    pub text: String,
    pub confidence: Option<String>,
    pub language_code: Option<String>,
}

/// What decoding a transcription reply yields: required text, optional
/// confidence number and language code.
pub open spec fn transcription_of(m: JsonModel) -> Result<
    (Seq<char>, Option<Seq<char>>, Option<Seq<char>>),
    (Seq<char>, JsonKind),
> {
    match m {
        JsonModel::Object(fs) => match lookup_model(fs, "text"@) {
            Some(JsonModel::Text(t)) => {
                let conf = match lookup_model(fs, "confidence"@) {
                    None => Ok(None),
                    Some(JsonModel::Null) => Ok(None),
                    Some(JsonModel::Number(c)) => Ok(Some(c)),
                    Some(_) => Err(("confidence"@, JsonKind::Number)),
                };
                match conf {
                    Ok(confidence) => match crate::chat::opt_text_of(
                        lookup_model(fs, "language_code"@),
                    ) {
                        Some(language) => Ok((t, confidence, language)),
                        None => Err(("language_code"@, JsonKind::Text)),
                    },
                    Err(e) => Err(e),
                }
            },
            _ => Err(("text"@, JsonKind::Text)),
        },
        _ => Err(("$"@, JsonKind::Object)),
    }
}

/// Decodes a transcription reply from a parsed document.
pub fn decode_transcription(v: &JsonValue) -> (r: Result<TranscriptionResult, (String, JsonKind)>)
    ensures
        match r {
            Ok(t) => transcription_of(v.model()) == Ok::<
                (Seq<char>, Option<Seq<char>>, Option<Seq<char>>),
                (Seq<char>, JsonKind),
            >(
                (
                    t.text@,
                    match t.confidence {
                        Some(c) => Some(c@),
                        None => None,
                    },
                    match t.language_code {
                        Some(l) => Some(l@),
                        None => None,
                    },
                ),
            ),
            Err((f, k)) => transcription_of(v.model()) == Err::<
                (Seq<char>, Option<Seq<char>>, Option<Seq<char>>),
                (Seq<char>, JsonKind),
            >((f@, k)),
        },
{
    let fields = match v {
        JsonValue::Object(fs) => fs,
        _ => {
            return Err(("$".to_owned(), JsonKind::Object));
        },
    };
    proof {
        assert(v.model()->Object_0 =~= fields_model(fields@));
    }
    let text = match lookup(fields, "text") {
        Some(JsonValue::Text(s)) => s.clone(),
        _ => {
            return Err(("text".to_owned(), JsonKind::Text));
        },
    };
    let confidence = match lookup(fields, "confidence") {
        None => None,
        Some(JsonValue::Null) => None,
        Some(JsonValue::Number(s)) => Some(s.clone()),
        Some(_) => {
            return Err(("confidence".to_owned(), JsonKind::Number));
        },
    };
    let language_code = match lookup(fields, "language_code") {
        None => None,
        Some(JsonValue::Null) => None,
        Some(JsonValue::Text(s)) => Some(s.clone()),
        Some(_) => {
            return Err(("language_code".to_owned(), JsonKind::Text));
        },
    };
    Ok(TranscriptionResult { text, confidence, language_code })
}

/// Decodes a transcription reply from raw text.
pub fn decode_transcription_text(raw: &str) -> (r: Result<TranscriptionResult, String>)
    ensures
        json_parse(raw@) is None ==> r is Err,
        json_parse(raw@) matches Some(m) ==> match r {
            Ok(t) => transcription_of(m) == Ok::<
                (Seq<char>, Option<Seq<char>>, Option<Seq<char>>),
                (Seq<char>, JsonKind),
            >(
                (
                    t.text@,
                    match t.confidence {
                        Some(c) => Some(c@),
                        None => None,
                    },
                    match t.language_code {
                        Some(l) => Some(l@),
                        None => None,
                    },
                ),
            ),
            Err(_) => transcription_of(m) is Err,
        },
{
    match parse_json_text(raw) {
        Ok(v) => match decode_transcription(&v) {
            Ok(t) => Ok(t),
            Err((f, _)) => Err("schema mismatch at field ".to_owned().concat(f.as_str())),
        },
        Err(msg) => Err(msg),
    }
}

// ---------------------------------------------------------------------------
// Voices
// ---------------------------------------------------------------------------

/// One available voice. The labels are kept as key-value pairs in the
/// order the service lists them.
#[derive(Debug, Clone)]
pub struct Voice {
    pub voice_id: String,
    pub name: String,
    pub category: Option<String>,
    pub description: Option<String>,
    pub labels: Option<Vec<(String, String)>>,
}

/// The mathematical shape of a voice.
pub struct VoiceModel {
    pub voice_id: Seq<char>,
    pub name: Seq<char>,
    pub category: Option<Seq<char>>,
    pub description: Option<Seq<char>>,
    pub labels: Option<Seq<(Seq<char>, Seq<char>)>>,
}

/// The views of a list of label pairs.
pub open spec fn pairs_view(s: Seq<(String, String)>) -> Seq<(Seq<char>, Seq<char>)> {
    Seq::new(s.len(), |i: int| if 0 <= i < s.len() { (s[i].0@, s[i].1@) } else { (Seq::empty(), Seq::empty()) })
}

impl Voice {
    /// The shape of this value.
    pub open spec fn model(self) -> VoiceModel {
        VoiceModel {
            voice_id: self.voice_id@,
            name: self.name@,
            category: match self.category {
                Some(s) => Some(s@),
                None => None,
            },
            description: match self.description {
                Some(s) => Some(s@),
                None => None,
            },
            labels: match self.labels {
                Some(ps) => Some(pairs_view(ps@)),
                None => None,
            },
        }
    }
}

/// The label pairs of an all-text object, or nothing when some value is
/// not text.
pub open spec fn labels_of(fs: Seq<(Seq<char>, JsonModel)>) -> Option<Seq<(Seq<char>, Seq<char>)>>
    decreases fs.len(),
{
    if fs.len() == 0 {
        Some(Seq::empty())
    } else {
        match labels_of(fs.drop_last()) {
            Some(rest) => match fs.last().1 {
                JsonModel::Text(v) => Some(rest.push((fs.last().0, v))),
                _ => None,
            },
            None => None,
        }
    }
}

/// Decodes a label object into pairs.
fn decode_labels(fields: &Vec<(String, JsonValue)>) -> (r: Option<Vec<(String, String)>>)
    ensures
        match r {
            Some(out) => labels_of(fields_model(fields@)) == Some(pairs_view(out@)),
            None => labels_of(fields_model(fields@)) is None,
        },
{
    let ghost fm = fields_model(fields@);
    let n = fields.len();
    let mut out: Vec<(String, String)> = Vec::new();
    let mut i: usize = 0;
    proof {
        assert(fm.take(0) =~= Seq::<(Seq<char>, JsonModel)>::empty());
        assert(pairs_view(out@) =~= Seq::<(Seq<char>, Seq<char>)>::empty());
    }
    while i < n
        invariant
            i <= n,
            n == fields@.len(),
            fm == fields_model(fields@),
            labels_of(fm.take(i as int)) == Some(pairs_view(out@)),
        decreases n - i,
    {
        proof {
            assert(fm.take(i + 1).drop_last() =~= fm.take(i as int));
            assert(fm.take(i + 1).last() == (fields@[i as int].0@, fields@[i as int].1.model()));
        }
        match &fields[i].1 {
            JsonValue::Text(v) => {
                out.push((fields[i].0.clone(), v.clone()));
                proof {
                    assert(pairs_view(out@) =~= pairs_view(out@.drop_last()).push(
                        (out@.last().0@, out@.last().1@),
                    ));
                }
            },
            _ => {
                proof {
                    lemma_labels_err(fm, i + 1);
                }
                return None;
            },
        }
        i = i + 1;
    }
    proof {
        assert(fm.take(n as int) =~= fm);
    }
    Some(out)
}

/// A failed prefix settles the whole label decode.
proof fn lemma_labels_err(fs: Seq<(Seq<char>, JsonModel)>, k: int)
    requires
        0 <= k <= fs.len(),
        labels_of(fs.take(k)) is None,
    ensures
        labels_of(fs) is None,
    decreases fs.len() - k,
{
    if k < fs.len() {
        assert(fs.take(k + 1).drop_last() =~= fs.take(k));
        lemma_labels_err(fs, k + 1);
    } else {
        assert(fs.take(k) =~= fs);
    }
}

/// What decoding one voice yields: a required identifier and name, and
/// optional category, description and labels.
pub open spec fn voice_of(m: JsonModel) -> Result<VoiceModel, (Seq<char>, JsonKind)> {
    match m {
        JsonModel::Object(fs) => match lookup_model(fs, "voice_id"@) {
            Some(JsonModel::Text(id)) => match lookup_model(fs, "name"@) {
                Some(JsonModel::Text(name)) => match crate::chat::opt_text_of(
                    lookup_model(fs, "category"@),
                ) {
                    Some(category) => match crate::chat::opt_text_of(
                        lookup_model(fs, "description"@),
                    ) {
                        Some(description) => {
                            let lab = match lookup_model(fs, "labels"@) {
                                None => Some(None),
                                Some(JsonModel::Null) => Some(None),
                                Some(JsonModel::Object(lfs)) => match labels_of(lfs) {
                                    Some(ps) => Some(Some(ps)),
                                    None => None,
                                },
                                Some(_) => None,
                            };
                            match lab {
                                Some(labels) => Ok(
                                    VoiceModel { voice_id: id, name, category, description, labels },
                                ),
                                None => Err(("labels"@, JsonKind::Object)),
                            }
                        },
                        None => Err(("description"@, JsonKind::Text)),
                    },
                    None => Err(("category"@, JsonKind::Text)),
                },
                _ => Err(("name"@, JsonKind::Text)),
            },
            _ => Err(("voice_id"@, JsonKind::Text)),
        },
        _ => Err(("$"@, JsonKind::Object)),
    }
}

/// Decodes one voice.
pub fn decode_voice(v: &JsonValue) -> (r: Result<Voice, (String, JsonKind)>)
    ensures
        match r {
            Ok(voice) => voice_of(v.model()) == Ok::<VoiceModel, (Seq<char>, JsonKind)>(
                voice.model(),
            ),
            Err((f, k)) => voice_of(v.model()) == Err::<VoiceModel, (Seq<char>, JsonKind)>(
                (f@, k),
            ),
        },
{
    let fields = match v {
        JsonValue::Object(fs) => fs,
        _ => {
            return Err(("$".to_owned(), JsonKind::Object));
        },
    };
    proof {
        assert(v.model()->Object_0 =~= fields_model(fields@));
    }
    let voice_id = match lookup(fields, "voice_id") {
        Some(JsonValue::Text(s)) => s.clone(),
        _ => {
            return Err(("voice_id".to_owned(), JsonKind::Text));
        },
    };
    let name = match lookup(fields, "name") {
        Some(JsonValue::Text(s)) => s.clone(),
        _ => {
            return Err(("name".to_owned(), JsonKind::Text));
        },
    };
    let category = match lookup(fields, "category") {
        None => None,
        Some(JsonValue::Null) => None,
        Some(JsonValue::Text(s)) => Some(s.clone()),
        Some(_) => {
            return Err(("category".to_owned(), JsonKind::Text));
        },
    };
    let description = match lookup(fields, "description") {
        None => None,
        Some(JsonValue::Null) => None,
        Some(JsonValue::Text(s)) => Some(s.clone()),
        Some(_) => {
            return Err(("description".to_owned(), JsonKind::Text));
        },
    };
    let labels = match lookup(fields, "labels") {
        None => None,
        Some(JsonValue::Null) => None,
        Some(JsonValue::Object(lfs)) => {
            proof {
                let lv = lookup_model(fields_model(fields@), "labels"@)->Some_0;
                assert(lv->Object_0 =~= fields_model(lfs@));
            }
            match decode_labels(lfs) {
                Some(ps) => Some(ps),
                None => {
                    return Err(("labels".to_owned(), JsonKind::Object));
                },
            }
        },
        Some(_) => {
            return Err(("labels".to_owned(), JsonKind::Object));
        },
    };
    Ok(Voice { voice_id, name, category, description, labels })
}

/// The views of a list of voices.
pub open spec fn voices_view(s: Seq<Voice>) -> Seq<VoiceModel> {
    Seq::new(s.len(), |i: int| if 0 <= i < s.len() { s[i].model() } else { s[0].model() })
}

/// The voices of an array, or the first mismatch among them.
pub open spec fn voices_of(s: Seq<JsonModel>) -> Result<Seq<VoiceModel>, (Seq<char>, JsonKind)>
    decreases s.len(),
{
    if s.len() == 0 {
        Ok(Seq::empty())
    } else {
        match voice_of(s[0]) {
            Ok(m) => match voices_of(s.drop_first()) {
                Ok(rest) => Ok(seq![m] + rest),
                Err(e) => Err(e),
            },
            Err(e) => Err(e),
        }
    }
}

/// A sequence of well-shaped voices decodes to their models.
proof fn lemma_voices_of_all(s: Seq<JsonModel>, out: Seq<VoiceModel>)
    requires
        s.len() == out.len(),
        forall|j: int| 0 <= j < s.len() ==> (#[trigger] voice_of(s[j])) == Ok::<
            VoiceModel,
            (Seq<char>, JsonKind),
        >(out[j]),
    ensures
        voices_of(s) == Ok::<Seq<VoiceModel>, (Seq<char>, JsonKind)>(out),
    decreases s.len(),
{
    if s.len() > 0 {
        assert(voice_of(s[0]) == Ok::<VoiceModel, (Seq<char>, JsonKind)>(out[0]));
        assert forall|j: int| 0 <= j < s.drop_first().len() implies voice_of(s.drop_first()[j])
            == Ok::<VoiceModel, (Seq<char>, JsonKind)>(out.drop_first()[j]) by {
            assert(s.drop_first()[j] == s[j + 1]);
            assert(out.drop_first()[j] == out[j + 1]);
            assert(voice_of(s[j + 1]) == Ok::<VoiceModel, (Seq<char>, JsonKind)>(out[j + 1]));
        }
        lemma_voices_of_all(s.drop_first(), out.drop_first());
        assert(seq![out[0]] + out.drop_first() =~= out);
    } else {
        assert(out =~= Seq::<VoiceModel>::empty());
    }
}

/// The first ill-shaped voice settles the error.
proof fn lemma_voices_of_fail(s: Seq<JsonModel>, i: int, e: (Seq<char>, JsonKind))
    requires
        0 <= i < s.len(),
        voice_of(s[i]) == Err::<VoiceModel, (Seq<char>, JsonKind)>(e),
        forall|j: int| 0 <= j < i ==> (#[trigger] voice_of(s[j])) is Ok,
    ensures
        voices_of(s) == Err::<Seq<VoiceModel>, (Seq<char>, JsonKind)>(e),
    decreases s.len(),
{
    if i > 0 {
        lemma_voices_of_fail(s.drop_first(), i - 1, e);
    }
}

/// What decoding the voices listing yields: the `voices` array, element
/// by element.
pub open spec fn voices_list_of(m: JsonModel) -> Result<Seq<VoiceModel>, (Seq<char>, JsonKind)> {
    match m {
        JsonModel::Object(fs) => match lookup_model(fs, "voices"@) {
            Some(JsonModel::Array(items)) => voices_of(items),
            _ => Err(("voices"@, JsonKind::Array)),
        },
        _ => Err(("$"@, JsonKind::Object)),
    }
}

/// Decodes the voices listing: an object holding the array of voices.
pub fn decode_voices(v: &JsonValue) -> (r: Result<Vec<Voice>, (String, JsonKind)>)
    ensures
        match r {
            Ok(out) => voices_list_of(v.model()) == Ok::<Seq<VoiceModel>, (Seq<char>, JsonKind)>(
                voices_view(out@),
            ),
            Err((f, k)) => voices_list_of(v.model()) == Err::<
                Seq<VoiceModel>,
                (Seq<char>, JsonKind),
            >((f@, k)),
        },
{
    let fields = match v {
        JsonValue::Object(fs) => fs,
        _ => {
            return Err(("$".to_owned(), JsonKind::Object));
        },
    };
    proof {
        assert(v.model()->Object_0 =~= fields_model(fields@));
    }
    let items = match lookup(fields, "voices") {
        Some(JsonValue::Array(items)) => items,
        _ => {
            return Err(("voices".to_owned(), JsonKind::Array));
        },
    };
    proof {
        let rv = lookup_model(fields_model(fields@), "voices"@)->Some_0;
        assert(rv->Array_0 =~= crate::json::items_model(items@));
    }
    let n = items.len();
    let mut out: Vec<Voice> = Vec::new();
    let mut i: usize = 0;
    while i < n
        invariant
            i <= n,
            n == items@.len(),
            out@.len() == i,
            v.model() is Object,
            v.model()->Object_0 == fields_model(fields@),
            (lookup_model(fields_model(fields@), "voices"@) matches Some(m) && m is Array
                && m->Array_0 == crate::json::items_model(items@)),
            forall|j: int| 0 <= j < i ==> voice_of(items@[j].model()) == Ok::<
                VoiceModel,
                (Seq<char>, JsonKind),
            >((#[trigger] out@[j]).model()),
        decreases n - i,
    {
        match decode_voice(&items[i]) {
            Ok(voice) => {
                out.push(voice);
            },
            Err((f, k)) => {
                proof {
                    let ee = (f@, k);
                    assert forall|j: int| 0 <= j < i implies (#[trigger] voice_of(
                        crate::json::items_model(items@)[j],
                    )) is Ok by {
                        assert(voice_of(items@[j].model()) == Ok::<VoiceModel, (Seq<char>, JsonKind)>(
                            out@[j].model(),
                        ));
                        assert(crate::json::items_model(items@)[j] == items@[j].model());
                    }
                    assert(crate::json::items_model(items@)[i as int] == items@[i as int].model());
                    lemma_voices_of_fail(crate::json::items_model(items@), i as int, ee);
                }
                return Err((f, k));
            },
        }
        i = i + 1;
    }
    proof {
        assert forall|j: int| 0 <= j < n implies (#[trigger] voice_of(
            crate::json::items_model(items@)[j],
        )) == Ok::<VoiceModel, (Seq<char>, JsonKind)>(voices_view(out@)[j]) by {
            assert(voice_of(items@[j].model()) == Ok::<VoiceModel, (Seq<char>, JsonKind)>(
                out@[j].model(),
            ));
            assert(crate::json::items_model(items@)[j] == items@[j].model());
            assert(voices_view(out@)[j] == out@[j].model());
        }
        lemma_voices_of_all(crate::json::items_model(items@), voices_view(out@));
    }
    Ok(out)
}

// ---------------------------------------------------------------------------
// Voice command surface
// ---------------------------------------------------------------------------

/// Synthesized speech as the command layer returns it.
#[derive(Debug, Clone)]
pub struct SpeechResponse {
    pub audio_base64: String,
    pub content_type: String,
}

/// Whether the voice pipeline is ready, and the default voice.
#[derive(Debug, Clone)]
pub struct VoiceStatus {
    pub is_configured: bool,
    pub default_voice_id: String,
}

/// The voice status for a given credential state.
pub fn voice_status(is_configured: bool) -> (r: VoiceStatus)
    ensures
        r.is_configured == is_configured,
        r.default_voice_id@ == DEFAULT_VOICE_ID@,
{
    VoiceStatus { is_configured, default_voice_id: DEFAULT_VOICE_ID.to_owned() }
}

} // verus!
