//! What the three providers decide on their own: their names, their status,
//! the prompt format of the local model and the answer of a completion.
use vstd::prelude::*;
use vstd::string::*;

use crate::ai::{
    cloud_modes, local_modes, single_mode, ComputeMode, ModelProvider, ProviderStatus,
};
use crate::local::LocalStatus;
use crate::text::str_eq;

verus! {

pub fn chatgpt_id() -> (r: &'static str)
    ensures
        r@ == "model.chatgpt"@,
{
    "model.chatgpt"
}

pub fn chatgpt_name() -> (r: &'static str)
    ensures
        r@ == "ChatGPT"@,
{
    "ChatGPT"
}

pub fn gemini_id() -> (r: &'static str)
    ensures
        r@ == "model.gemini"@,
{
    "model.gemini"
}

pub fn gemini_name() -> (r: &'static str)
    ensures
        r@ == "Gemini"@,
{
    "Gemini"
}

pub fn phi_id() -> (r: &'static str)
    ensures
        r@ == "model.phi-4-mini"@,
{
    "model.phi-4-mini"
}

pub fn phi_name() -> (r: &'static str)
    ensures
        r@ == "Phi 4"@,
{
    "Phi 4"
}

/// What the registry reads of the ChatGPT provider: its status.
#[derive(Debug, Clone, Copy, PartialEq, Eq, Structural)]
pub struct ChatGptInfo {
    pub status: ProviderStatus,
}

/// What the registry reads of the Gemini provider: its status.
#[derive(Debug, Clone, Copy, PartialEq, Eq, Structural)]
pub struct GeminiInfo {
    pub status: ProviderStatus,
}

/// What the registry reads of the local Phi provider: its status.
#[derive(Debug, Clone, Copy, PartialEq, Eq, Structural)]
pub struct PhiInfo {
    pub status: ProviderStatus,
}

/// ChatGPT runs in the cloud only.
impl ModelProvider for ChatGptInfo {
    open spec fn modes_view(&self) -> Seq<ComputeMode> {
        cloud_modes()
    }

    open spec fn mode_view(&self) -> ComputeMode {
        ComputeMode::Cloud
    }

    proof fn mode_is_supported(&self) {
        assert(cloud_modes()[0] == ComputeMode::Cloud);
    }

    fn id(&self) -> (r: &'static str)
        ensures
            r@ == "model.chatgpt"@,
    {
        chatgpt_id()
    }

    fn name(&self) -> (r: &'static str)
        ensures
            r@ == "ChatGPT"@,
    {
        chatgpt_name()
    }

    fn supported_modes(&self) -> (r: Vec<ComputeMode>) {
        single_mode(ComputeMode::Cloud)
    }

    fn current_mode(&self) -> (r: ComputeMode) {
        ComputeMode::Cloud
    }

    fn status(&self) -> (r: ProviderStatus)
        ensures
            r == self.status,
    {
        self.status
    }
}

/// Gemini runs in the cloud only.
impl ModelProvider for GeminiInfo {
    open spec fn modes_view(&self) -> Seq<ComputeMode> {
        cloud_modes()
    }

    open spec fn mode_view(&self) -> ComputeMode {
        ComputeMode::Cloud
    }

    proof fn mode_is_supported(&self) {
        assert(cloud_modes()[0] == ComputeMode::Cloud);
    }

    fn id(&self) -> (r: &'static str)
        ensures
            r@ == "model.gemini"@,
    {
        gemini_id()
    }

    fn name(&self) -> (r: &'static str)
        ensures
            r@ == "Gemini"@,
    {
        gemini_name()
    }

    fn supported_modes(&self) -> (r: Vec<ComputeMode>) {
        single_mode(ComputeMode::Cloud)
    }

    fn current_mode(&self) -> (r: ComputeMode) {
        ComputeMode::Cloud
    }

    fn status(&self) -> (r: ProviderStatus)
        ensures
            r == self.status,
    {
        self.status
    }
}

/// The local model runs on the device only.
impl ModelProvider for PhiInfo {
    open spec fn modes_view(&self) -> Seq<ComputeMode> {
        local_modes()
    }

    open spec fn mode_view(&self) -> ComputeMode {
        ComputeMode::Local
    }

    proof fn mode_is_supported(&self) {
        assert(local_modes()[0] == ComputeMode::Local);
    }

    fn id(&self) -> (r: &'static str)
        ensures
            r@ == "model.phi-4-mini"@,
    {
        phi_id()
    }

    fn name(&self) -> (r: &'static str)
        ensures
            r@ == "Phi 4"@,
    {
        phi_name()
    }

    fn supported_modes(&self) -> (r: Vec<ComputeMode>) {
        single_mode(ComputeMode::Local)
    }

    fn current_mode(&self) -> (r: ComputeMode) {
        ComputeMode::Local
    }

    fn status(&self) -> (r: ProviderStatus)
        ensures
            r == self.status,
    {
        self.status
    }
}

/// A cloud provider is ready once it has an API key.
pub fn api_key_status(api_key: &str) -> (r: ProviderStatus)
    ensures
        r == (if api_key@.len() == 0 {
            ProviderStatus::RequiresAuth
        } else {
            ProviderStatus::Ready
        }),
{
    if api_key.is_empty() {
        ProviderStatus::RequiresAuth
    } else {
        ProviderStatus::Ready
    }
}

/// The local provider is ready once its model is installed.
pub fn local_provider_status(s: LocalStatus) -> (r: ProviderStatus)
    ensures
        r == (if s == LocalStatus::Installed {
            ProviderStatus::Ready
        } else {
            ProviderStatus::RequiresInstallation
        }),
{
    match s {
        LocalStatus::Installed => ProviderStatus::Ready,
        LocalStatus::NotInstalled | LocalStatus::PartiallyInstalled => {
            ProviderStatus::RequiresInstallation
        },
    }
}

pub open spec fn phi_prompt_prefix() -> Seq<char> {
    "<|system|>\nYou are a helpful AI assistant. Keep answers short and concise.<|end|>\n<|user|>\n"@
}

pub open spec fn phi_prompt_suffix() -> Seq<char> {
    "<|end|>\n<|assistant|>\n"@
}

/// The chat template of the local model around the user's prompt.
pub fn phi_prompt(prompt: &str) -> (r: String)
    ensures
        r@ == phi_prompt_prefix() + prompt@ + phi_prompt_suffix(),
{
    let s = String::from_str(
        "<|system|>\nYou are a helpful AI assistant. Keep answers short and concise.<|end|>\n<|user|>\n",
    );
    let s = s.concat(prompt);
    s.concat("<|end|>\n<|assistant|>\n")
}

pub open spec fn phi_download_base() -> Seq<char> {
    "https://huggingface.co/microsoft/Phi-4-mini-instruct-onnx/resolve/main/cpu_and_mobile/cpu-int4-rtn-block-32-acc-level-4/"@
}

/// Files of the local model, in download order.
pub open spec fn phi_file_names() -> Seq<Seq<char>> {
    seq![
        "model.onnx"@,
        "model.onnx.data"@,
        "genai_config.json"@,
        "config.json"@,
        "tokenizer.json"@,
        "tokenizer_config.json"@,
        "special_tokens_map.json"@,
        "added_tokens.json"@,
    ]
}

/// Download addresses of the local model's files.
pub fn phi_download_urls() -> (r: Vec<String>)
    ensures
        r@.len() == phi_file_names().len(),
        forall|i: int|
            0 <= i < r@.len() ==> (#[trigger] r@[i])@ == phi_download_base() + phi_file_names()[i],
{
    let names = vec![
        "model.onnx",
        "model.onnx.data",
        "genai_config.json",
        "config.json",
        "tokenizer.json",
        "tokenizer_config.json",
        "special_tokens_map.json",
        "added_tokens.json",
    ];
    assert(names@.map_values(|s: &str| s@) =~= phi_file_names());
    let mut r: Vec<String> = Vec::new();
    let mut i: usize = 0;
    while i < names.len()
        invariant
            i <= names.len(),
            names@.map_values(|s: &str| s@) == phi_file_names(),
            r@.len() == i,
            forall|j: int|
                0 <= j < i ==> (#[trigger] r@[j])@ == phi_download_base() + phi_file_names()[j],
        decreases names.len() - i,
    {
        let url = String::from_str(
            "https://huggingface.co/microsoft/Phi-4-mini-instruct-onnx/resolve/main/cpu_and_mobile/cpu-int4-rtn-block-32-acc-level-4/",
        ).concat(names[i]);
        assert(names@.map_values(|s: &str| s@)[i as int] == names@[i as int]@);
        r.push(url);
        i = i + 1;
    }
    r
}

/// A completion that holds no choice.
#[derive(Debug, Clone, Copy, PartialEq, Eq, Structural)]
pub enum AnswerError {
    /// The API returned an empty or malformed response.
    EmptyResponse,
}

/// The answer of a chat completion: the content of its first choice.
pub fn first_choice(mut choices: Vec<String>) -> (r: Result<String, AnswerError>)
    ensures
        choices@.len() > 0 ==> r == Ok::<String, AnswerError>(choices@[0]),
        choices@.len() == 0 ==> r == Err::<String, AnswerError>(AnswerError::EmptyResponse),
{
    if choices.len() == 0 {
        Err(AnswerError::EmptyResponse)
    } else {
        Ok(choices.remove(0))
    }
}

/// A JSON document as the Gemini reply is read: numbers carry no value,
/// since nothing here reads one; an object keeps its entries in order.
pub enum Json {
    Null,
    Bool(bool),
    Number,
    Str(String),
    Array(Vec<Json>),
    Object(Vec<(String, Json)>),
}

/// Value of the first entry named `key`.
pub open spec fn entry_value(entries: Seq<(String, Json)>, key: Seq<char>) -> Option<Json>
    decreases entries.len(),
{
    if entries.len() == 0 {
        None
    } else if entries[0].0@ == key {
        Some(entries[0].1)
    } else {
        entry_value(entries.drop_first(), key)
    }
}

/// The member `key` of an object; nothing for other values.
pub open spec fn json_member(j: Json, key: Seq<char>) -> Option<Json> {
    match j {
        Json::Object(entries) => entry_value(entries@, key),
        _ => None,
    }
}

/// The first element of a non-empty array; nothing for other values.
pub open spec fn json_first(j: Json) -> Option<Json> {
    match j {
        Json::Array(items) => if items@.len() > 0 {
            Some(items@[0])
        } else {
            None
        },
        _ => None,
    }
}

/// The text of a string value.
pub open spec fn json_text(j: Json) -> Option<Seq<char>> {
    match j {
        Json::Str(t) => Some(t@),
        _ => None,
    }
}

/// Chains an optional step.
pub open spec fn then_member(j: Option<Json>, key: Seq<char>) -> Option<Json> {
    match j {
        Some(v) => json_member(v, key),
        None => None,
    }
}

pub open spec fn then_first(j: Option<Json>) -> Option<Json> {
    match j {
        Some(v) => json_first(v),
        None => None,
    }
}

/// The answer in a Gemini reply: `candidates[0].content.parts[0].text`,
/// where it is a string.
pub open spec fn gemini_text(reply: Json) -> Option<Seq<char>> {
    let part = then_first(
        then_member(then_member(then_first(json_member(reply, "candidates"@)), "content"@), "parts"@),
    );
    match then_member(part, "text"@) {
        Some(t) => json_text(t),
        None => None,
    }
}

/// The member `key` of `j`, if `j` is an object that has one.
pub fn member<'a>(j: &'a Json, key: &str) -> (r: Option<&'a Json>)
    ensures
        match r {
            Some(v) => json_member(*j, key@) == Some(*v),
            None => json_member(*j, key@) is None,
        },
{
    match j {
        Json::Object(entries) => {
            let mut i: usize = 0;
            assert(entries@.skip(0) =~= entries@);
            while i < entries.len()
                invariant
                    i <= entries.len(),
                    entry_value(entries@, key@) == entry_value(entries@.skip(i as int), key@),
                    json_member(*j, key@) == entry_value(entries@, key@),
                decreases entries.len() - i,
            {
                assert(entries@.skip(i as int)[0] == entries@[i as int]);
                if str_eq(entries[i].0.as_str(), key) {
                    assert(entry_value(entries@.skip(i as int), key@) == Some(entries@[i as int].1));
                    return Some(&entries[i].1);
                }
                assert(entries@.skip(i as int).drop_first() =~= entries@.skip(i + 1));
                i = i + 1;
            }
            None
        },
        _ => None,
    }
}

/// The first element of `j`, if `j` is a non-empty array.
pub fn first<'a>(j: &'a Json) -> (r: Option<&'a Json>)
    ensures
        match r {
            Some(v) => json_first(*j) == Some(*v),
            None => json_first(*j) is None,
        },
{
    match j {
        Json::Array(items) => if items.len() > 0 {
            Some(&items[0])
        } else {
            None
        },
        _ => None,
    }
}

/// The answer text of a Gemini reply; `None` where the reply is not shaped
/// as expected.
pub fn gemini_answer(reply: &Json) -> (r: Option<String>)
    ensures
        match r {
            Some(t) => gemini_text(*reply) == Some(t@),
            None => gemini_text(*reply) is None,
        },
{
    let candidates = match member(reply, "candidates") {
        Some(c) => c,
        None => return None,
    };
    let candidate = match first(candidates) {
        Some(c) => c,
        None => return None,
    };
    let content = match member(candidate, "content") {
        Some(c) => c,
        None => return None,
    };
    let parts = match member(content, "parts") {
        Some(p) => p,
        None => return None,
    };
    let part = match first(parts) {
        Some(p) => p,
        None => return None,
    };
    match member(part, "text") {
        Some(Json::Str(t)) => Some(String::from_str(t.as_str())),
        _ => None,
    }
}

} // verus!
