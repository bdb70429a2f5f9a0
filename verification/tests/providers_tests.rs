use modelcheck::ai::ProviderStatus;
use modelcheck::local::LocalStatus;
use modelcheck::providers::{
    api_key_status, chatgpt_id, chatgpt_name, first_choice, gemini_id, gemini_name,
    local_provider_status, phi_download_urls, phi_id, phi_name, phi_prompt,
    gemini_answer, AnswerError, Json,
};

#[test]
fn provider_names() {
    assert_eq!((chatgpt_id(), chatgpt_name()), ("model.chatgpt", "ChatGPT"));
    assert_eq!((gemini_id(), gemini_name()), ("model.gemini", "Gemini"));
    assert_eq!((phi_id(), phi_name()), ("model.phi-4-mini", "Phi 4"));
}

#[test]
fn api_key_decides_cloud_status() {
    assert_eq!(api_key_status(""), ProviderStatus::RequiresAuth);
    assert_eq!(api_key_status("sk-SECRET-REDACTED"), ProviderStatus::Ready);
}

#[test]
fn installation_decides_local_status() {
    assert_eq!(local_provider_status(LocalStatus::Installed), ProviderStatus::Ready);
    assert_eq!(local_provider_status(LocalStatus::NotInstalled), ProviderStatus::RequiresInstallation);
    assert_eq!(local_provider_status(LocalStatus::PartiallyInstalled), ProviderStatus::RequiresInstallation);
}

#[test]
fn phi_prompt_uses_chat_template() {
    assert_eq!(
        phi_prompt("Why?"),
        "<|system|>\nYou are a helpful AI assistant. Keep answers short and concise.<|end|>\n<|user|>\nWhy?<|end|>\n<|assistant|>\n"
    );
}

#[test]
fn first_choice_or_error() {
    assert_eq!(first_choice(vec!["a".to_string(), "b".to_string()]), Ok("a".to_string()));
    assert_eq!(first_choice(vec![]), Err(AnswerError::EmptyResponse));
}

#[test]
fn download_urls() {
    let urls = phi_download_urls();
    assert_eq!(urls.len(), 8);
    assert_eq!(urls[0], "https://huggingface.co/microsoft/Phi-4-mini-instruct-onnx/resolve/main/cpu_and_mobile/cpu-int4-rtn-block-32-acc-level-4/model.onnx");
    assert!(urls[7].ends_with("/added_tokens.json"));
}

fn obj(entries: Vec<(&str, Json)>) -> Json {
    Json::Object(entries.into_iter().map(|(k, v)| (k.to_string(), v)).collect())
}

fn reply_with_text(text: Json) -> Json {
    obj(vec![(
        "candidates",
        Json::Array(vec![obj(vec![
            ("content", obj(vec![("parts", Json::Array(vec![obj(vec![("text", text)])])), ("role", Json::Str("model".to_string()))])),
            ("finishReason", Json::Str("STOP".to_string())),
        ])]),
    )])
}

#[test]
fn gemini_answer_reads_first_candidate_text() {
    assert_eq!(gemini_answer(&reply_with_text(Json::Str("Hello there".to_string()))), Some("Hello there".to_string()));
}

#[test]
fn gemini_answer_none_on_unexpected_shape() {
    assert_eq!(gemini_answer(&reply_with_text(Json::Number)), None);
    assert_eq!(gemini_answer(&obj(vec![("candidates", Json::Array(vec![]))])), None);
    assert_eq!(gemini_answer(&obj(vec![("error", obj(vec![("code", Json::Number)]))])), None);
    assert_eq!(gemini_answer(&Json::Null), None);
    assert_eq!(gemini_answer(&Json::Array(vec![reply_with_text(Json::Str("x".to_string()))])), None);
}

#[test]
fn gemini_answer_first_candidate_and_part_win() {
    let second = obj(vec![("content", obj(vec![("parts", Json::Array(vec![obj(vec![("text", Json::Str("no".to_string()))])]))]))]);
    let first = obj(vec![(
        "content",
        obj(vec![(
            "parts",
            Json::Array(vec![
                obj(vec![("text", Json::Str("yes".to_string()))]),
                obj(vec![("text", Json::Str("later".to_string()))]),
            ]),
        )]),
    )]);
    let reply = obj(vec![("candidates", Json::Array(vec![first, second])), ("usageMetadata", Json::Bool(true))]);
    assert_eq!(gemini_answer(&reply), Some("yes".to_string()));
}
