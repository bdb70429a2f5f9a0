use modelcheck::local::{
    default_max_length, default_top_k, download_file_name, embedding_files, first_present,
    generation_config_file, generation_limit, install_marker, install_status,
    installed_weight_files, loadable_weight_files, select_model_files, tokenizer_file,
    LoadError, LocalStatus, ModelFiles,
};

fn names(v: &[&str]) -> Vec<String> {
    v.iter().map(|s| s.to_string()).collect()
}

#[test]
fn missing_directory_is_not_installed() {
    assert_eq!(install_status(false, &names(&[".install_complete"])), LocalStatus::NotInstalled);
}

#[test]
fn marker_or_weights_mean_installed() {
    assert_eq!(install_status(true, &names(&[".install_complete"])), LocalStatus::Installed);
    assert_eq!(install_status(true, &names(&["model_q4.onnx"])), LocalStatus::Installed);
    assert_eq!(install_status(true, &names(&["decoder_model_merged_q4.onnx"])), LocalStatus::Installed);
}

#[test]
fn other_files_mean_partial_installation() {
    assert_eq!(install_status(true, &names(&[])), LocalStatus::PartiallyInstalled);
    // decoder_model.onnx can be loaded but does not count for the status
    assert_eq!(install_status(true, &names(&["decoder_model.onnx", "tokenizer.json"])), LocalStatus::PartiallyInstalled);
}

#[test]
fn load_prefers_earlier_weight_files() {
    let present = names(&["decoder_model.onnx", "model_q4.onnx", "embed.onnx", "embeddings.onnx"]);
    assert_eq!(select_model_files(&present), Ok(ModelFiles { weights: 2, embeddings: Some(2) }));
    assert_eq!(loadable_weight_files()[2], "model_q4.onnx");
    assert_eq!(embedding_files()[2], "embeddings.onnx");
}

#[test]
fn load_without_weights_fails() {
    let present = names(&["embed.onnx", "tokenizer.json"]);
    assert_eq!(select_model_files(&present), Err(LoadError::NoModelWeights));
    let only_weights = names(&["decoder_model.onnx"]);
    assert_eq!(select_model_files(&only_weights), Ok(ModelFiles { weights: 3, embeddings: None }));
}

#[test]
fn first_present_finds_first_candidate() {
    let cands = vec!["a", "b", "c"];
    assert_eq!(first_present(&cands, &names(&["c", "b"])), Some(1));
    assert_eq!(first_present(&cands, &names(&["d"])), None);
}

#[test]
fn download_names_are_last_url_piece() {
    assert_eq!(download_file_name(" https://huggingface.co/x/resolve/main/model.onnx.data \n"), "model.onnx.data");
    assert_eq!(download_file_name("plain"), "plain");
    assert_eq!(download_file_name("https://host/dir/"), "");
}

#[test]
fn file_names_and_defaults() {
    assert_eq!(install_marker(), ".install_complete");
    assert_eq!(installed_weight_files(), vec!["model.onnx", "decoder_model_merged_q4.onnx", "model_q4.onnx"]);
    assert_eq!(tokenizer_file(), "tokenizer.json");
    assert_eq!(generation_config_file(), "genai_config.json");
    assert_eq!(default_top_k(), 1);
    assert_eq!(default_max_length(), 512);
}

#[test]
fn generation_limit_defaults_to_512() {
    assert_eq!(generation_limit(0), 512);
    assert_eq!(generation_limit(64), 64);
}

#[test]
fn download_names_never_leave_the_model_directory() {
    for url in ["https://a/b/c.onnx", "  x/y/z ", "no-slash", "trailing/"] {
        assert!(!download_file_name(url).contains('/'));
    }
}
