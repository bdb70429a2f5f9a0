use modelcheck::ai::{
    find_model, models_to_ask, status_label, ComputeMode, ModelEntry, ModelProvider, Models,
    ModelsError, ProviderStatus,
};
use modelcheck::providers::{ChatGptInfo, GeminiInfo, PhiInfo};

fn entry(id: &str, status: ProviderStatus) -> ModelEntry {
    ModelEntry { id: id.to_string(), name: id.to_uppercase(), status }
}

#[test]
fn cloud_providers_run_in_the_cloud() {
    let p = ChatGptInfo { status: ProviderStatus::RequiresAuth };
    assert_eq!((p.id(), p.name()), ("model.chatgpt", "ChatGPT"));
    assert_eq!(p.supported_modes(), vec![ComputeMode::Cloud]);
    assert_eq!(p.current_mode(), ComputeMode::Cloud);
    p.set_mode();
    assert_eq!(p.current_mode(), ComputeMode::Cloud);
    assert_eq!(p.supported_modes(), vec![ComputeMode::Cloud]);
    assert_eq!(p.status(), ProviderStatus::RequiresAuth);
    let g = GeminiInfo { status: ProviderStatus::Ready };
    assert_eq!((g.id(), g.name()), ("model.gemini", "Gemini"));
    assert_eq!(g.supported_modes(), vec![ComputeMode::Cloud]);
    assert_eq!(g.current_mode(), ComputeMode::Cloud);
    assert_eq!(g.status(), ProviderStatus::Ready);
}

#[test]
fn local_provider_runs_on_device() {
    let p = PhiInfo { status: ProviderStatus::RequiresInstallation };
    assert_eq!((p.id(), p.name()), ("model.phi-4-mini", "Phi 4"));
    assert_eq!(p.supported_modes(), vec![ComputeMode::Local]);
    assert_eq!(p.current_mode(), ComputeMode::Local);
    p.set_mode();
    assert_eq!(p.current_mode(), ComputeMode::Local);
    assert!(p.supported_modes().contains(&p.current_mode()));
    assert_eq!(p.status(), ProviderStatus::RequiresInstallation);
}

#[test]
fn new_registry_is_empty() {
    let m: Models<ChatGptInfo> = Models::new();
    assert!(m.models.is_empty());
    assert!(matches!(m.model_at(0), Err(ModelsError::NotFound(0))));
}

#[test]
fn model_lookup_by_index() {
    let m = Models::from_models(vec![
        ChatGptInfo { status: ProviderStatus::Ready },
        ChatGptInfo { status: ProviderStatus::RequiresAuth },
    ]);
    assert!(m.model_at(1).is_ok());
    assert!(matches!(m.model_at(2), Err(ModelsError::NotFound(2))));
}

#[test]
fn only_ready_selected_models_are_asked() {
    let models = vec![
        entry("a", ProviderStatus::Ready),
        entry("b", ProviderStatus::RequiresAuth),
        entry("c", ProviderStatus::Ready),
        entry("d", ProviderStatus::Ready),
    ];
    let selected = vec!["d".to_string(), "b".to_string(), "a".to_string()];
    assert_eq!(models_to_ask(&models, &selected), vec![0, 3]);
    assert_eq!(models_to_ask(&models, &vec![]), Vec::<usize>::new());
}

#[test]
fn find_model_returns_first_match() {
    let models = vec![entry("a", ProviderStatus::Ready), entry("b", ProviderStatus::Ready), entry("b", ProviderStatus::RequiresAuth)];
    assert_eq!(find_model(&models, "b"), Some(1));
    assert_eq!(find_model(&models, "z"), None);
}

#[test]
fn status_labels() {
    assert_eq!(status_label(ProviderStatus::Ready), "Authenticated");
    assert_eq!(status_label(ProviderStatus::RequiresAuth), "Needs Login");
    assert_eq!(status_label(ProviderStatus::RequiresInstallation), "Needs Install");
}
