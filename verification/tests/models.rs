use widevin::proto::{ClientModelConfig, ModelFeatures, ModelInfo};
use widevin::{
    contains_ascii_word_phrase, metadata, models_request, models_url, normalize_models, supports_thinking,
    DevinInput,
};

fn config(uid: &str, label: &str) -> ClientModelConfig {
    ClientModelConfig {
        label: label.into(),
        model_uid: uid.into(),
        disabled: false,
        supports_images: false,
        max_tokens: 0,
        model_info: None,
    }
}

#[test]
fn models_are_normalized_and_request_has_prefixed_token() {
    let configs = vec![
        ClientModelConfig {
            supports_images: true,
            max_tokens: 1_000,
            ..config(" model-a ", "Model A Thinking")
        },
        ClientModelConfig { disabled: true, ..config("disabled", "Disabled") },
        config(" ", "Blank"),
        config("model-no-thinking", "Sonnet (No Thinking)"),
    ];
    let models = normalize_models(&configs, "https://server.example/");
    assert_eq!(models.len(), 2);
    assert_eq!(models[0].id, "model-a");
    assert_eq!(models[0].base_url, "https://server.example/");
    assert_eq!(models[0].input, vec![DevinInput::Text, DevinInput::Image]);
    assert!(models[0].reasoning);
    assert_eq!(models[0].context_window, 1_000);
    assert_eq!(models[0].max_tokens, 1_000);
    assert_eq!(models[1].id, "model-no-thinking");
    assert!(!models[1].reasoning);
    assert_eq!(models[1].context_window, 200_000);
    assert_eq!(models[1].max_tokens, 64_000);

    assert_eq!(
        models_url("https://server.example/"),
        "https://server.example/exa.api_server_pb.ApiServerService/GetCliModelConfigs"
    );
    let request = models_request(Some("raw"));
    assert_eq!(request.metadata.expect("metadata").api_key, "devin-session-token$raw");
}

#[test]
fn duplicate_ids_keep_the_last_config_and_sort() {
    let configs = vec![
        config("b", "first b"),
        config("a", ""),
        ClientModelConfig { max_tokens: 100_000, ..config("b", " second b ") },
    ];
    let models = normalize_models(&configs, "u");
    let ids = models.iter().map(|m| m.id.as_str()).collect::<Vec<_>>();
    assert_eq!(ids, vec!["a", "b"]);
    assert_eq!(models[0].name, "a");
    assert_eq!(models[1].name, "second b");
    assert_eq!(models[1].max_tokens, 64_000);
    assert_eq!(models[1].context_window, 100_000);
    assert_eq!(models[1].provider, "devin");
    assert!(models[1].supports_tools);
    assert!(normalize_models(&Vec::new(), "u").is_empty());
}

#[test]
fn reasoning_detection_honors_bounded_no_thinking() {
    assert!(!supports_thinking(&config("m", "Sonnet (No Thinking)")));
    assert!(!supports_thinking(&config("m", "no thinking")));
    assert!(supports_thinking(&config("m", "Mono Thinkingish")));
    assert!(supports_thinking(&config("m", "GPT High")));
    assert!(!supports_thinking(&config("m", "Plain")));
    let declared = ClientModelConfig {
        model_info: Some(ModelInfo { model_features: Some(ModelFeatures { supports_thinking: true }) }),
        ..config("m", "Plain")
    };
    assert!(supports_thinking(&declared));
    assert!(contains_ascii_word_phrase("a no thinking b", "no thinking"));
    assert!(!contains_ascii_word_phrase("no thinking_x", "no thinking"));
    assert!(!contains_ascii_word_phrase("xno thinking", "no thinking"));
    assert!(contains_ascii_word_phrase("(no thinking)", "no thinking"));
}

#[test]
fn metadata_identifies_the_client() {
    let m = metadata("key", "jwt");
    assert_eq!(m.api_key, "key");
    assert_eq!(m.user_jwt, "jwt");
    assert_eq!(m.ide_name, "windsurf");
    assert_eq!(m.ide_version, "3.2.23");
    assert_eq!(m.extension_name, "windsurf");
    assert_eq!(m.extension_version, "1.48.2");
    assert_eq!(m.locale, "en");
}
