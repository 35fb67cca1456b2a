use chatsafe::config::{
    ModelConfig, ModelDefaults, ModelRegistry, ModelRegistryData, ModelResources,
};
use chatsafe::error::Error;
use chatsafe::template::TemplateConfig;

/// The registry's built-in entry for the default model and its template.
fn default_registry() -> ModelRegistry {
    let template = TemplateConfig {
        id: "llama3".to_string(),
        name: "Llama 3 Instruct".to_string(),
        system_prefix: "<|start_header_id|>system<|end_header_id|>\n\n".to_string(),
        system_suffix: "<|eot_id|>".to_string(),
        user_prefix: "<|start_header_id|>user<|end_header_id|>\n\n".to_string(),
        user_suffix: "<|eot_id|>".to_string(),
        assistant_prefix: "<|start_header_id|>assistant<|end_header_id|>\n\n".to_string(),
        assistant_suffix: "<|eot_id|>".to_string(),
        default_system_prompt: "You are a helpful assistant.".to_string(),
    };
    let model = ModelConfig {
        id: "llama-3.2-3b-instruct-q4_k_m".to_string(),
        name: "Llama 3.2 3B Instruct (Q4_K_M)".to_string(),
        path: "llama-3.2-3b-instruct-q4_k_m.gguf".to_string(),
        ctx_window: 8192,
        template_id: "llama3".to_string(),
        stop_sequences: vec![
            "<|eot_id|>".to_string(),
            "<|end_of_text|>".to_string(),
            "<|start_header_id|>".to_string(),
        ],
        eos_token: "<|eot_id|>".to_string(),
        defaults: ModelDefaults {
            temperature: 600_000_000,
            top_p: 900_000_000,
            top_k: 40,
            repeat_penalty: 1_150_000_000,
            max_tokens: 256,
        },
        resources: ModelResources { min_ram_milli_gb: 3000, est_disk_milli_gb: 2000, gpu_layers: -1, threads: 4 },
        default: true,
    };
    ModelRegistry::from_data(
        ModelRegistryData { version: "1.0".to_string(), templates: vec![template], models: vec![model] },
        "/models".to_string(),
    )
    .unwrap()
}

#[test]
fn test_load_default_registry() {
    let registry = default_registry();
    assert!(!registry.list_models().is_empty());
    let default_model = registry.get_default_model().unwrap();
    assert_eq!(default_model.id, "llama-3.2-3b-instruct-q4_k_m");
    assert!(default_model.default);
}

#[test]
fn test_model_configuration() {
    let registry = default_registry();
    let model = registry.get_model("llama-3.2-3b-instruct-q4_k_m").unwrap();
    assert_eq!(model.name, "Llama 3.2 3B Instruct (Q4_K_M)");
    assert_eq!(model.ctx_window, 8192);
    assert_eq!(model.template_id, "llama3");
    assert_eq!(model.eos_token, "<|eot_id|>");
    assert_eq!(model.defaults.temperature, 600_000_000);
    assert_eq!(model.defaults.max_tokens, 256);
    assert_eq!(model.defaults.top_p, 900_000_000);
    assert_eq!(model.defaults.top_k, 40);
    assert_eq!(model.defaults.repeat_penalty, 1_150_000_000);
    assert_eq!(model.resources.min_ram_milli_gb, 3000);
    assert_eq!(model.resources.est_disk_milli_gb, 2000);
    assert_eq!(model.resources.gpu_layers, -1);
    assert_eq!(model.resources.threads, 4);
}

#[test]
fn test_template_retrieval() {
    let registry = default_registry();
    let template = registry.get_template("llama3").unwrap();
    assert_eq!(template.name, "Llama 3 Instruct");
    assert!(template.system_prefix.contains("system"));
    assert!(template.user_prefix.contains("user"));
    assert!(template.assistant_prefix.contains("assistant"));
    let template = registry.get_model_template("llama-3.2-3b-instruct-q4_k_m").unwrap();
    assert_eq!(template.id, "llama3");
}

#[test]
fn test_generation_params() {
    let registry = default_registry();
    let params = registry.get_generation_params("llama-3.2-3b-instruct-q4_k_m").unwrap();
    assert_eq!(params.temperature, 600_000_000);
    assert_eq!(params.max_tokens, 256);
    assert_eq!(params.stop_sequences.len(), 3);
    assert!(!params.request_id.is_empty());
}

#[test]
fn test_apply_overrides() {
    let registry = default_registry();
    let params = registry
        .apply_overrides("llama-3.2-3b-instruct-q4_k_m", Some(800_000_000), Some(512), None, Some(50), None)
        .unwrap();
    assert_eq!(params.temperature, 800_000_000);
    assert_eq!(params.max_tokens, 512);
    assert_eq!(params.top_p, 900_000_000);
    assert_eq!(params.top_k, 50);
    assert_eq!(params.repeat_penalty, 1_150_000_000);
}

#[test]
fn test_model_not_found() {
    let registry = default_registry();
    let result = registry.get_model("nonexistent-model");
    assert!(result.is_err());
    assert!(matches!(result.unwrap_err(), Error::ModelNotFound(_)));
}

#[test]
fn test_model_path() {
    let mut registry = default_registry();
    registry.set_model_dir("/custom/models".to_string());
    let path = registry.get_model_path("llama-3.2-3b-instruct-q4_k_m").unwrap();
    assert_eq!(path, "/custom/models/llama-3.2-3b-instruct-q4_k_m.gguf");
}
