use chatsafe::config::{
    AppConfig, ModelConfig, ModelDefaults, ModelRegistry, ModelRegistryData, ModelResources,
};
use chatsafe::error::Error;
use chatsafe::template::TemplateConfig;

fn template(id: &str) -> TemplateConfig {
    TemplateConfig {
        id: id.to_string(),
        name: "Llama 3 Instruct".to_string(),
        system_prefix: "<|start_header_id|>system<|end_header_id|>\n\n".to_string(),
        system_suffix: "<|eot_id|>".to_string(),
        user_prefix: "<|start_header_id|>user<|end_header_id|>\n\n".to_string(),
        user_suffix: "<|eot_id|>".to_string(),
        assistant_prefix: "<|start_header_id|>assistant<|end_header_id|>\n\n".to_string(),
        assistant_suffix: "<|eot_id|>".to_string(),
        default_system_prompt: "You are helpful.".to_string(),
    }
}

fn model(id: &str, default: bool) -> ModelConfig {
    ModelConfig {
        id: id.to_string(),
        name: format!("{} model", id),
        path: format!("{}.gguf", id),
        ctx_window: 8192,
        template_id: "llama3".to_string(),
        stop_sequences: vec!["<|eot_id|>".to_string()],
        eos_token: "<|end_of_text|>".to_string(),
        defaults: ModelDefaults {
            temperature: 600_000_000,
            top_p: 900_000_000,
            top_k: 40,
            repeat_penalty: 1_150_000_000,
            max_tokens: 256,
        },
        resources: ModelResources { min_ram_milli_gb: 4000, est_disk_milli_gb: 2000, gpu_layers: -1, threads: 4 },
        default,
    }
}

fn registry(models: Vec<ModelConfig>) -> Result<ModelRegistry, Error> {
    ModelRegistry::from_data(
        ModelRegistryData { version: "1.0".to_string(), templates: vec![template("llama3")], models },
        "/custom/models".to_string(),
    )
}

#[test]
fn registry_lookups_and_paths() {
    let reg = registry(vec![model("a", false), model("b", true)]).unwrap();
    assert_eq!(reg.get_default_model().unwrap().id, "b");
    assert_eq!(reg.get_model_path("a").unwrap(), "/custom/models/a.gguf");
    assert_eq!(reg.get_model_template("a").unwrap().name, "Llama 3 Instruct");
    assert!(matches!(reg.get_model("nonexistent-model"), Err(Error::ModelNotFound(_))));
    assert!(matches!(reg.get_template("nope"), Err(Error::ConfigError(_))));
    assert_eq!(reg.list_models(), vec!["a".to_string(), "b".to_string()]);
}

#[test]
fn registry_without_a_default_takes_the_first() {
    let reg = registry(vec![model("a", false), model("b", false)]).unwrap();
    let d = reg.get_default_model().unwrap();
    assert_eq!(d.id, "a");
    assert!(d.default);
}

#[test]
fn registry_with_two_defaults_is_refused() {
    assert!(matches!(registry(vec![model("a", true), model("b", true)]), Err(Error::ConfigError(_))));
    let empty = registry(vec![]).unwrap();
    assert!(matches!(empty.get_default_model(), Err(Error::ConfigError(_))));
}

#[test]
fn overrides_replace_defaults() {
    let reg = registry(vec![model("a", true)]).unwrap();
    let p = reg.apply_overrides("a", None, Some(512), None, Some(50), None).unwrap();
    assert_eq!(p.max_tokens, 512);
    assert_eq!(p.top_k, 50);
    assert_eq!(p.temperature, 600_000_000);
    assert_eq!(p.stop_sequences, vec!["<|eot_id|>".to_string()]);
    let g = reg.get_generation_params("a").unwrap();
    assert_eq!(g.max_tokens, 256);
    assert!(matches!(reg.apply_overrides("zz", None, None, None, None, None), Err(Error::ModelNotFound(_))));
}

#[test]
fn model_dir_can_change() {
    let mut reg = registry(vec![model("a", true)]).unwrap();
    reg.set_model_dir("/other/".to_string());
    assert_eq!(reg.get_model_path("a").unwrap(), "/other/a.gguf");
}

#[test]
fn app_config_defaults() {
    let c = AppConfig::with_home(Some("/home/u".to_string()));
    assert_eq!(c.server.host, "127.0.0.1");
    assert_eq!(c.server.port, 8081);
    assert_eq!(c.runtime.llama_server_port, 8080);
    assert_eq!(c.models.directory, "/home/u/.local/share/chatsafe/models");
    assert_eq!(AppConfig::with_home(None).models.directory, "./.local/share/chatsafe/models");
    assert_eq!(AppConfig::default().models.default_model, "llama-3.2-3b-instruct-q4_k_m");
}
