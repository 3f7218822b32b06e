use kagent::config::{get_config_file, get_default_config, LLMModel, LLMProvider, LoopControl, ModelCapability, ProviderType};
use kagent::kimi_cli::{apply_loop_overrides, select_model, thinking_mode};
use kagent::llm::{
    augment_provider_with_env_vars, derive_model_capabilities, is_provider_usable, parse_capabilities, parse_env_i64,
    parse_i64, split_scripts, thinking_choice, trace_enabled, EnvValues, ThinkingChoice,
};

fn model(provider: &str, name: &str, caps: Option<Vec<ModelCapability>>) -> LLMModel {
    LLMModel { provider: provider.to_string(), model: name.to_string(), max_context_size: 1000, capabilities: caps }
}

fn provider(kind: ProviderType, url: &str) -> LLMProvider {
    LLMProvider { provider_type: kind, base_url: url.to_string(), api_key: "k".to_string(), env: None, custom_headers: None }
}

fn no_env() -> EnvValues {
    EnvValues {
        kimi_base_url: None,
        kimi_api_key: None,
        kimi_model_name: None,
        kimi_model_max_context_size: None,
        kimi_model_capabilities: None,
        openai_base_url: None,
        openai_api_key: None,
    }
}

#[test]
fn loop_limits_are_checked() {
    assert!(LoopControl::default().validate().is_ok());
    let mut lc = LoopControl::default();
    lc.reserved_context_size = 999;
    assert_eq!(lc.validate().unwrap_err().to_message(), "reserved_context_size must be >= 1000");
    lc.max_steps_per_turn = 0;
    assert_eq!(lc.validate().unwrap_err().to_message(), "max_steps_per_turn must be >= 1");
}

#[test]
fn config_refers_to_known_names() {
    let mut c = get_default_config();
    assert!(c.validate().is_ok());
    c.default_model = "m".to_string();
    assert_eq!(c.validate().unwrap_err().to_message(), "Default model m not found in models");
    c.models.push(("m".to_string(), model("p", "kimi-k2", None)));
    assert_eq!(c.validate().unwrap_err().to_message(), "Provider p not found in providers");
    c.providers.push(("p".to_string(), provider(ProviderType::Kimi, "https://api")));
    assert!(c.validate().is_ok());
    assert_eq!(get_config_file("/s"), "/s/config.toml");
}

#[test]
fn model_selection() {
    let mut c = get_default_config();
    c.models.push(("a".to_string(), model("p", "model-a", None)));
    c.models.push(("b".to_string(), model("p", "model-b", None)));
    c.providers.push(("p".to_string(), provider(ProviderType::Kimi, "https://api")));
    c.default_model = "a".to_string();
    let (m, p) = select_model(&c, &None);
    assert_eq!(m.model, "model-a");
    assert_eq!(p.base_url, "https://api");
    let (m, _) = select_model(&c, &Some("b".to_string()));
    assert_eq!(m.model, "model-b");
    let empty = get_default_config();
    let (m, p) = select_model(&empty, &None);
    assert_eq!(m.model, "");
    assert_eq!(m.max_context_size, 100000);
    assert_eq!(p.provider_type, ProviderType::Kimi);
    assert!(!is_provider_usable(&p, &m));
    assert!(thinking_mode(None, &c) == c.default_thinking);
    assert!(thinking_mode(Some(true), &c));
}

#[test]
fn loop_overrides() {
    let mut lc = LoopControl::default();
    apply_loop_overrides(&mut lc, Some(5), None, Some(-1));
    assert_eq!(lc.max_steps_per_turn, 5);
    assert_eq!(lc.max_retries_per_step, 3);
    assert_eq!(lc.max_ralph_iterations, -1);
}

#[test]
fn capabilities_from_names() {
    let caps = derive_model_capabilities(&model("p", "kimi-k2-thinking", None));
    assert!(caps.contains(&ModelCapability::Thinking));
    assert!(caps.contains(&ModelCapability::AlwaysThinking));
    assert!(!caps.contains(&ModelCapability::ImageIn));
    let caps = derive_model_capabilities(&model("p", "kimi-for-coding", None));
    assert!(caps.contains(&ModelCapability::ImageIn));
    assert!(caps.contains(&ModelCapability::VideoIn));
    assert!(caps.contains(&ModelCapability::Thinking));
    assert!(!caps.contains(&ModelCapability::AlwaysThinking));
    let caps = derive_model_capabilities(&model("p", "plain", Some(vec![ModelCapability::VideoIn])));
    assert_eq!(caps, vec![ModelCapability::VideoIn]);
}

#[test]
fn thinking_choices() {
    assert_eq!(thinking_choice(&vec![ModelCapability::AlwaysThinking], Some(false)), ThinkingChoice::High);
    assert_eq!(thinking_choice(&vec![ModelCapability::Thinking], Some(true)), ThinkingChoice::High);
    assert_eq!(thinking_choice(&vec![], Some(true)), ThinkingChoice::Unchanged);
    assert_eq!(thinking_choice(&vec![ModelCapability::Thinking], Some(false)), ThinkingChoice::Off);
    assert_eq!(thinking_choice(&vec![], None), ThinkingChoice::Unchanged);
}

#[test]
fn providers_and_flags() {
    assert!(is_provider_usable(&provider(ProviderType::Echo, ""), &model("p", "", None)));
    assert!(is_provider_usable(&provider(ProviderType::Kimi, "u"), &model("p", "m", None)));
    assert!(!is_provider_usable(&provider(ProviderType::Kimi, ""), &model("p", "m", None)));
    assert!(trace_enabled(" TRUE "));
    assert!(trace_enabled("on"));
    assert!(!trace_enabled("2"));
}

#[test]
fn numbers_and_capability_lists() {
    assert_eq!(parse_i64("-42"), Some(-42));
    assert_eq!(parse_i64("+7"), Some(7));
    assert_eq!(parse_i64("x"), None);
    assert_eq!(parse_i64("9223372036854775808"), None);
    assert_eq!(parse_env_i64("12").ok(), Some(12));
    match parse_env_i64("1.5") {
        Err(e) => assert_eq!(e.to_message(), "invalid literal for int() with base 10: '1.5'"),
        Ok(_) => panic!("expected an error"),
    }
    let caps = parse_capabilities(" Image_In , thinking,unknown");
    assert!(caps.contains(&ModelCapability::ImageIn));
    assert!(caps.contains(&ModelCapability::Thinking));
    assert_eq!(caps.len(), 2);
}

#[test]
fn scripts_are_split() {
    let v = split_scripts("first\n---\n  second  \n---\n\n---\nthird").ok().unwrap();
    assert_eq!(v, vec!["first".to_string(), "second".to_string(), "third".to_string()]);
    match split_scripts("  \n---\n ") {
        Err(e) => assert_eq!(
            e.to_message(),
            "scripted echo error: Scripted echo file must be a JSON array of strings or a text file split by '\\n---\\n'."
        ),
        Ok(_) => panic!("expected an error"),
    }
}

#[test]
fn environment_overrides_kimi() {
    let mut p = provider(ProviderType::Kimi, "https://old");
    let mut m = model("p", "old", None);
    let mut env = no_env();
    env.kimi_base_url = Some("https://new".to_string());
    env.kimi_api_key = Some("secret".to_string());
    env.kimi_model_max_context_size = Some("2048".to_string());
    env.kimi_model_capabilities = Some("image_in,thinking".to_string());
    env.openai_base_url = Some("https://openai".to_string());
    let applied = augment_provider_with_env_vars(&mut p, &mut m, &env).ok().unwrap();
    assert_eq!(p.base_url, "https://new");
    assert_eq!(p.api_key, "secret");
    assert_eq!(m.model, "old");
    assert_eq!(m.max_context_size, 2048);
    let caps = m.capabilities.clone().unwrap();
    assert!(caps.contains(&ModelCapability::ImageIn) && caps.contains(&ModelCapability::Thinking));
    assert_eq!(
        applied,
        vec![
            ("KIMI_BASE_URL".to_string(), "https://new".to_string()),
            ("KIMI_API_KEY".to_string(), "******".to_string()),
            ("KIMI_MODEL_MAX_CONTEXT_SIZE".to_string(), "2048".to_string()),
            ("KIMI_MODEL_CAPABILITIES".to_string(), "image_in,thinking".to_string()),
        ]
    );
}

#[test]
fn environment_leaves_other_providers_alone() {
    let mut p = provider(ProviderType::Echo, "https://echo");
    p.env = Some(vec![("A".to_string(), "1".to_string())]);
    p.custom_headers = Some(vec![("X-H".to_string(), "v".to_string())]);
    let mut m = model("p", "m", None);
    let mut env = no_env();
    env.kimi_api_key = Some("secret".to_string());
    env.openai_api_key = Some("other".to_string());
    let applied = augment_provider_with_env_vars(&mut p, &mut m, &env).ok().unwrap();
    assert!(applied.is_empty());
    assert_eq!(p.base_url, "https://echo");
    assert_eq!(p.api_key, "k");
    assert_eq!(p.env, Some(vec![("A".to_string(), "1".to_string())]));
    assert_eq!(p.custom_headers, Some(vec![("X-H".to_string(), "v".to_string())]));
    assert_eq!(m.model, "m");
}

#[test]
fn environment_overrides_openai_and_errors() {
    let mut p = provider(ProviderType::OpenaiLegacy, "https://old");
    let mut m = model("p", "gpt", None);
    let mut env = no_env();
    env.openai_base_url = Some("https://openai".to_string());
    env.kimi_base_url = Some("https://kimi".to_string());
    let applied = augment_provider_with_env_vars(&mut p, &mut m, &env).ok().unwrap();
    assert!(applied.is_empty());
    assert_eq!(p.base_url, "https://openai");
    let mut p = provider(ProviderType::Kimi, "u");
    let mut env = no_env();
    env.kimi_model_max_context_size = Some("big".to_string());
    match augment_provider_with_env_vars(&mut p, &mut m, &env) {
        Err(e) => assert_eq!(e.to_message(), "invalid literal for int() with base 10: 'big'"),
        Ok(_) => panic!("expected an error"),
    }
}
