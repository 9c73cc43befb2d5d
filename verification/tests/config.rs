use photo_tagger::config::{
    filled_variable_or, get_filled_variable, get_variable, load_extra_tags, load_llm_config,
    load_provider_config, provider_by_name, ConfigError, ExtraTags, Provider,
};

fn env(list: &[(&str, &str)]) -> Vec<(String, String)> {
    list.iter().map(|(k, v)| (k.to_string(), v.to_string())).collect()
}

#[test]
fn gemini_is_the_default() {
    let c = load_llm_config(&env(&[("GEMINI_API_KEY", "k")])).unwrap();
    assert_eq!(c.provider, Provider::Gemini);
    assert_eq!(c.api_key, "k");
    assert_eq!(c.model, "gemini-3.5-flash-lite");
    assert_eq!(c.rate_limit_ms, 2000);
    assert_eq!(c.batch_size, 10);
}

#[test]
fn the_readme_configuration_is_accepted() {
    let c = load_llm_config(&env(&[
        ("GEMINI_API_KEY", "your-key-here"),
        ("GEMINI_RATE_LIMIT_MS", "2000"),
    ]))
    .unwrap();
    assert_eq!(c.api_key, "your-key-here");
    assert_eq!(c.rate_limit_ms, 2000);
}

#[test]
fn groq_has_its_own_variables() {
    let c = load_llm_config(&env(&[
        ("PROVIDER", " GROQ "),
        ("GEMINI_API_KEY", "g"),
        ("GROQ_API_KEY", "q"),
        ("GROQ_RATE_LIMIT_MS", "5"),
        ("GEMINI_RATE_LIMIT_MS", "6"),
        ("BATCH_SIZE", "3"),
    ]))
    .unwrap();
    assert_eq!(c.provider, Provider::Groq);
    assert_eq!(c.api_key, "q");
    assert_eq!(c.model, "meta-llama/llama-4-scout-17b-16e-instruct");
    assert_eq!(c.rate_limit_ms, 5);
    assert_eq!(c.batch_size, 3);
}

#[test]
fn a_model_can_be_chosen() {
    let vars = env(&[("GROQ_API_KEY", "q"), ("GROQ_MODEL", "m")]);
    assert_eq!(load_provider_config(Provider::Groq, &vars).unwrap().model, "m");
    let vars = env(&[("GEMINI_API_KEY", "q"), ("GEMINI_MODEL", "  ")]);
    assert_eq!(
        load_provider_config(Provider::Gemini, &vars).unwrap().model,
        "gemini-3.5-flash-lite"
    );
}

#[test]
fn an_unknown_provider_is_refused() {
    let e = load_llm_config(&env(&[("PROVIDER", " OpenAI ")])).unwrap_err();
    assert_eq!(e, ConfigError::UnknownProvider("openai".to_string()));
    assert_eq!(e.message(), "Unknown PROVIDER 'openai'. Use 'gemini' or 'groq'.");
    let e = load_llm_config(&env(&[("PROVIDER", "")])).unwrap_err();
    assert_eq!(e, ConfigError::UnknownProvider(String::new()));
}

#[test]
fn a_missing_key_is_refused() {
    let e = load_llm_config(&env(&[("GEMINI_API_KEY", "  ")])).unwrap_err();
    assert_eq!(e, ConfigError::MissingKey("GEMINI_API_KEY".to_string()));
    assert_eq!(e.message(), "GEMINI_API_KEY is not set (env var or .env file).");
    let e = load_llm_config(&env(&[("PROVIDER", "groq")])).unwrap_err();
    assert_eq!(e.message(), "GROQ_API_KEY is not set (env var or .env file).");
}

#[test]
fn numbers_that_are_none_fall_back() {
    for bad in ["", "x", "-1", "1.5", " 7", "18446744073709551616"] {
        let c = load_llm_config(&env(&[
            ("GEMINI_API_KEY", "k"),
            ("GEMINI_RATE_LIMIT_MS", bad),
            ("BATCH_SIZE", bad),
        ]))
        .unwrap();
        assert_eq!(c.rate_limit_ms, 2000);
        assert_eq!(c.batch_size, 10);
    }
    let c = load_llm_config(&env(&[
        ("GEMINI_API_KEY", "k"),
        ("GEMINI_RATE_LIMIT_MS", "0"),
        ("BATCH_SIZE", "0"),
    ]))
    .unwrap();
    assert_eq!(c.rate_limit_ms, 0);
    assert_eq!(c.batch_size, 10);
}

#[test]
fn names_of_providers() {
    assert_eq!(provider_by_name("gemini"), Ok(Provider::Gemini));
    assert_eq!(provider_by_name("groq"), Ok(Provider::Groq));
    assert_eq!(
        provider_by_name("Gemini"),
        Err(ConfigError::UnknownProvider("Gemini".to_string()))
    );
}

#[test]
fn extra_tags_have_defaults() {
    let t = load_extra_tags(&env(&[]));
    assert_eq!(t.country, Some("United Kingdom".to_string()));
    assert_eq!(t.camera_make, Some("Panasonic".to_string()));
    assert_eq!(t.camera_model, Some("DC-S5M2X".to_string()));
    let t = load_extra_tags(&env(&[
        ("DEFAULT_COUNTRY", "France"),
        ("DEFAULT_CAMERA_MAKE", " "),
        ("DEFAULT_CAMERA_MODEL", " X "),
    ]));
    assert_eq!(t.country, Some("France".to_string()));
    assert_eq!(t.camera_make, Some("Panasonic".to_string()));
    assert_eq!(t.camera_model, Some(" X ".to_string()));
    assert_eq!(t.clone(), t);
    assert_eq!(ExtraTags::default().country, None);
}

#[test]
fn variables_are_looked_up() {
    let vars = env(&[("A", " "), ("B", "x"), ("B", "y")]);
    assert_eq!(get_variable(&vars, "A"), Some(" ".to_string()));
    assert_eq!(get_variable(&vars, "B"), Some("x".to_string()));
    assert_eq!(get_variable(&vars, "b"), None);
    assert_eq!(get_filled_variable(&vars, "A"), None);
    assert_eq!(get_filled_variable(&vars, "B"), Some("x".to_string()));
    assert_eq!(filled_variable_or(&vars, "A", "d"), "d");
}
