use second_brain::config::{ProviderConfig, SecondBrainConfig};
use second_brain::error::ConfigError;
use second_brain::schema::{config_from_table, parse_config, render_config, table_of_config};

fn provider(description: Option<&str>, api_key: Option<&str>) -> ProviderConfig {
    ProviderConfig {
        description: description.map(String::from),
        api_key: api_key.map(String::from),
    }
}

fn sample() -> SecondBrainConfig {
    let mut config = SecondBrainConfig::default();
    config.add_provider("work".to_string(), "work key".to_string(), "sk-123".to_string());
    config.insert_provider("bare".to_string(), provider(None, None));
    config.insert_provider("half".to_string(), provider(Some("only described"), None));
    config.set_current_provider("work".to_string());
    config
}

fn is_parse_error(result: Result<SecondBrainConfig, ConfigError>) -> bool {
    matches!(result, Err(ConfigError::Parse(_)))
}

fn text_value(text: &str) -> toml::Value {
    toml::Value::String(text.to_string())
}

#[test]
fn empty_configuration_renders_both_keys() {
    let text = render_config(&SecondBrainConfig::default()).expect("renders");
    assert_eq!(text, "current_provider = \"\"\n\n[providers]\n");
}

#[test]
fn configuration_renders_a_table_per_provider() {
    let mut config = SecondBrainConfig::default();
    config.add_provider("work".to_string(), "work key".to_string(), "sk-123".to_string());
    config.set_current_provider("work".to_string());
    let text = render_config(&config).expect("renders");
    assert_eq!(
        text,
        "current_provider = \"work\"\n\n[providers.work]\napi_key = \"sk-123\"\ndescription = \"work key\"\n"
    );
}

#[test]
fn absent_settings_render_no_key() {
    let mut config = SecondBrainConfig::default();
    config.insert_provider("half".to_string(), provider(Some("only described"), None));
    let text = render_config(&config).expect("renders");
    assert_eq!(
        text,
        "current_provider = \"\"\n\n[providers.half]\ndescription = \"only described\"\n"
    );
}

#[test]
fn rendering_does_not_depend_on_the_order_of_addition() {
    let mut left = SecondBrainConfig::default();
    left.add_provider("a".to_string(), "da".to_string(), "ka".to_string());
    left.add_provider("b".to_string(), "db".to_string(), "kb".to_string());
    let mut right = SecondBrainConfig::default();
    right.add_provider("b".to_string(), "db".to_string(), "kb".to_string());
    right.add_provider("a".to_string(), "da".to_string(), "ka".to_string());
    assert_eq!(render_config(&left).expect("renders"), render_config(&right).expect("renders"));
}

#[test]
fn document_of_a_configuration_holds_its_providers() {
    let table = table_of_config(&sample());
    assert_eq!(table.len(), 2);
    assert_eq!(table.get("current_provider"), Some(&text_value("work")));
    let providers = table.get("providers").and_then(|v| v.as_table()).expect("a table");
    assert_eq!(providers.len(), 3);
    let work = providers.get("work").and_then(|v| v.as_table()).expect("a table");
    assert_eq!(work.len(), 2);
    assert_eq!(work.get("description"), Some(&text_value("work key")));
    assert_eq!(work.get("api_key"), Some(&text_value("sk-123")));
    let bare = providers.get("bare").and_then(|v| v.as_table()).expect("a table");
    assert!(bare.is_empty());
    let half = providers.get("half").and_then(|v| v.as_table()).expect("a table");
    assert_eq!(half.len(), 1);
    assert_eq!(half.get("description"), Some(&text_value("only described")));
}

#[test]
fn document_of_the_empty_configuration_has_an_empty_providers_table() {
    let table = table_of_config(&SecondBrainConfig::default());
    assert_eq!(table.len(), 2);
    assert_eq!(table.get("current_provider"), Some(&text_value("")));
    assert_eq!(table.get("providers"), Some(&toml::Value::Table(toml::Table::new())));
}

#[test]
fn configuration_is_read_from_a_document() {
    let mut work = toml::Table::new();
    work.insert("description".to_string(), text_value("work key"));
    work.insert("api_key".to_string(), text_value("sk-123"));
    let mut providers = toml::Table::new();
    providers.insert("work".to_string(), toml::Value::Table(work));
    providers.insert("bare".to_string(), toml::Value::Table(toml::Table::new()));
    let mut document = toml::Table::new();
    document.insert("providers".to_string(), toml::Value::Table(providers));
    document.insert("current_provider".to_string(), text_value("bare"));

    let config = config_from_table(&document).expect("has the shape of a configuration");
    assert_eq!(config.current_provider(), "bare");
    assert_eq!(config.provider_count(), 2);
    assert_eq!(config.provider("work"), Some(&provider(Some("work key"), Some("sk-123"))));
    assert_eq!(config.provider("bare"), Some(&provider(None, None)));
}

#[test]
fn document_without_providers_is_refused() {
    let mut document = toml::Table::new();
    document.insert("current_provider".to_string(), text_value("work"));
    assert_eq!(
        config_from_table(&document),
        Err(ConfigError::Parse("missing field `providers`".to_string()))
    );
}

#[test]
fn document_without_current_provider_is_refused() {
    let mut document = toml::Table::new();
    document.insert("providers".to_string(), toml::Value::Table(toml::Table::new()));
    assert_eq!(
        config_from_table(&document),
        Err(ConfigError::Parse("missing field `current_provider`".to_string()))
    );
}

#[test]
fn document_with_wrong_types_is_refused() {
    let mut document = toml::Table::new();
    document.insert("providers".to_string(), text_value("none"));
    document.insert("current_provider".to_string(), text_value("work"));
    assert_eq!(
        config_from_table(&document),
        Err(ConfigError::Parse("field `providers` is not a table".to_string()))
    );

    let mut document = toml::Table::new();
    document.insert("providers".to_string(), toml::Value::Table(toml::Table::new()));
    document.insert("current_provider".to_string(), toml::Value::Integer(3));
    assert_eq!(
        config_from_table(&document),
        Err(ConfigError::Parse("field `current_provider` is not a string".to_string()))
    );
}

#[test]
fn provider_that_is_no_table_is_refused() {
    let mut providers = toml::Table::new();
    providers.insert("work".to_string(), text_value("sk-123"));
    let mut document = toml::Table::new();
    document.insert("providers".to_string(), toml::Value::Table(providers));
    document.insert("current_provider".to_string(), text_value(""));
    assert_eq!(
        config_from_table(&document),
        Err(ConfigError::Parse(
            "provider `work` is not a table of optional `description` and `api_key` strings"
                .to_string()
        ))
    );
}

#[test]
fn parses_a_written_configuration() {
    let text = "current_provider = \"work\"\n\n[providers.work]\ndescription = \"work key\"\napi_key = \"sk-123\"\n\n[providers.home]\n";
    let config = parse_config(text).expect("a configuration");
    assert_eq!(config.current_provider(), "work");
    assert_eq!(config.provider_count(), 2);
    assert_eq!(config.provider("work"), Some(&provider(Some("work key"), Some("sk-123"))));
    assert_eq!(config.provider("home"), Some(&provider(None, None)));
}

#[test]
fn parses_inline_tables_and_ignores_unknown_keys() {
    let text = "version = 3\ncurrent_provider = \"a\"\nproviders = { a = { api_key = \"k\", region = \"eu\" } }\n";
    let config = parse_config(text).expect("a configuration");
    assert_eq!(config.current_provider(), "a");
    assert_eq!(config.provider_count(), 1);
    assert_eq!(config.provider("a"), Some(&provider(None, Some("k"))));
}

#[test]
fn text_that_is_no_toml_is_a_parse_error() {
    assert!(is_parse_error(parse_config("providers = [unclosed")));
    assert!(is_parse_error(parse_config("current_provider \"work\"")));
    assert!(is_parse_error(parse_config("a = 1\na = 2\n")));
}

#[test]
fn parse_error_carries_the_cause() {
    match parse_config("current_provider = ") {
        Err(error) => {
            assert!(matches!(error, ConfigError::Parse(_)));
            assert!(!error.message().is_empty());
            assert!(error.message().contains("line 1"));
        }
        Ok(_) => panic!("the text is no TOML document"),
    }
}

#[test]
fn text_without_the_schema_is_a_parse_error() {
    assert!(is_parse_error(parse_config("")));
    assert!(is_parse_error(parse_config("current_provider = \"work\"\n")));
    assert!(is_parse_error(parse_config("[providers]\n")));
    assert!(is_parse_error(parse_config("current_provider = 1\n[providers]\n")));
    assert!(is_parse_error(parse_config("current_provider = \"\"\nproviders = \"none\"\n")));
    assert!(is_parse_error(parse_config("current_provider = \"\"\n[providers]\nwork = \"k\"\n")));
    assert!(is_parse_error(parse_config(
        "current_provider = \"\"\n[providers.work]\ndescription = 5\n"
    )));
    assert!(is_parse_error(parse_config(
        "current_provider = \"\"\n[providers.work]\napi_key = [\"a\"]\n"
    )));
    assert!(is_parse_error(parse_config(
        "current_provider = \"\"\n[providers]\nwork = [\"d\", \"k\"]\n"
    )));
}

#[test]
fn rendered_text_parses_back_to_the_same_configuration() {
    let config = sample();
    let text = render_config(&config).expect("renders");
    let back = parse_config(&text).expect("parses");
    assert!(back == config);
    assert_eq!(back.current_provider(), "work");
    assert_eq!(back.provider("half"), Some(&provider(Some("only described"), None)));
}

#[test]
fn empty_configuration_survives_the_round_trip() {
    let config = SecondBrainConfig::default();
    let text = render_config(&config).expect("renders");
    let back = parse_config(&text).expect("parses");
    assert!(back == config);
    assert_eq!(back.provider_count(), 0);
    assert_eq!(back.current_provider(), "");
}

#[test]
fn unicode_and_special_text_survives_the_round_trip() {
    let mut config = SecondBrainConfig::default();
    config.add_provider(
        "clé à molette".to_string(),
        "line one\nline two\t\"quoted\" \\ back".to_string(),
        "鍵🔑".to_string(),
    );
    config.add_provider(String::new(), String::new(), String::new());
    config.add_provider("a.b".to_string(), "[providers]".to_string(), "# no comment".to_string());
    config.add_provider("providers".to_string(), "x = 1".to_string(), "'''".to_string());
    config.set_current_provider("日本語 \u{1F600} \u{7f}".to_string());
    let text = render_config(&config).expect("renders");
    let back = parse_config(&text).expect("parses");
    assert!(back == config);
    assert_eq!(back.provider_count(), 4);
    assert_eq!(
        back.provider("clé à molette"),
        Some(&provider(Some("line one\nline two\t\"quoted\" \\ back"), Some("鍵🔑")))
    );
    assert_eq!(back.provider(""), Some(&provider(Some(""), Some(""))));
    assert_eq!(back.current_provider(), "日本語 \u{1F600} \u{7f}");
}
