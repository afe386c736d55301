use second_brain::config::{ProviderConfig, SecondBrainConfig};

fn sorted(mut names: Vec<String>) -> Vec<String> {
    names.sort();
    names
}

fn provider(description: Option<&str>, api_key: Option<&str>) -> ProviderConfig {
    ProviderConfig {
        description: description.map(String::from),
        api_key: api_key.map(String::from),
    }
}

#[test]
fn default_configuration_is_empty() {
    let config = SecondBrainConfig::default();
    assert_eq!(config.provider_count(), 0);
    assert_eq!(config.current_provider(), "");
    assert!(config.provider_names().is_empty());
    assert!(config.provider("work").is_none());
}

#[test]
fn default_provider_has_no_settings() {
    let settings = ProviderConfig::default();
    assert_eq!(settings.description, None);
    assert_eq!(settings.api_key, None);
}

#[test]
fn added_provider_is_found_with_its_settings() {
    let mut config = SecondBrainConfig::default();
    config.add_provider("work".to_string(), "work key".to_string(), "sk-123".to_string());
    let found = config.provider("work").expect("the provider was added");
    assert_eq!(found.description.as_deref(), Some("work key"));
    assert_eq!(found.api_key.as_deref(), Some("sk-123"));
    assert_eq!(config.provider_count(), 1);
    assert_eq!(config.current_provider(), "");
}

#[test]
fn added_provider_keeps_unicode_text() {
    let mut config = SecondBrainConfig::default();
    config.add_provider("søren".to_string(), "clé «privée» 鍵".to_string(), "🔑".to_string());
    let found = config.provider("søren").expect("the provider was added");
    assert_eq!(found.description.as_deref(), Some("clé «privée» 鍵"));
    assert_eq!(found.api_key.as_deref(), Some("🔑"));
    assert!(config.provider("soren").is_none());
}

#[test]
fn adding_twice_keeps_one_entry_with_the_second_settings() {
    let mut config = SecondBrainConfig::default();
    config.add_provider("work".to_string(), "first".to_string(), "k1".to_string());
    config.add_provider("home".to_string(), "other".to_string(), "k0".to_string());
    config.add_provider("work".to_string(), "second".to_string(), "k2".to_string());
    assert_eq!(config.provider_count(), 2);
    assert_eq!(sorted(config.provider_names()), vec!["home".to_string(), "work".to_string()]);
    assert_eq!(config.provider("work"), Some(&provider(Some("second"), Some("k2"))));
    assert_eq!(config.provider("home"), Some(&provider(Some("other"), Some("k0"))));
}

#[test]
fn insert_replaces_whole_settings_without_merging() {
    let mut config = SecondBrainConfig::default();
    config.insert_provider("work".to_string(), provider(Some("described"), Some("key")));
    config.insert_provider("work".to_string(), provider(None, Some("other")));
    assert_eq!(config.provider("work"), Some(&provider(None, Some("other"))));
    assert_eq!(config.provider_count(), 1);
}

#[test]
fn removing_an_absent_name_changes_nothing() {
    let mut config = SecondBrainConfig::default();
    config.add_provider("work".to_string(), "d".to_string(), "k".to_string());
    config.set_current_provider("work".to_string());
    let mut expected = SecondBrainConfig::default();
    expected.add_provider("work".to_string(), "d".to_string(), "k".to_string());
    expected.set_current_provider("work".to_string());

    assert_eq!(config.remove_provider("home"), None);
    assert!(config == expected);
    assert_eq!(config.provider_count(), 1);

    let mut empty = SecondBrainConfig::default();
    assert_eq!(empty.remove_provider("work"), None);
    assert!(empty == SecondBrainConfig::default());
}

#[test]
fn removing_a_provider_hands_back_its_settings() {
    let mut config = SecondBrainConfig::default();
    config.add_provider("a".to_string(), "da".to_string(), "ka".to_string());
    config.add_provider("b".to_string(), "db".to_string(), "kb".to_string());
    config.add_provider("c".to_string(), "dc".to_string(), "kc".to_string());
    assert_eq!(config.remove_provider("b"), Some(provider(Some("db"), Some("kb"))));
    assert_eq!(sorted(config.provider_names()), vec!["a".to_string(), "c".to_string()]);
    assert!(config.provider("b").is_none());
    assert_eq!(config.provider("a"), Some(&provider(Some("da"), Some("ka"))));
    assert_eq!(config.provider("c"), Some(&provider(Some("dc"), Some("kc"))));
    assert_eq!(config.remove_provider("b"), None);
}

#[test]
fn selecting_does_not_ask_whether_the_provider_exists() {
    let mut config = SecondBrainConfig::default();
    config.set_current_provider("nowhere".to_string());
    assert_eq!(config.current_provider(), "nowhere");
    assert_eq!(config.provider_count(), 0);

    config.add_provider("work".to_string(), "d".to_string(), "k".to_string());
    config.set_current_provider("work".to_string());
    assert_eq!(config.current_provider(), "work");
    assert_eq!(config.provider("work"), Some(&provider(Some("d"), Some("k"))));
}

#[test]
fn removal_leaves_the_selection_dangling() {
    let mut config = SecondBrainConfig::default();
    config.add_provider("work".to_string(), "d".to_string(), "k".to_string());
    config.set_current_provider("work".to_string());
    config.remove_provider("work");
    assert_eq!(config.current_provider(), "work");
    assert!(config.provider("work").is_none());
}

#[test]
fn equality_ignores_the_order_of_addition() {
    let mut left = SecondBrainConfig::default();
    left.add_provider("a".to_string(), "da".to_string(), "ka".to_string());
    left.add_provider("b".to_string(), "db".to_string(), "kb".to_string());
    let mut right = SecondBrainConfig::default();
    right.add_provider("b".to_string(), "db".to_string(), "kb".to_string());
    right.add_provider("a".to_string(), "da".to_string(), "ka".to_string());
    assert!(left == right);

    right.set_current_provider("a".to_string());
    assert!(left != right);
}

#[test]
fn equality_tells_settings_and_names_apart() {
    let mut left = SecondBrainConfig::default();
    left.add_provider("a".to_string(), "da".to_string(), "ka".to_string());
    let mut other_key = SecondBrainConfig::default();
    other_key.add_provider("a".to_string(), "da".to_string(), "kb".to_string());
    let mut other_name = SecondBrainConfig::default();
    other_name.add_provider("b".to_string(), "da".to_string(), "ka".to_string());
    let mut more = SecondBrainConfig::default();
    more.add_provider("a".to_string(), "da".to_string(), "ka".to_string());
    more.add_provider("b".to_string(), "db".to_string(), "kb".to_string());
    assert!(left != other_key);
    assert!(left != other_name);
    assert!(left != more);
    assert!(more != left);
    assert!(left != SecondBrainConfig::default());
}

#[test]
fn provider_equality_compares_both_settings() {
    assert!(provider(Some("d"), Some("k")) == provider(Some("d"), Some("k")));
    assert!(provider(None, None) == ProviderConfig::default());
    assert!(provider(Some("d"), None) != provider(None, None));
    assert!(provider(Some("d"), Some("k")) != provider(Some("d"), Some("l")));
    assert!(provider(Some(""), None) != provider(None, None));
}
