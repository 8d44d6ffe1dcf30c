use yuiclaw::registry::{channel_adapter_specs, is_adapter_configured, present_nonempty_env_keys};

fn vars(items: &[(&str, &str)]) -> Vec<(String, String)> {
    items.iter().map(|(k, v)| (k.to_string(), v.to_string())).collect()
}

fn env_keys(keys: &[&str]) -> Vec<String> {
    keys.iter().map(|k| (*k).to_string()).collect()
}

#[test]
fn registry_has_three_channels_with_unique_flags() {
    let specs = channel_adapter_specs();
    let flags: Vec<&str> = specs.iter().map(|s| s.adapter_flag).collect();
    assert_eq!(flags, vec!["--ntfy", "--discord", "--slack"]);
    assert_eq!(specs[2].env_keys, &["SLACK_APP_TOKEN", "SLACK_BOT_TOKEN"][..]);
}

#[test]
fn blank_values_do_not_count_as_present() {
    let v = vars(&[("NTFY_TOPIC", "  \t"), ("DISCORD_BOT_TOKEN", "x"), ("EMPTY", ""), ("A", " a ")]);
    assert_eq!(present_nonempty_env_keys(&v), env_keys(&["DISCORD_BOT_TOKEN", "A"]));
}

#[test]
fn adding_the_missing_key_configures_slack() {
    let slack = channel_adapter_specs()[2];
    assert!(!is_adapter_configured(&slack, &env_keys(&["SLACK_APP_TOKEN"])));
    assert!(is_adapter_configured(&slack, &env_keys(&["SLACK_APP_TOKEN", "SLACK_BOT_TOKEN"])));
    assert!(is_adapter_configured(&slack, &env_keys(&["X", "SLACK_BOT_TOKEN", "SLACK_APP_TOKEN"])));
}
