use yuiclaw::autostart::adapters_to_autostart_from_inputs;
use yuiclaw::snapshot::{process_line_matches_acomm_flag, process_list_has_acomm_flag};

fn env_keys(keys: &[&str]) -> Vec<String> {
    keys.iter().map(|k| (*k).to_string()).collect()
}

#[test]
fn adapters_to_autostart_uses_only_configured_services() {
    let rows = adapters_to_autostart_from_inputs(&env_keys(&[]), "");
    assert!(rows.is_empty());

    let discord = adapters_to_autostart_from_inputs(&env_keys(&["DISCORD_BOT_TOKEN"]), "");
    assert_eq!(discord.len(), 1);
    assert_eq!(discord[0].label, "Discord");

    let slack_missing_one = adapters_to_autostart_from_inputs(&env_keys(&["SLACK_APP_TOKEN"]), "");
    assert!(slack_missing_one.is_empty());
}

#[test]
fn adapters_to_autostart_skips_already_running_adapter_processes() {
    let ps_output = "acomm           acomm --discord\nacomm           acomm --bridge\n";
    let rows = adapters_to_autostart_from_inputs(&env_keys(&["DISCORD_BOT_TOKEN"]), ps_output);
    assert!(rows.is_empty());
}

#[test]
fn process_match_requires_acomm_binary_and_exact_flag() {
    assert!(process_line_matches_acomm_flag(
        "acomm           /home/user/.cargo/bin/acomm --discord",
        "--discord"
    ));
    assert!(!process_line_matches_acomm_flag(
        "cargo           cargo run -p acomm -- --discord",
        "--discord"
    ));
    assert!(!process_line_matches_acomm_flag(
        "acomm           acomm --discordx",
        "--discord"
    ));
}

#[test]
fn process_match_rejects_bare_word_and_prefix_tokens() {
    assert!(!process_line_matches_acomm_flag("acomm acomm discord", "--discord"));
    assert!(!process_line_matches_acomm_flag("acomm acomm x--discord", "--discord"));
    assert!(!process_line_matches_acomm_flag("acommx acomm --discord", "--discord"));
    assert!(!process_line_matches_acomm_flag("acomm", "--discord"));
    assert!(!process_line_matches_acomm_flag("", "--discord"));
    assert!(!process_line_matches_acomm_flag("acomm acomm --discord", ""));
}

#[test]
fn process_match_tolerates_leading_and_mixed_whitespace() {
    assert!(process_line_matches_acomm_flag("   acomm\tacomm  --verbose\t--slack  ", "--slack"));
    assert!(process_line_matches_acomm_flag("acomm --slack", "--slack"));
}

#[test]
fn process_list_finds_a_match_on_any_line() {
    let ps = "PID CMD\nbash bash -l\nacomm acomm --bridge\r\nacomm acomm --ntfy";
    assert!(process_list_has_acomm_flag(ps, "--bridge"));
    assert!(process_list_has_acomm_flag(ps, "--ntfy"));
    assert!(!process_list_has_acomm_flag(ps, "--slack"));
    assert!(!process_list_has_acomm_flag("", "--bridge"));
}

#[test]
fn autostart_lists_configured_adapters_in_registry_order() {
    let keys = env_keys(&["SLACK_BOT_TOKEN", "SLACK_APP_TOKEN", "NTFY_TOPIC", "DISCORD_BOT_TOKEN"]);
    let rows = adapters_to_autostart_from_inputs(&keys, "acomm acomm --discord\n");
    let labels: Vec<&str> = rows.iter().map(|a| a.label).collect();
    assert_eq!(labels, vec!["ntfy", "Slack"]);
    assert_eq!(rows[1].adapter_flag, "--slack");
}
