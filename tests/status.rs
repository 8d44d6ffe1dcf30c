use yuiclaw::registry::channel_adapter_specs;
use yuiclaw::status::{
    channel_statuses_from_inputs, is_channel_configured, process_line_matches_adapter,
    process_list_has_adapter, ChannelStatus,
};

fn env_keys(keys: &[&str]) -> Vec<String> {
    keys.iter().map(|k| (*k).to_string()).collect()
}

#[test]
fn hides_unconfigured_channels() {
    let rows = channel_statuses_from_inputs(&env_keys(&[]), "", true);
    assert!(rows.is_empty());
}

#[test]
fn shows_configured_channel_as_not_connected_when_adapter_process_missing() {
    let rows = channel_statuses_from_inputs(&env_keys(&["DISCORD_BOT_TOKEN"]), "", true);
    assert_eq!(
        rows,
        vec![ChannelStatus {
            label: "Discord",
            connected: false
        }]
    );
}

#[test]
fn marks_channel_connected_only_when_bridge_and_adapter_process_are_running() {
    let ps_output = "acomm           acomm --discord\n";
    let rows = channel_statuses_from_inputs(&env_keys(&["DISCORD_BOT_TOKEN"]), ps_output, true);
    assert_eq!(
        rows,
        vec![ChannelStatus {
            label: "Discord",
            connected: true
        }]
    );

    let rows_without_bridge =
        channel_statuses_from_inputs(&env_keys(&["DISCORD_BOT_TOKEN"]), ps_output, false);
    assert_eq!(
        rows_without_bridge,
        vec![ChannelStatus {
            label: "Discord",
            connected: false
        }]
    );
}

#[test]
fn slack_requires_both_tokens_to_be_configured() {
    let ps_output = "acomm           acomm --slack\n";
    let missing_bot = channel_statuses_from_inputs(&env_keys(&["SLACK_APP_TOKEN"]), ps_output, true);
    assert!(missing_bot.is_empty());

    let configured = channel_statuses_from_inputs(
        &env_keys(&["SLACK_APP_TOKEN", "SLACK_BOT_TOKEN"]),
        ps_output,
        true,
    );
    assert_eq!(
        configured,
        vec![ChannelStatus {
            label: "Slack",
            connected: true
        }]
    );
}

#[test]
fn process_match_requires_acomm_executable_and_exact_flag() {
    assert!(process_line_matches_adapter(
        "acomm           /home/user/.cargo/bin/acomm --ntfy",
        "--ntfy"
    ));
    assert!(!process_line_matches_adapter(
        "cargo           cargo run -p acomm -- --ntfy",
        "--ntfy"
    ));
    assert!(!process_line_matches_adapter(
        "acomm           acomm --notify",
        "--ntfy"
    ));
}

#[test]
fn status_rows_hide_unrelated_variables() {
    let rows = channel_statuses_from_inputs(&env_keys(&["HOME", "PATH", "SLACK_TOKEN"]), "", true);
    assert!(rows.is_empty());
}

#[test]
fn slack_app_token_alone_is_unconfigured_everywhere() {
    let keys = env_keys(&["SLACK_APP_TOKEN"]);
    let slack = channel_adapter_specs()[2];
    assert!(!is_channel_configured(&slack, &keys));
    assert!(channel_statuses_from_inputs(&keys, "acomm acomm --slack\n", true).is_empty());
    assert!(yuiclaw::autostart::adapters_to_autostart_from_inputs(&keys, "").is_empty());
}

#[test]
fn running_discord_is_excluded_from_launch_and_shown_connected() {
    let keys = env_keys(&["DISCORD_BOT_TOKEN"]);
    let ps = "acomm acomm --discord\n";
    assert!(yuiclaw::autostart::adapters_to_autostart_from_inputs(&keys, ps).is_empty());
    assert_eq!(
        channel_statuses_from_inputs(&keys, ps, true),
        vec![ChannelStatus { label: "Discord", connected: true }]
    );
}

#[test]
fn all_channels_in_registry_order() {
    let keys = env_keys(&["SLACK_APP_TOKEN", "SLACK_BOT_TOKEN", "DISCORD_BOT_TOKEN", "NTFY_TOPIC"]);
    let ps = "acomm acomm --ntfy\nacomm acomm --slack\n";
    assert_eq!(
        channel_statuses_from_inputs(&keys, ps, true),
        vec![
            ChannelStatus { label: "ntfy", connected: true },
            ChannelStatus { label: "Discord", connected: false },
            ChannelStatus { label: "Slack", connected: true },
        ]
    );
    assert!(process_list_has_adapter(ps, "--slack"));
    assert!(!process_list_has_adapter(ps, "--discord"));
}
