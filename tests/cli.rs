use yuiclaw::cli::{Cli, Commands, DaemonCommands, DEFAULT_PROVIDER};

#[test]
fn no_subcommand_means_start_with_gemini() {
    match (Cli { command: None }).command_or_default() {
        Commands::Start { provider } => assert_eq!(provider, "Gemini"),
        _ => panic!("expected start"),
    }
    assert_eq!(DEFAULT_PROVIDER, "Gemini");
}

#[test]
fn given_subcommand_is_kept() {
    let c = Cli { command: Some(Commands::Daemon { action: DaemonCommands::Status { json: true } }) };
    assert!(matches!(c.command_or_default(), Commands::Daemon { action: DaemonCommands::Status { json: true } }));
}

#[test]
fn provider_shorthands_name_their_provider() {
    assert_eq!(Commands::Opencode { new: true }.provider_shorthand(), Some(("OpenCode", true)));
    assert_eq!(Commands::Anthropic { new: false }.provider_shorthand(), Some(("Anthropic", false)));
    assert_eq!(Commands::Gemini { new: false }.provider_shorthand(), Some(("Gemini", false)));
    assert_eq!(Commands::Codex { new: true }.provider_shorthand(), Some(("Codex", true)));
    assert_eq!(Commands::Dummy { new: true }.provider_shorthand(), Some(("Dummy", true)));
    assert_eq!(Commands::Status.provider_shorthand(), None);
}
