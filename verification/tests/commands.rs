use beehive::commands::{cli_help, parse_cli_action, startup_command_action, CliAction};

#[test]
fn parse_cli_action_defaults_to_running_app() {
    let action = parse_cli_action(vec!["bh".to_string()]).unwrap();
    assert_eq!(action, CliAction::RunApp);
}

#[test]
fn parse_cli_action_accepts_help_flag() {
    let action = parse_cli_action(vec!["bh".to_string(), "--help".to_string()]).unwrap();

    match action {
        CliAction::PrintHelp(help) => {
            assert!(help.contains("Usage:"));
            assert!(help.contains("--startup-cmd"));
        }
        _ => panic!("expected help action"),
    }
}

#[test]
fn parse_cli_action_accepts_short_help_flag() {
    let action = parse_cli_action(vec!["bh".to_string(), "-h".to_string()]).unwrap();

    match action {
        CliAction::PrintHelp(help) => assert!(help.contains("Beehive TUI")),
        _ => panic!("expected help action"),
    }
}

#[test]
fn parse_cli_action_accepts_startup_command_flag() {
    let action = parse_cli_action(vec![
        "bh".to_string(),
        "--startup-cmd".to_string(),
        "tmux new-session -A -s dev".to_string(),
    ])
    .unwrap();

    assert_eq!(
        action,
        CliAction::SetStartupCommand("tmux new-session -A -s dev".to_string())
    );
}

#[test]
fn parse_cli_action_accepts_equals_form() {
    let action = parse_cli_action(vec![
        "bh".to_string(),
        "--startup-cmd=tmux new-session -A -s dev".to_string(),
    ])
    .unwrap();

    assert_eq!(
        action,
        CliAction::SetStartupCommand("tmux new-session -A -s dev".to_string())
    );
}

#[test]
fn parse_cli_action_treats_empty_command_as_clear() {
    let action = parse_cli_action(vec![
        "bh".to_string(),
        "--startup-cmd".to_string(),
        "".to_string(),
    ])
    .unwrap();

    assert_eq!(action, CliAction::ClearStartupCommand);
}

#[test]
fn parse_cli_action_rejects_missing_startup_command_value() {
    let err = parse_cli_action(vec!["bh".to_string(), "--startup-cmd".to_string()]).unwrap_err();
    assert!(err.to_string().contains("Missing value for --startup-cmd"));
}

#[test]
fn parse_cli_action_unknown_argument_includes_help() {
    let err = parse_cli_action(vec!["bh".to_string(), "--wat".to_string()]).unwrap_err();
    assert!(err.to_string().contains("Unknown argument '--wat'"));
    assert!(err.to_string().contains("--help"));
}

#[test]
fn whitespace_only_startup_command_clears_it() {
    assert_eq!(startup_command_action("   ".to_string()), CliAction::ClearStartupCommand);
    assert_eq!(
        startup_command_action("  zsh ".to_string()),
        CliAction::SetStartupCommand("  zsh ".to_string())
    );
}

#[test]
fn help_text_names_the_program() {
    let help = cli_help("beehive");
    assert!(help.starts_with("Beehive TUI\n\nUsage:\n  beehive\n"));
    assert!(help.contains("beehive --help"));
}
