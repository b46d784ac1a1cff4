use cc_hook::cli::{Cli, Commands, Invocation};
use cc_hook::config::{Config, Hook};
use cc_hook::session::{exit_code, ChildStatus, Monitor};

const MS: u64 = 1_000_000;

#[test]
fn exit_codes_follow_the_child() {
    assert_eq!(exit_code(&ChildStatus::Exited(3)), Some(3));
    assert_eq!(exit_code(&ChildStatus::Exited(0)), Some(0));
    assert_eq!(exit_code(&ChildStatus::Signaled(9)), Some(137));
    assert_eq!(exit_code(&ChildStatus::Signaled(15)), Some(143));
    assert_eq!(exit_code(&ChildStatus::Running), None);
}

fn config() -> Config {
    Config {
        hooks: vec![Hook {
            name: "prompt".to_string(),
            regex: "Continue\\?".to_string(),
            command: "echo prompt".to_string(),
            cooldown_ms: None,
        }],
    }
}

#[test]
fn tick_fires_on_settled_frame() {
    let mut m = Monitor::new(config()).ok().unwrap();
    m.on_output_at(b"Continue?", 100 * MS);
    assert!(m.on_tick_at(105 * MS, 0).is_empty());
    assert_eq!(m.on_tick_at(116 * MS, 0), vec!["echo prompt".to_string()]);
    assert!(m.on_tick_at(140 * MS, 10 * MS).is_empty());
    let (prev, cur) = m.screen.get_snapshots();
    assert_eq!(prev, "Continue?");
    assert_eq!(cur, "Continue?");
}

#[test]
fn empty_config_is_passthrough() {
    let mut m = Monitor::new(Config::empty()).ok().unwrap();
    m.on_output(b"anything at all");
    assert!(m.on_tick_at(1_000 * MS, 0).is_empty());
}

#[test]
fn bad_config_refuses_to_start() {
    let mut c = config();
    c.hooks[0].regex = "[".to_string();
    assert!(Monitor::new(c).is_err());
}

#[test]
fn cli_subcommand_wins() {
    let cli = Cli {
        command: Some(Commands::Run { args: vec!["ls".to_string()] }),
        config: Some("c.toml".to_string()),
        args: vec![],
    };
    match cli.resolve() {
        Invocation::Run { config, args } => {
            assert_eq!(config, Some("c.toml".to_string()));
            assert_eq!(args, vec!["ls".to_string()]);
        }
        _ => panic!("expected run"),
    }
    let cli = Cli { command: Some(Commands::ConfigPath), config: None, args: vec!["x".to_string()] };
    assert!(matches!(cli.resolve(), Invocation::ShowConfigPath));
}

#[test]
fn cli_needs_a_command() {
    let cli = Cli { command: None, config: None, args: vec![] };
    assert!(matches!(cli.resolve(), Invocation::MissingCommand));
    let cli = Cli { command: None, config: None, args: vec!["top".to_string(), "-b".to_string()] };
    match cli.resolve() {
        Invocation::Run { config, args } => {
            assert_eq!(config, None);
            assert_eq!(args, vec!["top".to_string(), "-b".to_string()]);
        }
        _ => panic!("expected run"),
    }
}
