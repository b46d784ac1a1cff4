use cc_hook::config::Hook;
use cc_hook::hook::{fires_now, HookEngine, HookError};

const MS: u64 = 1_000_000;

fn hook(name: &str, regex: &str, command: &str, cooldown_ms: Option<u64>) -> Hook {
    Hook {
        name: name.to_string(),
        regex: regex.to_string(),
        command: command.to_string(),
        cooldown_ms,
    }
}

#[test]
fn test_hook_triggering() {
    let hooks = vec![hook("test1", "Hello.*World", "echo matched", None)];

    let mut engine = HookEngine::new(hooks).ok().unwrap();

    let triggered = engine.evaluate("", "Hello, World!");
    assert_eq!(triggered.len(), 1);
    assert_eq!(triggered[0], "echo matched");

    let triggered = engine.evaluate("Hello, World!", "Hello, World!");
    assert_eq!(triggered.len(), 0);
}

#[test]
fn permission_prompt_scenario() {
    let hooks = vec![hook(
        "permission_prompt",
        "Do you want to proceed\\?",
        "notify-send ...",
        None,
    )];
    let mut engine = HookEngine::new(hooks).ok().unwrap();
    assert_eq!(engine.evaluate("", "Do you want to proceed?"), vec!["notify-send ...".to_string()]);
    assert_eq!(
        engine.evaluate("Do you want to proceed?", "Do you want to proceed?"),
        Vec::<String>::new()
    );
}

#[test]
fn sustained_match_does_not_refire() {
    let mut engine = HookEngine::new(vec![hook("h", "ready", "run", None)]).ok().unwrap();
    assert_eq!(engine.evaluate_at("", "ready", 0).len(), 1);
    assert_eq!(engine.evaluate_at("ready", "ready", 1).len(), 0);
    assert_eq!(engine.evaluate_at("ready", "", 2).len(), 0);
    assert_eq!(engine.evaluate_at("", "ready", 3).len(), 1);
}

#[test]
fn cooldown_suppresses_rising_edges() {
    let mut engine = HookEngine::new(vec![hook("h", "ping", "cmd", Some(500))]).ok().unwrap();
    assert_eq!(engine.evaluate_at("", "ping", 1000 * MS), vec!["cmd".to_string()]);
    assert_eq!(engine.evaluate_at("ping", "", 1100 * MS).len(), 0);
    assert_eq!(engine.evaluate_at("", "ping", 1200 * MS).len(), 0);
    assert_eq!(engine.evaluate_at("", "ping", 1500 * MS - 1).len(), 0);
    assert_eq!(engine.evaluate_at("", "ping", 1500 * MS), vec!["cmd".to_string()]);
}

#[test]
fn output_follows_declaration_order() {
    let hooks = vec![
        hook("a", "alpha", "first", None),
        hook("b", "beta", "second", None),
        hook("c", "gamma", "third", None),
    ];
    let mut engine = HookEngine::new(hooks).ok().unwrap();
    assert_eq!(engine.len(), 3);
    let out = engine.evaluate_at("beta", "gamma beta alpha", 0);
    assert_eq!(out, vec!["first".to_string(), "third".to_string()]);
}

#[test]
fn match_is_decided_per_frame_pair() {
    let mut engine = HookEngine::new(vec![hook("h", "x", "go", None)]).ok().unwrap();
    assert_eq!(engine.evaluate_at("", "x", 0).len(), 1);
    assert_eq!(engine.evaluate_at("", "x", 1).len(), 1);
}

#[test]
fn invalid_pattern_fails_construction() {
    let hooks = vec![hook("ok", "fine", "a", None), hook("bad", "(unclosed", "b", None)];
    match HookEngine::new(hooks) {
        Ok(_) => panic!("expected an error"),
        Err(e) => {
            assert_eq!(e.index(), 1);
            let HookError::InvalidPattern { name, .. } = &e;
            assert_eq!(name, "bad");
            assert!(e.message().contains("bad"));
        }
    }
}

#[test]
fn no_hooks_fire_nothing() {
    let mut engine = HookEngine::new(vec![]).ok().unwrap();
    assert_eq!(engine.len(), 0);
    assert!(engine.evaluate("", "anything").is_empty());
}

#[test]
fn firing_decision() {
    assert!(fires_now(false, true, None, None, 0));
    assert!(!fires_now(true, true, None, None, 0));
    assert!(!fires_now(false, false, None, None, 0));
    assert!(!fires_now(false, true, Some(500), Some(0), 500 * MS - 1));
    assert!(fires_now(false, true, Some(500), Some(0), 500 * MS));
    assert!(fires_now(false, true, Some(500), None, 0));
    assert!(fires_now(false, true, None, Some(10), 10));
    assert!(!fires_now(false, true, Some(1), Some(10 * MS), 0));
    assert!(fires_now(false, true, Some(0), Some(10 * MS), 0));
    assert!(!fires_now(false, true, Some(u64::MAX), Some(0), u64::MAX));
}
