use server_bootstrap::hot_reload::{
    pattern_matches, HotReloadAction, HotReloadConfig, HotReloadRule, WatchEventKind,
};

fn rules() -> HotReloadConfig {
    HotReloadConfig {
        files: vec![
            HotReloadRule {
                pattern: "*.yml".to_string(),
                action: HotReloadAction::Reload,
            },
            HotReloadRule {
                pattern: "plugins/*.jar".to_string(),
                action: HotReloadAction::ReloadPlugin("CoolPlugin".to_string()),
            },
        ],
    }
}

#[test]
fn modify_event_dispatches_first_matching_rule() {
    let cfg = rules();
    let action = cfg.dispatch(WatchEventKind::Modify, "config/settings.yml");
    assert_eq!(action, Some(HotReloadAction::Reload));
}

#[test]
fn create_event_dispatches_too() {
    let cfg = rules();
    let action = cfg.dispatch(WatchEventKind::Create, "plugins/cool.jar");
    assert_eq!(
        action,
        Some(HotReloadAction::ReloadPlugin("CoolPlugin".to_string()))
    );
}

#[test]
fn unmatched_path_dispatches_nothing() {
    let cfg = rules();
    assert_eq!(cfg.dispatch(WatchEventKind::Modify, "config/notes.md"), None);
}

#[test]
fn other_event_kinds_are_ignored() {
    let cfg = rules();
    assert_eq!(
        cfg.dispatch(WatchEventKind::Other, "config/settings.yml"),
        None
    );
}

#[test]
fn first_match_wins_over_later_rules() {
    let cfg = HotReloadConfig {
        files: vec![
            HotReloadRule {
                pattern: "*".to_string(),
                action: HotReloadAction::Restart,
            },
            HotReloadRule {
                pattern: "*.yml".to_string(),
                action: HotReloadAction::Reload,
            },
        ],
    };
    assert_eq!(
        cfg.dispatch(WatchEventKind::Modify, "a.yml"),
        Some(HotReloadAction::Restart)
    );
}

#[test]
fn run_command_action_carries_its_command() {
    let cfg = HotReloadConfig {
        files: vec![HotReloadRule {
            pattern: "ops.json".to_string(),
            action: HotReloadAction::RunCommand("op list".to_string()),
        }],
    };
    assert_eq!(
        cfg.dispatch(WatchEventKind::Modify, "ops.json"),
        Some(HotReloadAction::RunCommand("op list".to_string()))
    );
}

#[test]
fn star_crosses_path_separators() {
    assert!(pattern_matches("*.yml", "config/deep/nest/file.yml"));
    assert!(pattern_matches("plugins/*.jar", "plugins/sub/cool.jar"));
    assert!(!pattern_matches("*.yml", "file.yaml"));
}

#[test]
fn question_mark_matches_one_character() {
    assert!(pattern_matches("a?c", "abc"));
    assert!(!pattern_matches("a?c", "ac"));
    assert!(!pattern_matches("a?c", "abbc"));
}

#[test]
fn empty_pattern_matches_only_empty_path() {
    assert!(pattern_matches("", ""));
    assert!(!pattern_matches("", "a"));
    assert!(pattern_matches("*", ""));
}
