use tiltak_interface::settings::build_mcts_settings;
use tiltak_interface::settings::MctsSettings;

#[test]
fn plain_engine_keeps_the_defaults() {
    assert_eq!(
        build_mcts_settings(false, false, None),
        MctsSettings {
            rollout_depth: None,
            rollout_temperature_percent: None,
            dirichlet_percent: None,
            arena_slots: None,
        }
    );
}

#[test]
fn bots_use_rollouts() {
    let slatebot = build_mcts_settings(true, false, None);
    assert_eq!(slatebot.rollout_depth, Some(200));
    assert_eq!(slatebot.rollout_temperature_percent, Some(20));
    assert_eq!(slatebot.dirichlet_percent, None);
    let cobblebot = build_mcts_settings(false, true, None);
    assert_eq!(cobblebot.rollout_depth, Some(200));
    assert_eq!(cobblebot.rollout_temperature_percent, Some(20));
    assert_eq!(cobblebot.dirichlet_percent, Some(25));
    assert_eq!(build_mcts_settings(true, true, None), slatebot);
}

#[test]
fn arena_size_is_given_in_megabytes() {
    let slots = |text: &str| build_mcts_settings(false, false, Some(text)).arena_slots;
    assert_eq!(slots("0"), Some(0));
    assert_eq!(slots("1"), Some(65_536));
    assert_eq!(slots("65535"), Some(4_294_901_760));
    assert_eq!(slots("65536"), Some(u32::MAX));
    assert_eq!(slots("4294967295"), Some(u32::MAX));
    assert_eq!(slots("4294967296"), None);
    assert_eq!(slots("many"), None);
    assert_eq!(slots(""), None);
}
