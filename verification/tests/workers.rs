use agentverse::workers::{consolidation_plan, ConsolidationAction};
use agentverse::workers::{retention_cutoff, CleanupConfig, ConsolidationConfig, Duration, HitlSweepConfig};

#[test]
fn agent_builder_accepts_custom_cleanup_config() {
    let config = CleanupConfig {
        message_retention: Duration::from_secs(3600),
        session_retention: Duration::from_secs(86400),
        poll_interval: Duration::from_secs(60),
    };
    assert_eq!(config.message_retention.as_secs(), 3600);
}

#[test]
fn consolidation_config_defaults_are_sensible() {
    let cfg = ConsolidationConfig::default();
    assert!(cfg.batch_size > 0);
    assert!(cfg.idle_timeout.as_secs() > 0);
    assert!(cfg.poll_interval.as_secs() > 0);
}

#[test]
fn cleanup_config_defaults_are_sensible() {
    let cfg = CleanupConfig::default();
    assert!(cfg.message_retention.as_secs() > 0);
    assert!(cfg.session_retention.as_secs() > 0);
    assert!(cfg.session_retention > cfg.message_retention);
    assert!(cfg.poll_interval.as_secs() > 0);
}

#[test]
fn default_settings_have_documented_values() {
    let c = ConsolidationConfig::default();
    assert_eq!(c.batch_size, 10);
    assert_eq!(c.idle_timeout.as_secs(), 1800);
    assert_eq!(c.poll_interval.as_secs(), 60);
    let k = CleanupConfig::default();
    assert_eq!(k.message_retention.as_secs(), 86400);
    assert_eq!(k.session_retention.as_secs(), 2_592_000);
    assert_eq!(k.poll_interval.as_secs(), 300);
    assert_eq!(HitlSweepConfig::default().poll_interval.as_secs(), 60);
}

#[test]
fn consolidation_waits_for_a_batch_or_idleness() {
    let c = ConsolidationConfig::default();
    assert!(!c.should_consolidate(0, 1_000_000));
    assert!(!c.should_consolidate(3, 60));
    assert!(c.should_consolidate(3, 1800));
    assert!(c.should_consolidate(10, 0));
    assert!(!c.should_consolidate(9, -5));
}

#[test]
fn cutoffs_subtract_the_retention() {
    let k = CleanupConfig::default();
    let (sessions, messages) = k.cutoffs(1_000_000_000);
    assert_eq!(sessions, Some(1_000_000_000 - 2_592_000));
    assert_eq!(messages, Some(1_000_000_000 - 86400));
    assert_eq!(retention_cutoff(i64::MIN + 5, Duration::from_secs(10)), None);
    assert_eq!(retention_cutoff(0, Duration::from_secs(0)), Some(0));
}

#[test]
fn consolidation_writes_each_turn_before_moving_the_watermark() {
    let plan = consolidation_plan(&vec![(4, "a".to_string()), (9, "b".to_string())]);
    assert_eq!(plan.len(), 4);
    assert!(matches!(&plan[0], ConsolidationAction::Write { content } if content == "a"));
    assert!(matches!(plan[1], ConsolidationAction::Advance { seq: 4 }));
    assert!(matches!(&plan[2], ConsolidationAction::Write { content } if content == "b"));
    assert!(matches!(plan[3], ConsolidationAction::Advance { seq: 9 }));
    assert!(consolidation_plan(&vec![]).is_empty());
}
