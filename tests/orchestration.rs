use mysql_backup::error::BackupError;
use mysql_backup::orchestrator::{select_strategy, BackupGuard, Strategy, StrategyHint};
use mysql_backup::progress::{archive_percent, stage_event, table_event, table_percent, Stage};

#[test]
fn engine_names() {
    assert_eq!(StrategyHint::from_engine(Some("mysqldump")), StrategyHint::ExternalTool);
    assert_eq!(StrategyHint::from_engine(Some("builtin")), StrategyHint::BuiltIn);
    assert_eq!(StrategyHint::from_engine(Some("other")), StrategyHint::Auto);
    assert_eq!(StrategyHint::from_engine(Some("")), StrategyHint::Auto);
    assert_eq!(StrategyHint::from_engine(None), StrategyHint::Auto);
}

#[test]
fn strategy_selection() {
    assert_eq!(select_strategy(StrategyHint::ExternalTool, true).unwrap(), Strategy::ExternalTool);
    assert!(matches!(
        select_strategy(StrategyHint::ExternalTool, false),
        Err(BackupError::ToolUnavailable)
    ));
    assert_eq!(select_strategy(StrategyHint::BuiltIn, true).unwrap(), Strategy::BuiltIn);
    assert_eq!(select_strategy(StrategyHint::BuiltIn, false).unwrap(), Strategy::BuiltIn);
    assert_eq!(select_strategy(StrategyHint::Auto, true).unwrap(), Strategy::ExternalTool);
    assert_eq!(select_strategy(StrategyHint::Auto, false).unwrap(), Strategy::BuiltIn);
}

#[test]
fn second_request_is_busy() {
    let mut guard = BackupGuard::new();
    assert!(!guard.is_running());
    assert!(guard.try_acquire().is_ok());
    let started = std::time::Instant::now();
    assert!(matches!(guard.try_acquire(), Err(BackupError::Busy)));
    assert!(started.elapsed() < std::time::Duration::from_millis(100));
    assert!(guard.is_running());
    guard.release();
    assert!(!guard.is_running());
    assert!(guard.try_acquire().is_ok());
}

#[test]
fn table_percentages() {
    assert_eq!(table_percent(0, 4), 20);
    assert_eq!(table_percent(1, 4), 32);
    assert_eq!(table_percent(3, 4), 57);
    assert_eq!(table_percent(0, 1), 20);
    assert_eq!(table_percent(99, 100), 69);
    assert_eq!(archive_percent(3, 4), 90);
    assert_eq!(archive_percent(0, 7), 75);
    assert_eq!(table_percent(usize::MAX - 1, usize::MAX), 69);
}

#[test]
fn checkpoint_events() {
    let e = stage_event(Stage::Done);
    assert_eq!(e.percent, 100);
    assert_eq!(e.status, "备份完成");
    assert!(e.current_table.is_none());
    assert_eq!(stage_event(Stage::Preparing).percent, 0);
    assert_eq!(stage_event(Stage::ToolCaptured).percent, 60);
    let t = table_event("正在备份表...", "users", 45);
    assert_eq!(t.current_table.as_deref(), Some("users"));
    assert_eq!(t.percent, 45);
}
