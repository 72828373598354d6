use astra::logging::{format_entry, FileLogger, LogLevel};
use astra::supervision::{SupervisionStrategy, Supervisor};

#[test]
fn supervisor_applies_its_strategy_to_every_failure() {
    for strategy in [SupervisionStrategy::Restart, SupervisionStrategy::Ignore, SupervisionStrategy::Escalate] {
        let supervisor = Supervisor::new(strategy);
        assert_eq!(supervisor.strategy(), strategy);
        assert_eq!(supervisor.handle_failure("a", "boom"), strategy);
        assert_eq!(supervisor.handle_failure("b", ""), strategy);
    }
}

#[test]
fn log_entries() {
    assert_eq!(format_entry(LogLevel::Info, "started"), "[Info] started");
    assert_eq!(format_entry(LogLevel::Error, "x"), "[Error] x");
    assert_eq!(format_entry(LogLevel::Debug, ""), "[Debug] ");
    let logger = FileLogger::new("log.txt".to_string());
    assert_eq!(logger.file_path(), "log.txt");
    assert_eq!(logger.file_entry(LogLevel::Info, "m"), "[Info] m\n");
    assert_eq!(LogLevel::Error.name(), "Error");
}
