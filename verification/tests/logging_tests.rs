use replicante_util::logging::Config;
use replicante_util::logging::LevelFilter;
use replicante_util::logging::LoggingBackend;
use replicante_util::logging::LoggingLevel;
use replicante_util::logging::PrefixLevel;

fn prefix(prefix: &str, level: LoggingLevel) -> PrefixLevel {
    PrefixLevel { prefix: String::from(prefix), level }
}

#[test]
fn default_emit() {
    let filter = LevelFilter::new(LoggingLevel::Warning);
    let allowed = filter.allow("test", LoggingLevel::Error);
    assert!(allowed);
}

#[test]
fn default_skip() {
    let filter = LevelFilter::new(LoggingLevel::Warning);
    let allowed = filter.allow("test", LoggingLevel::Info);
    assert!(!allowed);
}

#[test]
fn prefix_emit() {
    let mut filter = LevelFilter::new(LoggingLevel::Warning);
    filter.modules(vec![prefix("replicante", LoggingLevel::Debug)]);
    let allowed = filter.allow("replicante::logging", LoggingLevel::Debug);
    assert!(allowed);
}

#[test]
fn prefix_skip() {
    let mut filter = LevelFilter::new(LoggingLevel::Warning);
    filter.modules(vec![prefix("replicante", LoggingLevel::Error)]);
    let allowed = filter.allow("replicante::logging", LoggingLevel::Warning);
    assert!(!allowed);
}

#[test]
fn prefix_sorted_check() {
    // Two nested prefixes: installing them sorts the longer (more
    // specific) one first, so it decides for modules under it.
    let mut filter = LevelFilter::new(LoggingLevel::Warning);
    filter.modules(vec![
        prefix("repli", LoggingLevel::Error),
        prefix("replicante", LoggingLevel::Debug),
    ]);
    assert!(filter.allow("replicante::logging", LoggingLevel::Debug));
    assert!(!filter.allow("replimatch::other", LoggingLevel::Warning));
}

#[test]
fn modules_are_sorted() {
    let mut filter = LevelFilter::new(LoggingLevel::Warning);
    filter.modules(vec![
        prefix("test", LoggingLevel::Debug),
        prefix("ac", LoggingLevel::Warning),
        prefix("abc", LoggingLevel::Info),
        prefix("a", LoggingLevel::Error),
    ]);
    assert_eq!(
        filter.overrides(),
        &vec![
            prefix("test", LoggingLevel::Debug),
            prefix("ac", LoggingLevel::Warning),
            prefix("abc", LoggingLevel::Info),
            prefix("a", LoggingLevel::Error),
        ]
    );
}

#[test]
fn config_defaults() {
    let config = Config::default();
    assert_eq!(config.async_flush, true);
    assert_eq!(config.backend, LoggingBackend::Json);
    assert_eq!(config.include_version, false);
    assert_eq!(config.level, LoggingLevel::Info);
    assert!(config.modules.is_empty());
    assert_eq!(config.verbose, false);
}

#[test]
fn level_severity_order() {
    assert!(LoggingLevel::Critical.is_at_least(LoggingLevel::Error));
    assert!(LoggingLevel::Error.is_at_least(LoggingLevel::Warning));
    assert!(LoggingLevel::Warning.is_at_least(LoggingLevel::Info));
    assert!(LoggingLevel::Info.is_at_least(LoggingLevel::Debug));
    assert!(!LoggingLevel::Debug.is_at_least(LoggingLevel::Info));
}
