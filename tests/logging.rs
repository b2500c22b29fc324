use sequencer::logging::{Level, LogFormat, LogOptions};

#[test]
fn log_format_names() {
    assert_eq!(LogFormat::parse("compact"), Some(LogFormat::Compact));
    assert_eq!(LogFormat::parse("pretty"), Some(LogFormat::Pretty));
    assert_eq!(LogFormat::parse("json"), Some(LogFormat::Json));
    assert_eq!(LogFormat::parse("Json"), None);
    assert_eq!(LogFormat::parse(""), None);
    assert_eq!(LogFormat::parse("prettyy"), None);
}

fn options(verbose: usize, filter: &str) -> LogOptions {
    LogOptions {
        verbose,
        log_filter: filter.to_owned(),
        log_format: LogFormat::Pretty,
    }
}

#[test]
fn verbosity_levels() {
    assert_eq!(options(0, "").verbosity(), (Level::Info, Level::Info));
    assert_eq!(options(1, "").verbosity(), (Level::Info, Level::Debug));
    assert_eq!(options(2, "").verbosity(), (Level::Info, Level::Trace));
    assert_eq!(options(3, "").verbosity(), (Level::Debug, Level::Trace));
    assert_eq!(options(4, "").verbosity(), (Level::Trace, Level::Trace));
    assert_eq!(options(usize::MAX, "").verbosity(), (Level::Trace, Level::Trace));
}

#[test]
fn filter_presence() {
    assert!(!options(0, "").has_filter());
    assert!(options(0, "foo").has_filter());
}
