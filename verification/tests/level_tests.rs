use runtime_core::error::CoreError;
use runtime_core::level::{parse_level_filter, Level, LevelFilter};

const LEVELS: [Level; 5] = [Level::Error, Level::Warn, Level::Info, Level::Debug, Level::Trace];
const FILTERS: [LevelFilter; 6] = [
    LevelFilter::Off,
    LevelFilter::Error,
    LevelFilter::Warn,
    LevelFilter::Info,
    LevelFilter::Debug,
    LevelFilter::Trace,
];

#[test]
fn level_names_are_upper_case() {
    assert_eq!(Level::Error.as_str(), "ERROR");
    assert_eq!(Level::Warn.as_str(), "WARN");
    assert_eq!(Level::Info.as_str(), "INFO");
    assert_eq!(Level::Debug.as_str(), "DEBUG");
    assert_eq!(Level::Trace.as_str(), "TRACE");
}

#[test]
fn level_names_are_those_of_the_log_crate() {
    let outside = [
        log::Level::Error,
        log::Level::Warn,
        log::Level::Info,
        log::Level::Debug,
        log::Level::Trace,
    ];
    for (ours, theirs) in LEVELS.iter().zip(outside.iter()) {
        assert_eq!(ours.as_str(), theirs.to_string());
    }
}

#[test]
fn each_level_has_its_filter() {
    assert_eq!(Level::Error.to_level_filter(), LevelFilter::Error);
    assert_eq!(Level::Warn.to_level_filter(), LevelFilter::Warn);
    assert_eq!(Level::Info.to_level_filter(), LevelFilter::Info);
    assert_eq!(Level::Debug.to_level_filter(), LevelFilter::Debug);
    assert_eq!(Level::Trace.to_level_filter(), LevelFilter::Trace);
}

#[test]
fn filter_verbosity_counts_from_off() {
    let expected: [u8; 6] = [0, 1, 2, 3, 4, 5];
    for (filter, rank) in FILTERS.iter().zip(expected.iter()) {
        assert_eq!(filter.verbosity(), *rank);
    }
}

#[test]
fn filter_passes_levels_up_to_its_own() {
    for (f, filter) in FILTERS.iter().enumerate() {
        for (l, level) in LEVELS.iter().enumerate() {
            assert_eq!(filter.enabled(*level), l + 1 <= f);
        }
    }
    assert!(LevelFilter::Info.enabled(Level::Warn));
    assert!(LevelFilter::Info.enabled(Level::Info));
    assert!(!LevelFilter::Info.enabled(Level::Debug));
    assert!(!LevelFilter::Off.enabled(Level::Error));
    assert!(LevelFilter::Trace.enabled(Level::Trace));
}

#[test]
fn filter_agrees_with_the_log_crate() {
    let outside_levels = [
        log::Level::Error,
        log::Level::Warn,
        log::Level::Info,
        log::Level::Debug,
        log::Level::Trace,
    ];
    let outside_filters = [
        log::LevelFilter::Off,
        log::LevelFilter::Error,
        log::LevelFilter::Warn,
        log::LevelFilter::Info,
        log::LevelFilter::Debug,
        log::LevelFilter::Trace,
    ];
    for (f, filter) in FILTERS.iter().enumerate() {
        for (l, level) in LEVELS.iter().enumerate() {
            let theirs = outside_levels[l].to_level_filter() <= outside_filters[f];
            assert_eq!(filter.enabled(*level), theirs);
        }
    }
}

#[test]
fn filter_names_are_read_in_any_case() {
    assert_eq!(parse_level_filter("trace"), Ok(LevelFilter::Trace));
    assert_eq!(parse_level_filter("debug"), Ok(LevelFilter::Debug));
    assert_eq!(parse_level_filter("info"), Ok(LevelFilter::Info));
    assert_eq!(parse_level_filter("warn"), Ok(LevelFilter::Warn));
    assert_eq!(parse_level_filter("error"), Ok(LevelFilter::Error));
    assert_eq!(parse_level_filter("off"), Ok(LevelFilter::Off));
    assert_eq!(parse_level_filter("TRACE"), Ok(LevelFilter::Trace));
    assert_eq!(parse_level_filter("Debug"), Ok(LevelFilter::Debug));
    assert_eq!(parse_level_filter("iNfO"), Ok(LevelFilter::Info));
    assert_eq!(parse_level_filter("OFF"), Ok(LevelFilter::Off));
}

#[test]
fn other_filter_names_are_refused() {
    let names = ["", "warning", "inf", "infos", " info", "info ", "none", "tracé", "ınfo", "İnfo"];
    for name in names {
        assert_eq!(parse_level_filter(name), Err(CoreError::InvalidLevel));
    }
}

#[test]
fn filter_names_agree_with_lower_casing() {
    let names =
        ["Trace", "DEBUG", "info", "WaRn", "ERROR", "oFF", "nope", "İNFO", "KELVIN\u{212A}"];
    for name in names {
        let expected = match name.to_lowercase().as_str() {
            "trace" => Ok(LevelFilter::Trace),
            "debug" => Ok(LevelFilter::Debug),
            "info" => Ok(LevelFilter::Info),
            "warn" => Ok(LevelFilter::Warn),
            "error" => Ok(LevelFilter::Error),
            "off" => Ok(LevelFilter::Off),
            _ => Err(CoreError::InvalidLevel),
        };
        assert_eq!(parse_level_filter(name), expected);
    }
}
