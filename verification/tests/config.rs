use rtt_collector::config::{CollectorConfig, ConfigFault};
use rtt_collector::record::LogRecord;

fn base_config(min_millis: u64, max_millis: u64) -> CollectorConfig {
    CollectorConfig {
        chip: "nRF52840_xxAA".to_string(),
        probe: "0483:3748".to_string(),
        elf: None,
        connect_under_reset: false,
        min_poll_rate_millis: min_millis,
        max_poll_rate_millis: max_millis,
    }
}

#[test]
fn inverted_poll_rates_are_rejected_at_startup() {
    let config = base_config(500, 100);
    assert_eq!(config.validate(), Err(ConfigFault::MinExceedsMax));
}

#[test]
fn ordered_poll_rates_are_accepted() {
    let config = base_config(100, 500);
    assert_eq!(config.validate(), Ok(()));
    let state = config.initial_poll_state();
    assert_eq!(state.floor, 100);
    assert_eq!(state.ceiling, 500);
    assert_eq!(state.current, 100);
}

#[test]
fn equal_poll_rates_are_accepted() {
    let config = base_config(250, 250);
    assert_eq!(config.validate(), Ok(()));
}

#[test]
fn record_keeps_lines_in_arrival_order() {
    let mut record = LogRecord::new();
    record.append_line("first".to_string());
    record.append_lines(&vec!["second".to_string(), "third".to_string()]);
    record.append_line("fourth".to_string());
    assert_eq!(record.len(), 4);
    assert_eq!(record.line(0).as_str(), "first");
    assert_eq!(record.line(1).as_str(), "second");
    assert_eq!(record.line(2).as_str(), "third");
    assert_eq!(record.line(3).as_str(), "fourth");
}
