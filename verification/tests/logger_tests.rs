use runtime_core::error::CoreError;
use runtime_core::level::{Level, LevelFilter};
use runtime_core::logger::{LogBuffer, LogEntry, DEFAULT_READ_LIMIT, TOPIC_LOG};
use runtime_core::time_util::{utc_to_sh_rfc3339, UtcInstant};

fn offer(buffer: &mut LogBuffer, level: Level, message: &str) -> Option<LogEntry> {
    buffer.append(level, "test", message.to_string(), "2024-01-01T08:00:00+08:00".to_string())
}

fn ids(entries: &[LogEntry]) -> Vec<u64> {
    entries.iter().map(|e| e.id).collect()
}

fn messages(entries: &[LogEntry]) -> Vec<String> {
    entries.iter().map(|e| e.message.clone()).collect()
}

#[test]
fn new_buffer_is_empty() {
    let buffer = LogBuffer::new(5, LevelFilter::Warn);
    assert_eq!(buffer.len(), 0);
    assert_eq!(buffer.latest_seq(), 0);
    assert_eq!(buffer.max_len(), 5);
    assert_eq!(buffer.level(), LevelFilter::Warn);
    let (entries, latest) = buffer.get_since(None, None);
    assert!(entries.is_empty());
    assert_eq!(latest, 0);
}

#[test]
fn full_buffer_evicts_the_oldest_entry() {
    let mut buffer = LogBuffer::new(3, LevelFilter::Info);
    assert!(offer(&mut buffer, Level::Debug, "x").is_none());
    assert_eq!(buffer.latest_seq(), 0);
    assert_eq!(offer(&mut buffer, Level::Info, "a").unwrap().id, 1);
    assert_eq!(offer(&mut buffer, Level::Info, "b").unwrap().id, 2);
    assert_eq!(offer(&mut buffer, Level::Info, "c").unwrap().id, 3);
    assert_eq!(offer(&mut buffer, Level::Info, "d").unwrap().id, 4);
    let (entries, latest) = buffer.get_since(Some(0), None);
    assert_eq!(ids(&entries), vec![2, 3, 4]);
    assert_eq!(messages(&entries), vec!["b", "c", "d"]);
    assert_eq!(latest, 4);
    assert_eq!(buffer.len(), 3);
}

#[test]
fn accepted_entry_carries_what_was_offered() {
    let mut buffer = LogBuffer::new(4, LevelFilter::Trace);
    let entry = buffer.push(
        Level::Warn,
        "net::http",
        "timed out".to_string(),
        "2024-05-06T07:08:09+08:00".to_string(),
    );
    assert_eq!(entry.id, 1);
    assert_eq!(entry.level, Level::Warn);
    assert_eq!(entry.target, "net::http");
    assert_eq!(entry.message, "timed out");
    assert_eq!(entry.ts, "2024-05-06T07:08:09+08:00");
    let (entries, latest) = buffer.get_since(None, None);
    assert_eq!(latest, 1);
    assert_eq!(entries.len(), 1);
    assert_eq!(entries[0].id, 1);
    assert_eq!(entries[0].level, Level::Warn);
    assert_eq!(entries[0].target, "net::http");
    assert_eq!(entries[0].message, "timed out");
    assert_eq!(entries[0].ts, "2024-05-06T07:08:09+08:00");
}

#[test]
fn push_ignores_the_threshold() {
    let mut buffer = LogBuffer::new(4, LevelFilter::Off);
    assert!(offer(&mut buffer, Level::Error, "dropped").is_none());
    let entry = buffer.push(Level::Trace, "t", "kept".to_string(), "ts".to_string());
    assert_eq!(entry.id, 1);
    assert_eq!(buffer.len(), 1);
}

#[test]
fn buffer_never_exceeds_its_capacity() {
    let mut buffer = LogBuffer::new(7, LevelFilter::Info);
    for n in 0..100u64 {
        let level = if n % 3 == 0 { Level::Debug } else { Level::Error };
        offer(&mut buffer, level, "m");
        assert!(buffer.len() <= 7);
        let (entries, latest) = buffer.get_since(None, None);
        assert_eq!(entries.len(), buffer.len());
        for pair in entries.windows(2) {
            assert!(pair[0].id < pair[1].id);
        }
        for e in &entries {
            assert!(1 <= e.id && e.id <= latest);
        }
    }
    assert_eq!(buffer.latest_seq(), 66);
    let (entries, _) = buffer.get_since(None, None);
    assert_eq!(ids(&entries), vec![60, 61, 62, 63, 64, 65, 66]);
}

#[test]
fn read_returns_entries_above_the_given_id() {
    let mut buffer = LogBuffer::new(10, LevelFilter::Info);
    for m in ["a", "b", "c", "d", "e"] {
        offer(&mut buffer, Level::Info, m);
    }
    let (entries, latest) = buffer.get_since(Some(2), None);
    assert_eq!(ids(&entries), vec![3, 4, 5]);
    assert_eq!(messages(&entries), vec!["c", "d", "e"]);
    assert_eq!(latest, 5);
    let (entries, _) = buffer.get_since(Some(5), None);
    assert!(entries.is_empty());
    let (entries, _) = buffer.get_since(Some(u64::MAX), None);
    assert!(entries.is_empty());
    let (entries, _) = buffer.get_since(None, None);
    assert_eq!(ids(&entries), vec![1, 2, 3, 4, 5]);
}

#[test]
fn read_is_cut_at_the_limit() {
    let mut buffer = LogBuffer::new(10, LevelFilter::Info);
    for m in ["a", "b", "c", "d", "e"] {
        offer(&mut buffer, Level::Info, m);
    }
    let (entries, latest) = buffer.get_since(Some(1), Some(2));
    assert_eq!(ids(&entries), vec![2, 3]);
    assert_eq!(latest, 5);
    let (entries, _) = buffer.get_since(Some(1), Some(4));
    assert_eq!(ids(&entries), vec![2, 3, 4, 5]);
    let (entries, _) = buffer.get_since(Some(1), Some(100));
    assert_eq!(ids(&entries), vec![2, 3, 4, 5]);
}

#[test]
fn read_with_limit_zero_returns_nothing() {
    let mut buffer = LogBuffer::new(10, LevelFilter::Info);
    offer(&mut buffer, Level::Info, "a");
    let (entries, latest) = buffer.get_since(None, Some(0));
    assert!(entries.is_empty());
    assert_eq!(latest, 1);
}

#[test]
fn read_limit_defaults_to_five_hundred() {
    assert_eq!(DEFAULT_READ_LIMIT, 500);
    let mut buffer = LogBuffer::new(600, LevelFilter::Info);
    for _ in 0..600 {
        offer(&mut buffer, Level::Info, "m");
    }
    let (entries, latest) = buffer.get_since(None, None);
    assert_eq!(entries.len(), 500);
    assert_eq!(entries[0].id, 1);
    assert_eq!(entries[499].id, 500);
    assert_eq!(latest, 600);
    let (entries, _) = buffer.get_since(Some(500), None);
    assert_eq!(entries.len(), 100);
    assert_eq!(entries[0].id, 501);
}

#[test]
fn read_limit_never_exceeds_the_capacity() {
    let mut buffer = LogBuffer::new(2, LevelFilter::Info);
    for m in ["a", "b", "c"] {
        offer(&mut buffer, Level::Info, m);
    }
    let (entries, _) = buffer.get_since(None, Some(50));
    assert_eq!(ids(&entries), vec![2, 3]);
}

#[test]
fn reading_again_from_the_last_id_returns_nothing() {
    let mut buffer = LogBuffer::new(10, LevelFilter::Info);
    for m in ["a", "b", "c", "d"] {
        offer(&mut buffer, Level::Info, m);
    }
    let (first, latest) = buffer.get_since(Some(1), None);
    assert_eq!(ids(&first), vec![2, 3, 4]);
    let last = first.last().unwrap().id;
    let (second, _) = buffer.get_since(Some(last), None);
    assert!(second.is_empty());
    let (third, _) = buffer.get_since(Some(latest), None);
    assert!(third.is_empty());
}

#[test]
fn reading_in_pieces_comes_to_an_end() {
    let mut buffer = LogBuffer::new(10, LevelFilter::Info);
    for m in ["a", "b", "c", "d", "e"] {
        offer(&mut buffer, Level::Info, m);
    }
    let (first, _) = buffer.get_since(None, Some(2));
    assert_eq!(ids(&first), vec![1, 2]);
    let (second, _) = buffer.get_since(Some(2), Some(2));
    assert_eq!(ids(&second), vec![3, 4]);
    let (third, _) = buffer.get_since(Some(4), Some(2));
    assert_eq!(ids(&third), vec![5]);
    let (fourth, _) = buffer.get_since(Some(5), Some(2));
    assert!(fourth.is_empty());
}

#[test]
fn reader_sees_a_gap_after_eviction() {
    let mut buffer = LogBuffer::new(2, LevelFilter::Info);
    for m in ["a", "b", "c", "d"] {
        offer(&mut buffer, Level::Info, m);
    }
    let (entries, latest) = buffer.get_since(Some(1), None);
    assert_eq!(ids(&entries), vec![3, 4]);
    assert_eq!(latest, 4);
}

#[test]
fn clear_keeps_the_counter() {
    let mut buffer = LogBuffer::new(5, LevelFilter::Info);
    offer(&mut buffer, Level::Info, "a");
    offer(&mut buffer, Level::Info, "b");
    buffer.clear();
    assert_eq!(buffer.len(), 0);
    assert_eq!(buffer.latest_seq(), 2);
    let (entries, latest) = buffer.get_since(None, None);
    assert!(entries.is_empty());
    assert_eq!(latest, 2);
    assert_eq!(offer(&mut buffer, Level::Info, "c").unwrap().id, 3);
    let (entries, latest) = buffer.get_since(None, None);
    assert_eq!(ids(&entries), vec![3]);
    assert_eq!(latest, 3);
}

#[test]
fn capacity_zero_stores_nothing() {
    let mut buffer = LogBuffer::new(0, LevelFilter::Info);
    assert_eq!(offer(&mut buffer, Level::Info, "a").unwrap().id, 1);
    assert_eq!(offer(&mut buffer, Level::Info, "b").unwrap().id, 2);
    assert_eq!(buffer.len(), 0);
    let (entries, latest) = buffer.get_since(None, None);
    assert!(entries.is_empty());
    assert_eq!(latest, 2);
}

#[test]
fn capacity_one_keeps_the_newest() {
    let mut buffer = LogBuffer::new(1, LevelFilter::Info);
    offer(&mut buffer, Level::Info, "a");
    offer(&mut buffer, Level::Info, "b");
    let (entries, _) = buffer.get_since(None, None);
    assert_eq!(messages(&entries), vec!["b"]);
}

#[test]
fn new_threshold_applies_to_later_events_only() {
    let mut buffer = LogBuffer::new(5, LevelFilter::Info);
    assert!(offer(&mut buffer, Level::Info, "a").is_some());
    assert!(!buffer.enabled(Level::Debug));
    buffer.set_level(LevelFilter::Error);
    assert_eq!(buffer.level(), LevelFilter::Error);
    assert!(!buffer.enabled(Level::Info));
    assert!(buffer.enabled(Level::Error));
    assert!(offer(&mut buffer, Level::Info, "b").is_none());
    assert!(offer(&mut buffer, Level::Warn, "c").is_none());
    assert_eq!(offer(&mut buffer, Level::Error, "d").unwrap().id, 2);
    let (entries, _) = buffer.get_since(None, None);
    assert_eq!(messages(&entries), vec!["a", "d"]);
    buffer.set_level(LevelFilter::Trace);
    assert_eq!(offer(&mut buffer, Level::Trace, "e").unwrap().id, 3);
    buffer.set_level(LevelFilter::Off);
    assert!(offer(&mut buffer, Level::Error, "f").is_none());
    assert_eq!(buffer.latest_seq(), 3);
}

#[test]
fn threshold_is_set_by_name() {
    let mut buffer = LogBuffer::new(5, LevelFilter::Info);
    assert_eq!(buffer.set_level_by_name("debug"), Ok(LevelFilter::Debug));
    assert_eq!(buffer.level(), LevelFilter::Debug);
    assert_eq!(buffer.set_level_by_name("WARN"), Ok(LevelFilter::Warn));
    assert_eq!(buffer.level(), LevelFilter::Warn);
    assert_eq!(buffer.set_level_by_name("Off"), Ok(LevelFilter::Off));
    assert_eq!(buffer.level(), LevelFilter::Off);
}

#[test]
fn unknown_level_name_leaves_the_threshold() {
    let mut buffer = LogBuffer::new(5, LevelFilter::Warn);
    assert_eq!(buffer.set_level_by_name("verbose"), Err(CoreError::InvalidLevel));
    assert_eq!(buffer.level(), LevelFilter::Warn);
    assert_eq!(buffer.set_level_by_name(""), Err(CoreError::InvalidLevel));
    assert_eq!(buffer.level(), LevelFilter::Warn);
    assert_eq!(CoreError::InvalidLevel.message(), "invalid level");
}

#[test]
fn push_keeps_the_stamp_it_is_given() {
    let mut buffer = LogBuffer::new(5, LevelFilter::Info);
    let now = chrono::Utc::now();
    let instant = UtcInstant::new(now.timestamp(), now.timestamp_subsec_nanos()).unwrap();
    let ts = utc_to_sh_rfc3339(instant);
    let entry = buffer.push(Level::Info, "clock", "tick".to_string(), ts.clone());
    assert_eq!(entry.id, 1);
    assert_eq!(entry.message, "tick");
    assert_eq!(entry.ts, ts);
    let parsed = chrono::DateTime::parse_from_rfc3339(&entry.ts).unwrap();
    assert_eq!(parsed.offset().local_minus_utc(), 8 * 3600);
    assert_eq!(parsed.timestamp(), now.timestamp());
}

#[test]
fn returned_entry_is_the_one_stored() {
    let mut buffer = LogBuffer::new(5, LevelFilter::Info);
    buffer.append(Level::Info, "first", "one".to_string(), "t1".to_string());
    let entry = buffer.append(Level::Error, "disk", "full".to_string(), "t2".to_string()).unwrap();
    assert_eq!(entry.id, 2);
    assert_eq!(entry.level, Level::Error);
    assert_eq!(entry.target, "disk");
    assert_eq!(entry.message, "full");
    assert_eq!(entry.ts, "t2");
    let (entries, _) = buffer.get_since(Some(1), None);
    assert_eq!(entries.len(), 1);
    assert_eq!(entries[0].id, entry.id);
    assert_eq!(entries[0].level, entry.level);
    assert_eq!(entries[0].target, entry.target);
    assert_eq!(entries[0].message, entry.message);
    assert_eq!(entries[0].ts, entry.ts);
}

#[test]
fn topic_of_entries_is_log() {
    assert_eq!(TOPIC_LOG, "log");
}

#[test]
fn entry_clone_is_equal_field_by_field() {
    let entry = LogEntry {
        id: 9,
        ts: "ts".to_string(),
        level: Level::Debug,
        target: "t".to_string(),
        message: "m".to_string(),
    };
    let copy = entry.clone();
    assert_eq!(copy.id, 9);
    assert_eq!(copy.ts, "ts");
    assert_eq!(copy.level, Level::Debug);
    assert_eq!(copy.target, "t");
    assert_eq!(copy.message, "m");
}
