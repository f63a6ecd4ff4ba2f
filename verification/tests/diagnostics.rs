use gecko::console::{level_slot, Console};
use gecko::diagnostics::LogBufferInner;
use tracing::Level;

fn buffer_with(capacity: usize, messages: &[&str]) -> LogBufferInner {
    let mut buffer = LogBufferInner::new(capacity);
    for message in messages {
        buffer.push(Level::INFO, "gecko", None, message);
    }
    buffer
}

#[test]
fn level_slots_follow_severity() {
    assert_eq!(level_slot(Level::ERROR), 0);
    assert_eq!(level_slot(Level::WARN), 1);
    assert_eq!(level_slot(Level::INFO), 2);
    assert_eq!(level_slot(Level::DEBUG), 3);
    assert_eq!(level_slot(Level::TRACE), 4);
}

#[test]
fn pushed_lines_read_back_by_number() {
    let buffer = buffer_with(4, &["a", "b", "c"]);
    assert_eq!(buffer.next_seq(), 3);
    assert_eq!(buffer.head_seq(), 0);
    assert_eq!(buffer.get(1).unwrap().seq, 1);
    assert_eq!(buffer.get(1).unwrap().display, "[INFO ] gecko: b");
    assert!(buffer.get(3).is_none());
}

#[test]
fn a_full_buffer_evicts_the_oldest_line() {
    let buffer = buffer_with(2, &["a", "b", "c"]);
    assert_eq!(buffer.head_seq(), 1);
    assert_eq!(buffer.next_seq(), 3);
    assert!(buffer.get(0).is_none());
    assert_eq!(buffer.get(2).unwrap().display, "[INFO ] gecko: c");
}

#[test]
fn a_zero_capacity_buffer_keeps_the_last_line() {
    let buffer = buffer_with(0, &["a", "b"]);
    assert_eq!(buffer.head_seq(), 1);
    assert_eq!(buffer.get(1).unwrap().display, "[INFO ] gecko: b");
}

#[test]
fn lines_carry_span_and_lowercase_filter_key() {
    let mut buffer = LogBufferInner::new(8);
    buffer.push(Level::ERROR, "Gecko::RHI", Some("Frame:Pass".to_string()), "Lost DEVICE");
    buffer.push(Level::WARN, "Gecko", None, "Slow");
    let first = buffer.get(0).unwrap();
    assert_eq!(first.display, "[ERROR] Gecko::RHI [Frame:Pass]: Lost DEVICE");
    assert_eq!(first.filter_key, "gecko::rhi\u{1}frame:pass\u{1}lost device");
    assert_eq!(first.level, Level::ERROR);
    let second = buffer.get(1).unwrap();
    assert_eq!(second.display, "[WARN ] Gecko: Slow");
    assert_eq!(second.filter_key, "gecko\u{1}slow");
}

#[test]
fn entries_from_skips_older_lines() {
    let buffer = buffer_with(3, &["a", "b", "c", "d"]);
    let seqs: Vec<u64> = buffer.entries_from(0).iter().map(|e| e.seq).collect();
    assert_eq!(seqs, vec![1, 2, 3]);
    let seqs: Vec<u64> = buffer.entries_from(3).iter().map(|e| e.seq).collect();
    assert_eq!(seqs, vec![3]);
    assert!(buffer.entries_from(9).is_empty());
}

#[test]
fn console_hides_trace_by_default_and_filters_text() {
    let mut buffer = LogBufferInner::new(16);
    buffer.push(Level::INFO, "gecko", None, "Starting up");
    buffer.push(Level::TRACE, "gecko", None, "noise");
    buffer.push(Level::WARN, "wgpu", None, "Slow frame");
    let mut console = Console::new();
    console.sync_filtered(&buffer, false);
    assert_eq!(console.filtered(), &vec![0, 2]);

    console.set_filter_text("SLOW".to_string());
    console.sync_filtered(&buffer, true);
    assert_eq!(console.filtered(), &vec![2]);

    console.set_level_shown(1, false);
    console.sync_filtered(&buffer, true);
    assert!(console.filtered().is_empty());
}

#[test]
fn console_sync_is_incremental_and_drops_evicted_lines() {
    let mut buffer = LogBufferInner::new(3);
    let mut console = Console::new();
    buffer.push(Level::INFO, "gecko", None, "one");
    buffer.push(Level::INFO, "gecko", None, "two");
    console.sync_filtered(&buffer, false);
    assert_eq!(console.filtered(), &vec![0, 1]);
    buffer.push(Level::INFO, "gecko", None, "three");
    buffer.push(Level::INFO, "gecko", None, "four");
    console.sync_filtered(&buffer, false);
    assert_eq!(console.filtered(), &vec![1, 2, 3]);
}

#[test]
fn console_clear_hides_earlier_lines() {
    let mut buffer = LogBufferInner::new(8);
    let mut console = Console::new();
    buffer.push(Level::INFO, "gecko", None, "before");
    console.sync_filtered(&buffer, false);
    console.clear(&buffer);
    buffer.push(Level::INFO, "gecko", None, "after");
    console.sync_filtered(&buffer, false);
    assert_eq!(console.filtered(), &vec![1]);
    console.sync_filtered(&buffer, true);
    assert_eq!(console.filtered(), &vec![1]);
}

#[test]
fn console_matches_levels_and_text() {
    let mut buffer = LogBufferInner::new(4);
    buffer.push(Level::DEBUG, "gecko", None, "Hello World");
    let entry = buffer.get(0).unwrap();
    let mut console = Console::new();
    assert!(console.matches(entry));
    console.set_filter_text("WORLD".to_string());
    console.sync_filtered(&buffer, true);
    assert!(console.matches(entry));
    console.set_filter_text("moon".to_string());
    console.sync_filtered(&buffer, true);
    assert!(!console.matches(entry));
}

#[test]
fn self_tags_are_lower_case_levels() {
    assert_eq!(gecko::diagnostics::self_tag("wgpu_core", Level::WARN), "[wgpu_core][warn] ");
    assert_eq!(gecko::diagnostics::self_tag("naga", Level::ERROR), "[naga][error] ");
}

#[test]
fn strip_self_tag_removes_only_a_leading_tag() {
    let strip = gecko::diagnostics::strip_self_tag;
    assert_eq!(strip("[naga][info] validated", "naga", Level::INFO), "validated");
    assert_eq!(strip("validated [naga][info] ", "naga", Level::INFO), "validated [naga][info] ");
    assert_eq!(strip("[naga][warn] validated", "naga", Level::INFO), "[naga][warn] validated");
}

#[test]
fn remove_first_cuts_the_first_occurrence() {
    let remove = gecko::diagnostics::remove_first;
    assert_eq!(remove("2024 INFO [a][info] x [a][info] y", "[a][info] "), "2024 INFO x [a][info] y");
    assert_eq!(remove("nothing here", "[a][info] "), "nothing here");
    assert_eq!(remove("abc", ""), "abc");
}
