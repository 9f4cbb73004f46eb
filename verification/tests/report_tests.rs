use flate2::write::GzEncoder;
use flate2::Compression;
use mist::apt::{AptAction, AptMarks};
use mist::cache::MprCache;
use mist::date::utc_day;
use mist::list_comments::{comment_text, list_comments, Comment};
use mist::progress::{LineStyle, MistAcquireProgress, MistInstallProgress, PROGRESS_STR_LEN};
use std::io::Write;

fn gzip(data: &[u8]) -> Vec<u8> {
    let mut encoder = GzEncoder::new(Vec::new(), Compression::default());
    encoder.write_all(data).unwrap();
    encoder.finish().unwrap()
}

#[test]
fn archive_is_unpacked() {
    let text = "[{\"Name\":\"toast\"}]";
    assert_eq!(MprCache::validate_data(&gzip(text.as_bytes())), Ok(text.to_string()));
    assert_eq!(MprCache::validate_data(&gzip(b"")), Ok(String::new()));
}

#[test]
fn what_is_no_archive_is_refused() {
    assert_eq!(MprCache::validate_data(b"plain text"), Err(()));
    assert_eq!(MprCache::validate_data(b""), Err(()));
    let mut cut = gzip(b"some text that is long enough to be cut in the middle");
    cut.truncate(cut.len() / 2);
    assert_eq!(MprCache::validate_data(&cut), Err(()));
}

#[test]
fn archive_of_what_is_no_text_is_refused() {
    assert_eq!(MprCache::validate_data(&gzip(&[0xff, 0xfe, 0x00])), Err(()));
}

#[test]
fn day_of_a_moment() {
    assert_eq!(utc_day(0).as_deref(), Some("1970-01-01"));
    assert_eq!(utc_day(86399).as_deref(), Some("1970-01-01"));
    assert_eq!(utc_day(86400).as_deref(), Some("1970-01-02"));
    assert_eq!(utc_day(-1).as_deref(), Some("1969-12-31"));
    assert_eq!(utc_day(1_666_000_000).as_deref(), Some("2022-10-17"));
    assert_eq!(utc_day(i64::MAX), None);
    assert_eq!(utc_day(i64::MIN), None);
}

#[test]
fn one_comment_is_laid_out() {
    assert_eq!(
        comment_text("2022-10-17", "hwittenborn", "  Works for me.\n\n"),
        "# Date: 2022-10-17\n# Author: hwittenborn\n\nWorks for me."
    );
}

#[test]
fn comments_are_separated_by_a_rule() {
    let comments = vec![
        Comment { date: 0, msg: " first \n".to_string(), user: "a".to_string() },
        Comment { date: 86400, msg: "second".to_string(), user: "b".to_string() },
    ];
    assert_eq!(
        list_comments(&comments).unwrap(),
        "# Date: 1970-01-01\n# Author: a\n\nfirst\n\n  --------------------\n\n\
         # Date: 1970-01-02\n# Author: b\n\nsecond"
    );
    assert_eq!(list_comments(&vec![]).unwrap(), "");
}

#[test]
fn comment_beyond_the_calendar_is_named() {
    let comments = vec![
        Comment { date: 0, msg: "ok".to_string(), user: "a".to_string() },
        Comment { date: i64::MAX, msg: "late".to_string(), user: "b".to_string() },
        Comment { date: i64::MIN, msg: "early".to_string(), user: "c".to_string() },
    ];
    assert_eq!(list_comments(&comments), Err(1));
}

#[test]
fn lines_of_the_fetching() {
    let p = MistAcquireProgress {};
    assert_eq!(p.pulse_interval(), 500000);
    let line = p.hit(3, "http://archive jammy InRelease".to_string());
    assert_eq!(line.style, LineStyle::Hit);
    assert_eq!(line.label, "Hit:3");
    assert_eq!(line.description, "http://archive jammy InRelease");
    let line = p.fetch(12, "http://archive".to_string(), 4096);
    assert_eq!(line.style, LineStyle::Get);
    assert_eq!(line.label, "Get:12");
    assert_eq!(line.description, "http://archive");
}

#[test]
fn failures_are_ignored_by_status() {
    let p = MistAcquireProgress {};
    for status in [0u32, 2] {
        let line = p.fail(7, "http://x".to_string(), status, "404".to_string());
        assert_eq!(line.style, LineStyle::Ignored);
        assert_eq!(line.label, "Ign:7 (404)");
        assert_eq!(line.description, "http://x");
    }
    for status in [1u32, 3, 100] {
        let line = p.fail(7, "http://x".to_string(), status, "timeout".to_string());
        assert_eq!(line.style, LineStyle::Failed);
        assert_eq!(line.label, "Err:7 (timeout)");
    }
}

#[test]
fn end_of_fetching_is_told_where_something_was_fetched() {
    let p = MistAcquireProgress {};
    assert!(!p.stop(0));
    assert!(p.stop(1));
}

#[test]
fn percentage_takes_three_columns() {
    assert_eq!(MistInstallProgress::percent_padding(1), Some("  "));
    assert_eq!(MistInstallProgress::percent_padding(2), Some(" "));
    assert_eq!(MistInstallProgress::percent_padding(3), Some(""));
    assert_eq!(MistInstallProgress::percent_padding(0), None);
    assert_eq!(MistInstallProgress::percent_padding(4), None);
}

#[test]
fn bar_takes_what_the_text_leaves() {
    assert_eq!(PROGRESS_STR_LEN, 17);
    assert_eq!(MistInstallProgress::bar_width(80), Some(63));
    assert_eq!(MistInstallProgress::bar_width(17), Some(0));
    assert_eq!(MistInstallProgress::bar_width(16), None);
    assert_eq!(MistInstallProgress::bar_width(usize::MAX), None);
}

#[test]
fn marks_carried_to_another_engine() {
    let mut m = AptMarks::none();
    assert_eq!(m.action(), None);
    m.keep = true;
    assert_eq!(m.action(), Some(AptAction::Keep));
    m.purge = true;
    assert_eq!(m.action(), Some(AptAction::Purge));
    m.delete = true;
    assert_eq!(m.action(), Some(AptAction::Delete));
    m.reinstall = true;
    assert_eq!(m.action(), Some(AptAction::Install));
    let mut up = AptMarks::none();
    up.upgrade = true;
    assert_eq!(up.action(), Some(AptAction::Install));
    let mut down = AptMarks::none();
    down.downgrade = true;
    assert_eq!(down.action(), Some(AptAction::Install));
}
