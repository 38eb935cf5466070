use busy_calendar::folding::{
    holds_no_white, holds_short_runs, holds_sparse_white, passes, passes_guard, MAX_RUN, MAX_WHITE,
    WINDOW,
};
use busy_calendar::model::Line;
use busy_calendar::white::{white, white_flags};
use icalendar::{Component, Event, EventLike};

fn line(key: &str, parameters: &[&str], value: &str) -> Line {
    Line {
        key: key.to_string(),
        parameters: parameters.iter().map(|p| p.to_string()).collect(),
        value: value.to_string(),
    }
}

#[test]
fn guard_limits() {
    assert_eq!(MAX_RUN, 64);
    assert_eq!(WINDOW, 75);
    assert_eq!(MAX_WHITE, 16);
}

#[test]
fn white_is_what_the_standard_library_calls_white_space() {
    for n in 0..=0x10ffffu32 {
        if let Some(c) = char::from_u32(n) {
            assert_eq!(white(c), c.is_whitespace(), "{:x}", n);
        }
    }
}

#[test]
fn white_flags_mark_each_character() {
    assert_eq!(white_flags(""), Vec::<bool>::new());
    assert_eq!(white_flags("a b\u{a0}日\u{3000}\n"), vec![false, true, false, true, false, true, true]);
}

#[test]
fn short_runs_of_plain_text_of_any_length() {
    assert!(holds_short_runs(""));
    assert!(holds_short_runs("short"));
    assert!(holds_short_runs(&"a".repeat(10_000)));
    assert!(holds_short_runs(&" ".repeat(10_000)));
}

#[test]
fn short_runs_up_to_the_limit() {
    assert!(holds_short_runs(&"é".repeat(32)));
    assert!(!holds_short_runs(&"é".repeat(33)));
    assert!(holds_short_runs(&"日".repeat(21)));
    assert!(!holds_short_runs(&"日".repeat(22)));
    assert!(holds_short_runs(&"😀".repeat(16)));
    assert!(!holds_short_runs(&"😀".repeat(17)));
    assert!(!holds_short_runs(&"\u{a0}".repeat(200)));
}

#[test]
fn short_runs_that_plain_characters_part() {
    let words = format!("{} {}", "é".repeat(32), "é".repeat(32));
    assert!(holds_short_runs(&words));
    let many = format!("{}a", "日".repeat(21)).repeat(100);
    assert!(holds_short_runs(&many));
    let late = format!("{}{}", "a".repeat(500), "é".repeat(33));
    assert!(!holds_short_runs(&late));
}

#[test]
fn no_white_looks_at_every_character() {
    assert!(holds_no_white(""));
    assert!(holds_no_white("DESCRIPTION"));
    assert!(holds_no_white("日本語"));
    assert!(!holds_no_white("a b"));
    assert!(!holds_no_white("日本語\u{3000}"));
    assert!(!holds_no_white("\tx"));
}

#[test]
fn sparse_white_counts_in_every_window() {
    assert!(holds_sparse_white(""));
    assert!(holds_sparse_white(&"日".repeat(10_000)));
    assert!(holds_sparse_white(&" ".repeat(16)));
    assert!(!holds_sparse_white(&" ".repeat(17)));
    let words = "word ".repeat(200);
    assert!(holds_sparse_white(&words));
    let dense = "a b ".repeat(40);
    assert!(!holds_sparse_white(&dense));
    let edge = format!("{}{}", " ".repeat(16), "x".repeat(59));
    assert!(holds_sparse_white(&format!("{} ", edge)));
    assert!(!holds_sparse_white(&format!("{}{} ", " ".repeat(16), "x".repeat(58))));
    let late = format!("{}{}", "日".repeat(500), "\u{a0}".repeat(17));
    assert!(!holds_sparse_white(&late));
}

#[test]
fn a_line_passes_with_short_runs_or_with_sparse_white() {
    let long_cjk = "日".repeat(300);
    let wide_white = "\u{a0}".repeat(200);
    assert!(passes(&line("SUMMARY", &[], "Réunion d'équipe, très importante")));
    assert!(passes(&line("SUMMARY", &[], &long_cjk)));
    assert!(passes(&line("SUMMARY", &["LANGUAGE", "ja"], &long_cjk)));
    assert!(passes(&line("ATTENDEE", &["CN", "John Doe"], "mailto:j@example.com")));
    assert!(passes(&line("SUMMARY", &[], &format!("{} and some words after it", long_cjk))));
    assert!(!passes(&line("DESCRIPTION", &[], &wide_white)));
    assert!(!passes(&line("SUMMARY", &["CN", "John Doe"], &long_cjk)));
    assert!(!passes(&line("X A", &[], &long_cjk)));
    assert!(!passes(&line("X-A", &["P", &wide_white], "v")));
}

#[test]
fn guard_reads_properties_and_parameters() {
    let wide = "\u{a0}".repeat(200);
    let ok: icalendar::CalendarComponent = Event::new().summary("Réunion").done().into();
    assert!(passes_guard(&ok));
    let in_value: icalendar::CalendarComponent = Event::new().summary(&wide).done().into();
    assert!(!passes_guard(&in_value));
    let in_key: icalendar::CalendarComponent =
        Event::new().add_property(wide.as_str(), "v").done().into();
    assert!(!passes_guard(&in_key));
    let in_parameter: icalendar::CalendarComponent = Event::new()
        .append_property(icalendar::Property::new("X-A", "v").add_parameter("P", &wide).done())
        .done()
        .into();
    assert!(!passes_guard(&in_parameter));
    let in_parameter_key: icalendar::CalendarComponent = Event::new()
        .append_property(icalendar::Property::new("X-A", "v").add_parameter(&wide, "p").done())
        .done()
        .into();
    assert!(!passes_guard(&in_parameter_key));
    let in_repeated: icalendar::CalendarComponent =
        Event::new().add_multi_property("ATTENDEE", &wide).done().into();
    assert!(!passes_guard(&in_repeated));
}

#[test]
fn guard_reads_nested_components() {
    let wide = "\u{a0}".repeat(200);
    let inner = icalendar::Alarm::display(&wide, icalendar::Trigger::before_start(Default::default()));
    let outer: icalendar::CalendarComponent = Event::new().summary("fine").alarm(inner).done().into();
    assert!(!passes_guard(&outer));
    let inner = icalendar::Alarm::display("fine", icalendar::Trigger::before_start(Default::default()));
    let outer: icalendar::CalendarComponent = Event::new().summary("fine").alarm(inner).done().into();
    assert!(passes_guard(&outer));
}
