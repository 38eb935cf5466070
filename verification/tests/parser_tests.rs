use busy_calendar::framing::{check_framing, FrameError, FrameFault};
use std::str::FromStr;
use busy_calendar::model::{ComponentKind, Property};
use busy_calendar::parser::{assemble, parse_document, ParseError};
use icalendar::{Component, Event, Todo};

fn property(name: &str, value: &str) -> Property {
    Property { name: name.to_string(), value: value.to_string() }
}

const SAMPLE: &str = "BEGIN:VCALENDAR\r\nVERSION:2.0\r\nPRODID:-//Example//EN\r\nBEGIN:VEVENT\r\nUID:e1\r\nDTSTAMP:20240101T000000Z\r\nSUMMARY:Standup\r\nTRANSP:OPAQUE\r\nEND:VEVENT\r\nBEGIN:VTODO\r\nUID:t1\r\nDTSTAMP:20240101T000000Z\r\nSUMMARY:Buy milk\r\nEND:VTODO\r\nBEGIN:VTIMEZONE\r\nTZID:Europe/Berlin\r\nBEGIN:STANDARD\r\nTZOFFSETFROM:+0200\r\nTZOFFSETTO:+0100\r\nEND:STANDARD\r\nEND:VTIMEZONE\r\nEND:VCALENDAR\r\n";

#[test]
fn parse_reads_components_in_order() {
    let doc = parse_document(SAMPLE).unwrap();
    let kinds: Vec<ComponentKind> = doc.components.iter().map(|c| c.kind()).collect();
    assert_eq!(kinds, vec![ComponentKind::Event, ComponentKind::Todo, ComponentKind::Timezone]);
    let names: Vec<&str> = doc.components.iter().map(|c| c.name()).collect();
    assert_eq!(names, vec!["VEVENT", "VTODO", "VTIMEZONE"]);
}

#[test]
fn parse_reads_properties() {
    let doc = parse_document(SAMPLE).unwrap();
    assert_eq!(
        doc.components[0].properties(),
        &vec![
            property("DTSTAMP", "20240101T000000Z"),
            property("SUMMARY", "Standup"),
            property("TRANSP", "OPAQUE"),
            property("UID", "e1"),
        ]
    );
    assert_eq!(doc.components[2].properties(), &vec![property("TZID", "Europe/Berlin")]);
}

#[test]
fn parse_keeps_unknown_properties() {
    let text = "BEGIN:VCALENDAR\r\nBEGIN:VEVENT\r\nUID:e1\r\nX-VENDOR-THING;X-P=1:some value\r\nEND:VEVENT\r\nEND:VCALENDAR\r\n";
    let doc = parse_document(text).unwrap();
    assert!(doc.components[0].properties().contains(&property("X-VENDOR-THING", "some value")));
}

#[test]
fn parse_is_deterministic() {
    assert_eq!(parse_document(SAMPLE), parse_document(SAMPLE));
}

#[test]
fn parse_knows_every_kind() {
    let text = "BEGIN:VCALENDAR\nBEGIN:VEVENT\nEND:VEVENT\nBEGIN:VTODO\nEND:VTODO\nBEGIN:VJOURNAL\nEND:VJOURNAL\nBEGIN:VFREEBUSY\nEND:VFREEBUSY\nBEGIN:VTIMEZONE\nEND:VTIMEZONE\nBEGIN:VALARM\nEND:VALARM\nBEGIN:X-CUSTOM\nEND:X-CUSTOM\nBEGIN:vevent\nEND:vevent\nEND:VCALENDAR\n";
    let doc = parse_document(text).unwrap();
    let kinds: Vec<ComponentKind> = doc.components.iter().map(|c| c.kind()).collect();
    assert_eq!(
        kinds,
        vec![
            ComponentKind::Event,
            ComponentKind::Todo,
            ComponentKind::Journal,
            ComponentKind::FreeBusy,
            ComponentKind::Timezone,
            ComponentKind::Alarm,
            ComponentKind::Other,
            ComponentKind::Event,
        ]
    );
    assert_eq!(doc.components[7].name(), "vevent");
}

#[test]
fn parse_accepts_an_empty_calendar() {
    let doc = parse_document("BEGIN:VCALENDAR\r\nVERSION:2.0\r\nEND:VCALENDAR\r\n").unwrap();
    assert!(doc.components.is_empty());
}

#[test]
fn parse_unfolds_lines_before_it_checks_the_frame() {
    let text = "BEGIN:VCAL\r\n ENDAR\r\nBEGIN:VEVENT\r\nUID:e1\r\nSUMMARY:A long\r\n  summary\r\nEND:VEV\r\n\tENT\r\nEND:VCALENDAR\r\n";
    let doc = parse_document(text).unwrap();
    assert_eq!(doc.components.len(), 1);
    assert_eq!(doc.components[0].kind(), ComponentKind::Event);
    assert!(doc.components[0].properties().contains(&property("SUMMARY", "A long summary")));
}

#[test]
fn missing_end_of_calendar_is_a_parse_failure() {
    let text = "BEGIN:VCALENDAR\r\nVERSION:2.0\r\nBEGIN:VEVENT\r\nUID:e1\r\nSUMMARY:a\r\nEND:VEVENT\r\n";
    assert_eq!(
        parse_document(text),
        Err(ParseError::Frame(FrameError { fault: FrameFault::Unterminated, line: 6 }))
    );
}

#[test]
fn parse_rejects_broken_frames() {
    let cases: [(&str, FrameFault, usize); 6] = [
        ("", FrameFault::MissingCalendar, 0),
        ("hello", FrameFault::StrayLine, 1),
        ("BEGIN:VEVENT\r\nEND:VEVENT\r\n", FrameFault::MissingCalendar, 1),
        ("BEGIN:VCALENDAR\r\nEND:VCALENDAR\r\nBEGIN:VCALENDAR\r\n", FrameFault::SecondCalendar, 3),
        ("BEGIN:VCALENDAR\r\nEND:VCALENDAR\r\nEND:VCALENDAR\r\n", FrameFault::StrayEnd, 3),
        ("BEGIN:VCALENDAR\r\nBEGIN:VEVENT\r\nEND:VTODO\r\n", FrameFault::MismatchedEnd, 3),
    ];
    for (text, fault, line) in cases {
        assert_eq!(parse_document(text), Err(ParseError::Frame(FrameError { fault, line })));
    }
}

#[test]
fn parse_rejects_a_continuation_line_with_nothing_to_continue() {
    assert_eq!(
        parse_document(" BEGIN:VCALENDAR\r\nEND:VCALENDAR\r\n"),
        Err(ParseError::Frame(FrameError { fault: FrameFault::StrayLine, line: 1 }))
    );
}

#[test]
fn parse_passes_the_decoder_s_refusal_on() {
    let text = "BEGIN:VCALENDAR\r\nBEGIN:VEVENT\r\nUID:e1\r\nEND;X=1:VEVENT\r\nEND:VEVENT\r\nEND:VCALENDAR\r\n";
    match parse_document(text) {
        Err(ParseError::Syntax(message)) => assert!(message.starts_with("error: ")),
        other => panic!("{:?}", other),
    }
}

#[test]
fn assemble_takes_what_the_frame_holds() {
    let sources: Vec<icalendar::CalendarComponent> =
        vec![Event::new().uid("e1").done().into(), Todo::new().uid("t1").done().into()];
    let doc = assemble(2, Ok(sources.clone())).unwrap();
    assert_eq!(doc.components.len(), 2);
    assert_eq!(doc.components[0].source(), &sources[0]);
    assert_eq!(doc.components[1].source(), &sources[1]);
    assert_eq!(doc.components[0].kind(), ComponentKind::Event);
    assert_eq!(doc.components[1].kind(), ComponentKind::Todo);
}

#[test]
fn assemble_rejects_another_number_of_components() {
    let sources: Vec<icalendar::CalendarComponent> = vec![Event::new().uid("e1").done().into()];
    assert_eq!(
        assemble(2, Ok(sources.clone())),
        Err(ParseError::Incomplete { framed: 2, decoded: 1 })
    );
    assert_eq!(assemble(0, Ok(sources)), Err(ParseError::Incomplete { framed: 0, decoded: 1 }));
    assert_eq!(assemble(1, Ok(vec![])), Err(ParseError::Incomplete { framed: 1, decoded: 0 }));
}

#[test]
fn assemble_passes_the_decoder_s_message_on() {
    assert_eq!(
        assemble(3, Err("error: bad".to_string())),
        Err(ParseError::Syntax("error: bad".to_string()))
    );
}

#[test]
fn parse_error_messages() {
    assert_eq!(
        ParseError::Frame(FrameError { fault: FrameFault::Unterminated, line: 6 }).message(),
        "line 6: unterminated component, missing END"
    );
    assert_eq!(
        ParseError::Frame(FrameError { fault: FrameFault::StrayLine, line: 1 }).message(),
        "line 1: content outside of any component"
    );
    assert_eq!(
        ParseError::Frame(FrameError { fault: FrameFault::MissingCalendar, line: 0 }).message(),
        "line 0: no enclosing VCALENDAR component"
    );
    assert_eq!(
        ParseError::Frame(FrameError { fault: FrameFault::SecondCalendar, line: 12 }).message(),
        "line 12: more than one VCALENDAR component"
    );
    assert_eq!(
        ParseError::Frame(FrameError { fault: FrameFault::StrayEnd, line: 3 }).message(),
        "line 3: END without a matching BEGIN"
    );
    assert_eq!(
        ParseError::Frame(FrameError { fault: FrameFault::MismatchedEnd, line: 104 }).message(),
        "line 104: END does not match the open BEGIN"
    );
    assert_eq!(
        ParseError::Frame(FrameError { fault: FrameFault::TooDeep, line: 33 }).message(),
        "line 33: components nested too deeply"
    );
    assert_eq!(ParseError::Syntax("error: x".to_string()).message(), "error: x");
    assert_eq!(
        ParseError::Incomplete { framed: 10, decoded: 0 }.message(),
        "decoded 0 of 10 components"
    );
    assert_eq!(
        ParseError::Unwritable { component: 4 }.message(),
        "component 4 cannot be written again"
    );
    assert_eq!(
        ParseError::Frame(FrameError { fault: FrameFault::BadName, line: 2 }).message(),
        "line 2: component name is empty or holds a byte that no name holds"
    );
    assert_eq!(
        ParseError::Frame(FrameError { fault: FrameFault::BadLine, line: 3 }).message(),
        "line 3: not a content line"
    );
    assert_eq!(
        ParseError::Frame(FrameError { fault: FrameFault::MixedLineEnds, line: 5 }).message(),
        "line 5: CRLF line end after a bare LF line end"
    );
}

#[test]
fn parse_takes_the_deepest_nesting_that_the_frame_allows() {
    let mut text = String::from("BEGIN:VCALENDAR\r\n");
    for _ in 1..32 {
        text.push_str("BEGIN:X\r\nUID:u\r\n");
    }
    for _ in 1..32 {
        text.push_str("END:X\r\n");
    }
    text.push_str("END:VCALENDAR\r\n");
    let doc = parse_document(&text).unwrap();
    assert_eq!(doc.components.len(), 1);
}

#[test]
fn parse_refuses_deeper_nesting() {
    let mut text = String::from("BEGIN:VCALENDAR\r\n");
    for _ in 1..40 {
        text.push_str("BEGIN:X\r\n");
    }
    for _ in 1..40 {
        text.push_str("END:X\r\n");
    }
    text.push_str("END:VCALENDAR\r\n");
    assert_eq!(
        parse_document(&text),
        Err(ParseError::Frame(FrameError { fault: FrameFault::TooDeep, line: 33 }))
    );
}

#[test]
fn assemble_refuses_a_component_that_could_not_be_written_again() {
    let wide = "\u{a0}".repeat(200);
    let sources: Vec<icalendar::CalendarComponent> = vec![
        Event::new().uid("e1").done().into(),
        Event::new().uid("e2").summary(&wide).done().into(),
        Event::new().uid("e3").summary(&wide).done().into(),
    ];
    assert_eq!(assemble(3, Ok(sources)), Err(ParseError::Unwritable { component: 1 }));
}

#[test]
fn parse_refuses_a_parameter_that_runs_over_the_line() {
    let n = 40;
    let mut text = String::from("BEGIN:VCALENDAR\r\nBEGIN:W\r\n");
    for _ in 0..n {
        text.push_str("BEGIN:A\r\nK;P=v\r\nEND:A\r\n");
    }
    for _ in 0..n {
        text.push_str("K;P=v\r\nBEGIN:A\r\nEND:A\r\n");
    }
    text.push_str("END:W\r\nEND:VCALENDAR\r\n");
    assert_eq!(
        parse_document(&text),
        Err(ParseError::Frame(FrameError { fault: FrameFault::BadLine, line: 4 }))
    );
}

#[test]
fn parse_reads_parameters_and_quotes() {
    let text = "BEGIN:VCALENDAR\r\nBEGIN:VEVENT\r\nUID:e1\r\nDTSTART;TZID=\"(UTC-05:00) Eastern Time\":20240102T090000\r\nATTENDEE;CN=\"Doe; John\";RSVP=TRUE:mailto:j@example.com\r\nEND:VEVENT\r\nEND:VCALENDAR\r\n";
    let doc = parse_document(text).unwrap();
    assert!(doc.components[0].properties().contains(&property("DTSTART", "20240102T090000")));
    assert!(doc.components[0].properties().contains(&property("ATTENDEE", "mailto:j@example.com")));
}

fn shape<C: Component>(c: &C) -> String {
    let inner: String = c.components().iter().map(|n| shape(n)).collect();
    format!("{}({})", c.component_kind(), inner)
}

fn shape_of(c: &icalendar::CalendarComponent) -> String {
    match c {
        icalendar::CalendarComponent::Event(e) => shape(e),
        icalendar::CalendarComponent::Todo(t) => shape(t),
        icalendar::CalendarComponent::Venue(v) => shape(v),
        icalendar::CalendarComponent::Other(o) => shape(o),
        _ => String::new(),
    }
}

fn framed_shape(text: &str) -> String {
    let mut out = String::new();
    let mut depth = 0;
    for line in icalendar::parser::unfold(text).lines() {
        let upper = line.to_ascii_uppercase();
        if upper.starts_with("BEGIN:") {
            if depth > 0 {
                out.push_str(&line[6..]);
                out.push('(');
            }
            depth += 1;
        } else if upper.starts_with("END:") {
            depth -= 1;
            if depth > 0 {
                out.push(')');
            }
        }
    }
    out
}

fn pick(state: &mut u64, n: usize) -> usize {
    *state = state.wrapping_mul(6364136223846793005).wrapping_add(1442695040888963407);
    ((*state >> 33) as usize) % n
}

fn grow(state: &mut u64, depth: usize, lines: &mut Vec<String>) {
    let content = [
        "K:v", "K;P=v", "K;P=v:w", "K;P=\"v", "K;P=\"v\":w", "K;P=\"a;b:c\":w", "K", "K;P",
        "K;P=", "K;P=:w", "K;P=a\"b:c", "K;P=\"\":w", "K;P=\"\"", ";:", ":", "K;P=v;Q=w", "K v:w",
        "K;P=v;Q=\"w", "", "K:BEGIN:A", "K:END:A", "K;BEGIN:A", "K;P=BEGIN:A", "K;P=END",
        "K;P=\"END:A\"", "K;P=\"", "K\r", "K:v\rw", "x-y.z,1/2_3;a-b=c:d", "K;;P=v:w", "K; \tP=v:w",
    ];
    let names = ["A", "B", "VEVENT", "VTODO", "X-1", "a"];
    let count = pick(state, 5);
    for _ in 0..count {
        if depth < 4 && pick(state, 3) == 0 {
            let name = names[pick(state, names.len())];
            lines.push(format!("BEGIN:{}", name));
            grow(state, depth + 1, lines);
            if pick(state, 12) != 0 {
                lines.push(format!("END:{}", name));
            }
        } else {
            lines.push(content[pick(state, content.len())].to_string());
        }
    }
}

#[test]
fn the_decoder_reads_well_framed_texts_as_the_frame_does() {
    let mut state: u64 = 11;
    let mut taken = 0;
    let mut decoded = 0;
    for _ in 0..20000 {
        let mut lines = vec!["BEGIN:VCALENDAR".to_string()];
        grow(&mut state, 1, &mut lines);
        lines.push("END:VCALENDAR".to_string());
        let style = pick(&mut state, 4);
        let turn = pick(&mut state, lines.len());
        let mut text = String::new();
        for (i, line) in lines.iter().enumerate() {
            text.push_str(line);
            let crlf = match style {
                0 => true,
                1 => false,
                2 => i < turn,
                _ => i >= turn,
            };
            text.push_str(if crlf { "\r\n" } else { "\n" });
        }
        let unfolded = icalendar::parser::unfold(&text);
        if let Ok(framed) = check_framing(unfolded.as_bytes()) {
            taken += 1;
            if let Ok(calendar) = icalendar::Calendar::from_str(&text) {
                decoded += 1;
                let shapes: String = calendar.components.iter().map(shape_of).collect();
                assert_eq!(calendar.components.len(), framed, "{:?}", text);
                assert_eq!(shapes, framed_shape(&text), "{:?}", text);
            }
        }
    }
    assert!(taken > 1000, "{}", taken);
    assert!(decoded > 500, "{}", decoded);
}
