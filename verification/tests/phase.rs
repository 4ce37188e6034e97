use std::str::FromStr;
use tracing_chrometrace::{EventType, ParseError};

fn all_phases() -> Vec<(EventType, char, &'static str)> {
    vec![
        (EventType::DurationBegin, 'B', "DurationBegin"),
        (EventType::DurationEnd, 'E', "DurationEnd"),
        (EventType::Complete, 'X', "Complete"),
        (EventType::Instant, 'i', "Instant"),
        (EventType::Counter, 'C', "Counter"),
        (EventType::AsyncStart, 'b', "AsyncStart"),
        (EventType::AsyncInstant, 'n', "AsyncInstant"),
        (EventType::AsyncEnd, 'e', "AsyncEnd"),
        (EventType::FlowStart, 's', "FlowStart"),
        (EventType::FlowStep, 't', "FlowStep"),
        (EventType::FlowEnd, 'f', "FlowEnd"),
        (EventType::Sample, 'P', "Sample"),
        (EventType::ObjectCreated, 'N', "ObjectCreated"),
        (EventType::ObjectSnapshot, 'O', "ObjectSnapshot"),
        (EventType::ObjectDestroyed, 'D', "ObjectDestroyed"),
        (EventType::Metadata, 'M', "Metadata"),
        (EventType::MemoryDumpGlobal, 'V', "MemoryDumpGlobal"),
        (EventType::MemoryDumpProcess, 'v', "MemoryDumpProcess"),
        (EventType::Mark, 'R', "Mark"),
        (EventType::ClockSync, 'c', "ClockSync"),
        (EventType::ContextBegin, '(', "ContextBegin"),
        (EventType::ContextEnd, ')', "ContextEnd"),
    ]
}

#[test]
fn event_stringify() {
    let event = EventType::from_str("DurationBegin").unwrap();
    assert!(matches!(event, EventType::DurationBegin));
}

#[test]
fn unknown_name_is_refused() {
    assert_eq!(EventType::from_str("durationbegin"), Err(ParseError::VariantNotFound));
    assert_eq!(EventType::from_str(""), Err(ParseError::VariantNotFound));
    assert_eq!(EventType::from_str("B"), Err(ParseError::VariantNotFound));
    assert_eq!(EventType::from_name("Duration"), None);
}

#[test]
fn every_code_round_trips() {
    let phases = all_phases();
    assert_eq!(phases.len(), 22);
    for (phase, code, _) in phases {
        assert_eq!(phase.code(), code);
        assert_eq!(phase.code_str(), code.to_string());
        assert_eq!(EventType::from_code(phase.code()), Some(phase));
    }
}

#[test]
fn codes_are_pairwise_distinct() {
    let phases = all_phases();
    for (i, a) in phases.iter().enumerate() {
        for (j, b) in phases.iter().enumerate() {
            assert_eq!(a.0.code() == b.0.code(), i == j);
        }
    }
}

#[test]
fn sample_code_is_upper_case() {
    assert_eq!(EventType::Sample.code(), 'P');
    assert_eq!(EventType::from_code('P'), Some(EventType::Sample));
    assert_eq!(EventType::from_code('p'), None);
}

#[test]
fn unknown_code_is_refused() {
    assert_eq!(EventType::from_code('Z'), None);
    assert_eq!(EventType::from_code(' '), None);
    assert_eq!(EventType::from_code('\u{e9}'), None);
}

#[test]
fn every_name_round_trips() {
    for (phase, _, name) in all_phases() {
        assert_eq!(phase.name(), name);
        assert_eq!(EventType::from_name(phase.name()), Some(phase));
        assert_eq!(EventType::from_str(name), Ok(phase));
    }
}

#[test]
fn default_phase_is_instant() {
    assert_eq!(EventType::default(), EventType::Instant);
}
