use tracing_chrometrace::{Args, ChromeEvent, EventType, FieldCollector, InvalidFieldValue};

fn own(k: &str, v: &str) -> (String, String) {
    (k.to_string(), v.to_string())
}

fn fresh() -> FieldCollector {
    FieldCollector::new(ChromeEvent::with_defaults(0, 1, 1))
}

fn bad(field: &str, raw: &str) -> InvalidFieldValue {
    InvalidFieldValue { field: field.to_string(), raw: raw.to_string() }
}

#[test]
fn well_known_keys_set_their_field() {
    let mut c = fresh();
    for (k, v) in [
        ("name", "load"),
        ("cat", "io"),
        ("id", "0x42"),
        ("ph", "Complete"),
        ("ts", "1.5"),
        ("dur", "2"),
        ("tts", "0.25"),
        ("pid", "7"),
        ("tid", "8"),
    ] {
        assert_eq!(c.record_debug(k, v), Ok(()));
    }
    assert!(!c.is_async);
    let expected = ChromeEvent {
        name: "load".to_string(),
        cat: "io".to_string(),
        ph: EventType::Complete,
        ts: 1500,
        dur: Some(2000),
        tts: Some(250),
        id: "0x42".to_string(),
        pid: 7,
        tid: 8,
        args: Args::new(),
    };
    assert_eq!(c.into_event(), expected);
}

#[test]
fn other_keys_become_arguments() {
    let mut c = fresh();
    assert_eq!(c.record_debug("thread", "0"), Ok(()));
    assert_eq!(c.record_debug("index", "17"), Ok(()));
    assert_eq!(c.record_debug("thread", "1"), Ok(()));
    assert_eq!(c.record_debug("Name", "x"), Ok(()));
    assert_eq!(
        c.event.args.pairs(),
        &vec![own("thread", "1"), own("index", "17"), own("Name", "x")]
    );
    assert_eq!(c.event.name, "DefaultEventName");
}

#[test]
fn the_event_key_is_a_directive() {
    let mut c = fresh();
    assert_eq!(c.record_debug("event", "sync"), Ok(()));
    assert!(!c.is_async);
    assert_eq!(c.record_debug("event", "async"), Ok(()));
    assert!(c.is_async);
    assert_eq!(c.record_debug("event", "other"), Ok(()));
    assert!(c.is_async);
    assert!(c.event.args.is_empty());
    let span = c.into_span();
    assert!(span.is_async);
    assert_eq!(span.start, None);
    assert_eq!(span.end, None);
}

#[test]
fn an_unknown_phase_name_is_an_invalid_field_value() {
    let mut c = fresh();
    assert_eq!(c.record_debug("ph", "B"), Err(bad("ph", "B")));
    assert_eq!(c.record_debug("ph", ""), Err(bad("ph", "")));
    assert_eq!(c.event.ph, EventType::Instant);
    assert_eq!(c.record_debug("ph", "FlowStep"), Ok(()));
    assert_eq!(c.event.ph, EventType::FlowStep);
}

#[test]
fn a_number_that_does_not_parse_is_an_invalid_field_value() {
    for key in ["ts", "dur", "tts", "pid", "tid"] {
        let mut c = fresh();
        assert_eq!(c.record_debug(key, "soon"), Err(bad(key, "soon")));
        assert_eq!(c.record_debug(key, ""), Err(bad(key, "")));
        assert_eq!(c.record_debug(key, "-3"), Err(bad(key, "-3")));
        assert_eq!(c, fresh());
    }
    let mut c = fresh();
    assert_eq!(c.record_debug("pid", "1.5"), Err(bad("pid", "1.5")));
    assert_eq!(c.record_debug("ts", "1.5"), Ok(()));
}

#[test]
fn record_all_stops_at_the_first_invalid_field() {
    let attrs = vec![own("name", "a"), own("pid", "x"), own("cat", "late"), own("tid", "y")];
    let mut c = fresh();
    assert_eq!(c.record_all(&attrs), Err(bad("pid", "x")));
    assert_eq!(c.event.name, "a");
    assert_eq!(c.event.cat, "DefaultCategory");

    let mut d = fresh();
    assert_eq!(d.record_all(&vec![own("name", "a"), own("k", "v"), own("name", "b")]), Ok(()));
    assert_eq!(d.event.name, "b");
    assert_eq!(d.event.args.pairs(), &vec![own("k", "v")]);
    assert_eq!(d.record_all(&Vec::new()), Ok(()));
}
