use tracing_chrometrace::json::{assemble, push_decimal, push_micros, quoted_text, QuotedTexts};
use tracing_chrometrace::{Args, ChromeEvent, EventType};

fn own(k: &str, v: &str) -> (String, String) {
    (k.to_string(), v.to_string())
}

fn args_of(pairs: &[(&str, &str)]) -> Args {
    let mut args = Args::new();
    for (k, v) in pairs {
        args.put(own(k, v));
    }
    args
}

fn micros_to_nanos(us: f64) -> u64 {
    (us * 1000.0).round() as u64
}

fn read_back(text: &str) -> ChromeEvent {
    let v: serde_json::Value = serde_json::from_str(text).unwrap();
    let code = v["ph"].as_str().unwrap().chars().next().unwrap();
    let mut args = Args::new();
    if let Some(map) = v.get("args").and_then(|a| a.as_object()) {
        for (k, val) in map.iter() {
            args.put((k.clone(), val.as_str().unwrap().to_string()));
        }
    }
    ChromeEvent {
        name: v["name"].as_str().unwrap().to_string(),
        cat: v["cat"].as_str().unwrap().to_string(),
        ph: EventType::from_code(code).unwrap(),
        ts: micros_to_nanos(v["ts"].as_f64().unwrap()),
        dur: v.get("dur").map(|d| micros_to_nanos(d.as_f64().unwrap())),
        tts: v.get("tts").map(|d| micros_to_nanos(d.as_f64().unwrap())),
        id: v.get("id").map(|s| s.as_str().unwrap().to_string()).unwrap_or_default(),
        pid: v["pid"].as_u64().unwrap(),
        tid: v["tid"].as_u64().unwrap(),
        args,
    }
}

#[test]
fn test_serde() {
    let event = ChromeEvent::builder(0, 1, 1).arg(own("a", "a")).ts(1000).build().unwrap();

    let serialized = event.to_json();
    let deserialized = read_back(&serialized);

    assert_eq!(event, deserialized);
}

#[test]
fn builder_defaults() {
    let event = ChromeEvent::builder(42, 4711, 12).build().unwrap();
    assert_eq!(event.name, "DefaultEventName");
    assert_eq!(event.cat, "DefaultCategory");
    assert_eq!(event.ph, EventType::Instant);
    assert_eq!(event.ts, 42);
    assert_eq!(event.dur, None);
    assert_eq!(event.tts, None);
    assert_eq!(event.id, "");
    assert_eq!(event.pid, 4711);
    assert_eq!(event.tid, 12);
    assert!(event.args.is_empty());
    assert_eq!(event, ChromeEvent::with_defaults(42, 4711, 12));

    let other = ChromeEvent::builder(0, 1, u64::MAX).build().unwrap();
    assert_eq!(other.pid, 1);
    assert_eq!(other.tid, u64::MAX);
}

#[test]
fn builder_setters_replace_one_field_each() {
    let event = ChromeEvent::builder(0, 1, 1)
        .name("load")
        .cat("io")
        .ph(EventType::Complete)
        .ts(7)
        .dur(Some(8))
        .tts(Some(9))
        .id("0x1")
        .pid(10)
        .tid(11)
        .arg(own("k", "v"))
        .build()
        .unwrap();
    let expected = ChromeEvent {
        name: "load".to_string(),
        cat: "io".to_string(),
        ph: EventType::Complete,
        ts: 7,
        dur: Some(8),
        tts: Some(9),
        id: "0x1".to_string(),
        pid: 10,
        tid: 11,
        args: args_of(&[("k", "v")]),
    };
    assert_eq!(event, expected);
}

#[test]
fn arg_rebinds_an_existing_key_in_place() {
    let event = ChromeEvent::builder(0, 1, 1)
        .arg(own("a", "1"))
        .arg(own("b", "2"))
        .arg(own("a", "3"))
        .build()
        .unwrap();
    assert_eq!(event.args.pairs(), &vec![own("a", "3"), own("b", "2")]);
    assert_eq!(event.args.len(), 2);
}

#[test]
fn json_leaves_out_absent_keys() {
    let event = ChromeEvent::builder(1500, 77, 3)
        .name("load")
        .cat("io")
        .ph(EventType::DurationBegin)
        .build()
        .unwrap();
    assert_eq!(
        event.to_json(),
        "{\"name\":\"load\",\"cat\":\"io\",\"ph\":\"B\",\"ts\":1.500,\"pid\":77,\"tid\":3}"
    );
}

#[test]
fn json_holds_every_key_in_order() {
    let event = ChromeEvent::builder(0, 1, 1)
        .name("n")
        .cat("c")
        .ph(EventType::AsyncEnd)
        .ts(1234567)
        .dur(Some(2000))
        .tts(Some(5))
        .id("7")
        .pid(12)
        .tid(345)
        .arg(own("thread", "0"))
        .arg(own("index", "17"))
        .build()
        .unwrap();
    assert_eq!(
        event.to_json(),
        "{\"name\":\"n\",\"cat\":\"c\",\"ph\":\"e\",\"ts\":1234.567,\"dur\":2.000,\"tts\":0.005,\
         \"id\":\"7\",\"pid\":12,\"tid\":345,\"args\":{\"thread\":\"0\",\"index\":\"17\"}}"
    );
}

#[test]
fn json_escapes_texts() {
    let event = ChromeEvent::builder(0, 1, 1)
        .name("say \"hi\"")
        .cat("a\\b")
        .arg(own("line\nbreak", "tab\there"))
        .build()
        .unwrap();
    let text = event.to_json();
    assert_eq!(
        text,
        "{\"name\":\"say \\\"hi\\\"\",\"cat\":\"a\\\\b\",\"ph\":\"i\",\"ts\":0.000,\"pid\":1,\
         \"tid\":1,\"args\":{\"line\\nbreak\":\"tab\\there\"}}"
    );
    assert_eq!(read_back(&text), event);
}

#[test]
fn quote_texts_keeps_an_empty_id_empty() {
    let event = ChromeEvent::builder(3, 1, 1).name("x").arg(own("k", "v")).build().unwrap();
    let quoted = event.quote_texts();
    assert_eq!(quoted.name, "\"x\"");
    assert_eq!(quoted.cat, "\"DefaultCategory\"");
    assert_eq!(quoted.id, "");
    assert_eq!(quoted.args, vec![own("\"k\"", "\"v\"")]);
    let with_id = ChromeEvent::builder(3, 1, 1).id("a").build().unwrap().quote_texts();
    assert_eq!(with_id.id, "\"a\"");
}

#[test]
fn a_literal_stands_between_double_quotes() {
    for text in ["", "plain", "say \"hi\"", "back\\slash", "line\nbreak", "\u{1}", "\u{e9}\u{4e16}"] {
        let literal = quoted_text(text);
        assert!(literal.len() >= 2);
        assert!(literal.starts_with('"'));
        assert!(literal.ends_with('"'));
        let back: String = serde_json::from_str(&literal).unwrap();
        assert_eq!(back, text);
    }
    assert_eq!(quoted_text(""), "\"\"");
    assert_eq!(quoted_text("a\"b"), "\"a\\\"b\"");
}

#[test]
fn assemble_writes_the_texts_as_given() {
    let event = ChromeEvent::builder(1, 0, 18446744073709551615)
        .ph(EventType::Mark)
        .tts(Some(1000))
        .build()
        .unwrap();
    let texts = QuotedTexts {
        name: "N".to_string(),
        cat: "C".to_string(),
        id: "I".to_string(),
        args: vec![own("K", "V"), own("L", "W")],
    };
    assert_eq!(
        assemble(&event, &texts),
        "{\"name\":N,\"cat\":C,\"ph\":\"R\",\"ts\":0.001,\"tts\":1.000,\"id\":I,\"pid\":0,\
         \"tid\":18446744073709551615,\"args\":{K:V,L:W}}"
    );
}

#[test]
fn no_record_holds_a_key_twice() {
    let mut args = Args::new();
    assert!(args.is_empty());
    args.put(own("k", "1"));
    args.put(own("j", "2"));
    args.put(own("k", "3"));
    assert_eq!(args.pairs(), &vec![own("k", "3"), own("j", "2")]);
    assert_eq!(args.duplicate(), args);
    assert_eq!(args.clone(), args);
    let event = ChromeEvent::builder(0, 1, 1)
        .arg(own("k", "1"))
        .arg(own("k", "2"))
        .build()
        .unwrap();
    assert_eq!(
        event.to_json(),
        "{\"name\":\"DefaultEventName\",\"cat\":\"DefaultCategory\",\"ph\":\"i\",\"ts\":0.000,\
         \"pid\":1,\"tid\":1,\"args\":{\"k\":\"2\"}}"
    );
}

#[test]
fn decimal_has_no_leading_zeros() {
    for (n, text) in [
        (0u64, "0"),
        (7, "7"),
        (10, "10"),
        (909, "909"),
        (1000000, "1000000"),
        (18446744073709551615, "18446744073709551615"),
    ] {
        let mut out = String::from("x");
        push_decimal(&mut out, n);
        assert_eq!(out, format!("x{}", text));
    }
}

#[test]
fn micros_have_three_decimals() {
    for (ns, text) in [
        (0u64, "0.000"),
        (1, "0.001"),
        (20, "0.020"),
        (300, "0.300"),
        (1000, "1.000"),
        (1234567, "1234.567"),
        (18446744073709551615, "18446744073709551.615"),
    ] {
        let mut out = String::new();
        push_micros(&mut out, ns);
        assert_eq!(out, text);
    }
}

#[test]
fn duplicate_is_equal() {
    let event = ChromeEvent::builder(5, 1, 1).name("a").arg(own("k", "v")).build().unwrap();
    assert_eq!(event.duplicate(), event);
}
