use tracing_chrometrace::emit::render;
use tracing_chrometrace::writer::{render_events, submit_event};
use tracing_chrometrace::{ChromeEvent, Emitter};

#[test]
fn empty_stream_is_an_empty_array() {
    let (mut engine, open) = Emitter::attach();
    assert_eq!(open, "[");
    assert!(!engine.is_closed());
    assert!(!engine.has_pending());
    assert_eq!(engine.shutdown(), "]");
    assert!(engine.is_closed());
    assert_eq!(render(&Vec::new()), "[]");
}

#[test]
fn a_single_event_has_no_comma() {
    let (mut engine, open) = Emitter::attach();
    let mut sink = open;
    sink.push_str(&engine.submit("{}".to_string()).unwrap());
    assert_eq!(sink, "[");
    assert!(engine.has_pending());
    sink.push_str(&engine.shutdown());
    assert_eq!(sink, "[{}]");
}

#[test]
fn each_submission_evicts_the_one_before() {
    let (mut engine, _) = Emitter::attach();
    assert_eq!(engine.submit("1".to_string()), Some(String::new()));
    assert_eq!(engine.submit("2".to_string()), Some("1,\n".to_string()));
    assert_eq!(engine.submit("3".to_string()), Some("2,\n".to_string()));
    assert_eq!(engine.shutdown(), "3]");
}

#[test]
fn k_events_give_k_objects_and_k_minus_one_commas() {
    for k in 0..6usize {
        let texts: Vec<String> = (0..k).map(|i| format!("{{\"i\":{}}}", i)).collect();
        let out = render(&texts);
        let parsed: Vec<serde_json::Value> = serde_json::from_str(&out).unwrap();
        assert_eq!(parsed.len(), k);
        for (i, v) in parsed.iter().enumerate() {
            assert_eq!(v["i"].as_u64(), Some(i as u64));
        }
        assert_eq!(out.matches(",\n").count(), k.saturating_sub(1));
        assert!(out.starts_with('['));
        assert!(out.ends_with(']'));
        assert!(!out.ends_with(",\n]"));
    }
    assert_eq!(render(&vec!["a".to_string(), "b".to_string(), "c".to_string()]), "[a,\nb,\nc]");
}

#[test]
fn the_stream_closes_once() {
    let (mut engine, _) = Emitter::attach();
    engine.submit("1".to_string());
    assert_eq!(engine.shutdown(), "1]");
    assert_eq!(engine.shutdown(), "");
    assert_eq!(engine.submit("2".to_string()), None);
    assert!(!engine.has_pending());
    assert_eq!(engine.shutdown(), "");
}

#[test]
fn submit_all_equals_one_by_one() {
    let texts = vec!["a".to_string(), "b".to_string(), "c".to_string()];
    let (mut engine, _) = Emitter::attach();
    engine.submit("z".to_string());
    assert_eq!(engine.submit_all(&texts), "z,\na,\nb,\n");
    assert_eq!(engine.submit_all(&Vec::new()), "");
    assert_eq!(engine.shutdown(), "c]");
    assert_eq!(engine.submit_all(&texts), "");
}

#[test]
fn events_stream_as_an_array_of_objects() {
    let a = ChromeEvent::builder(1000, 1, 1).name("a").build().unwrap();
    let b = ChromeEvent::builder(2000, 1, 2).name("b").build().unwrap();
    let (mut engine, open) = Emitter::attach();
    let mut sink = open;
    sink.push_str(&submit_event(&mut engine, &a));
    sink.push_str(&submit_event(&mut engine, &b));
    sink.push_str(&engine.shutdown());
    let expected = format!("[{},\n{}]", a.to_json(), b.to_json());
    assert_eq!(sink, expected);
    assert_eq!(render_events(&vec![a, b]), expected);
    assert_eq!(submit_event(&mut engine, &ChromeEvent::with_defaults(0, 1, 1)), "");
}
