use tracing_chrometrace::writer::{collect_events, finish, submit_event};
use tracing_chrometrace::{
    write_spans, ChromeEvent, ChromeLayer, ChromeLayerConfig, Emitter, EventType,
    InvalidFieldValue, SpanInfo,
};

fn own(k: &str, v: &str) -> (String, String) {
    (k.to_string(), v.to_string())
}

fn parse(stream: &str) -> Vec<serde_json::Value> {
    serde_json::from_str(stream).unwrap()
}

#[test]
fn my_test() {
    let (layer, engine, open) = ChromeLayer::with_writer();
    assert_eq!(open, "[");
    assert_eq!(layer.pending(), 0);
    assert!(!engine.is_closed());
    assert!(!engine.has_pending());
}

#[test]
fn test_init() {
    let (layer, mut engine, open) = ChromeLayer::with_writer();
    let mut sink = open;

    let attrs = vec![own("target", "chrome_layer"), own("message", "hello")];
    let event = layer.on_event(&attrs, 0, 1, 1).unwrap();
    sink.push_str(&submit_event(&mut engine, &event));
    sink.push_str(&engine.shutdown());

    let events = parse(&sink);
    assert_eq!(events.len(), 1);
    assert_eq!(events[0]["ph"], "i");
    assert_eq!(events[0]["args"]["target"], "chrome_layer");
    assert_eq!(events[0]["args"]["message"], "hello");
}

#[test]
fn test_concurrent_write() {
    let (layer, mut engine, open) = ChromeLayer::with_writer();
    let mut sink = open;
    let iterations = 1000;

    for i in 0..iterations {
        for t in 0..4u64 {
            let attrs = vec![own("thread", &t.to_string()), own("index", &i.to_string())];
            let event = layer.on_event(&attrs, i as u64, 1, t).unwrap();
            sink.push_str(&submit_event(&mut engine, &event));
        }
    }
    sink.push_str(&engine.shutdown());

    let events = parse(&sink);
    assert_eq!(events.len(), 4 * iterations as usize);
    let expected: Vec<i32> = (0..iterations).collect();
    for i in 0..4 {
        let found: Vec<i32> = events
            .iter()
            .filter(|e| e["args"]["thread"] == i.to_string())
            .map(|e| e["args"]["index"].as_str().unwrap().parse().unwrap())
            .collect();
        assert_eq!(expected, found);
        assert!(events
            .iter()
            .filter(|e| e["args"]["thread"] == i.to_string())
            .all(|e| e["tid"].as_u64() == Some(i as u64)));
    }
}

#[test]
fn fan_in_loses_and_repeats_nothing() {
    let producers = 8u64;
    let per_producer = 1000u64;
    let (layer, mut engine, open) = ChromeLayer::with_writer();
    let mut sink = open;
    for i in 0..per_producer {
        for t in 0..producers {
            let attrs = vec![own("tag", &format!("{}-{}", t, i))];
            let event = layer.on_event(&attrs, i, 1, t).unwrap();
            sink.push_str(&submit_event(&mut engine, &event));
        }
    }
    sink.push_str(&engine.shutdown());
    let events = parse(&sink);
    assert_eq!(events.len(), (producers * per_producer) as usize);
    let mut tags: Vec<String> =
        events.iter().map(|e| e["args"]["tag"].as_str().unwrap().to_string()).collect();
    tags.sort();
    tags.dedup();
    assert_eq!(tags.len(), (producers * per_producer) as usize);
}

#[test]
fn a_span_gives_begin_then_end() {
    let mut layer = ChromeLayer::new(ChromeLayerConfig { batch_size: 0 });
    let (mut engine, open) = Emitter::attach();
    let mut sink = open;

    let attrs = vec![own("name", "load"), own("cat", "io")];
    assert_eq!(layer.on_new_span(1, &attrs, 1, 1), Ok(()));
    assert!(layer.contains(1));
    assert_eq!(layer.on_enter(1, 1500), true);
    layer.on_exit(1);
    let batch = layer.on_close(1, 4000).unwrap();
    assert!(!layer.contains(1));
    assert_eq!(batch.len(), 1);

    sink.push_str(&write_spans(&mut engine, &batch));
    sink.push_str(&finish(&mut engine, &layer.drain()));
    assert_eq!(
        sink,
        "[{\"name\":\"load\",\"cat\":\"io\",\"ph\":\"B\",\"ts\":1.500,\"pid\":1,\"tid\":1},\n\
         {\"name\":\"load\",\"cat\":\"io\",\"ph\":\"E\",\"ts\":4.000,\"pid\":1,\"tid\":1}]"
    );
    let events = parse(&sink);
    assert_eq!(events.len(), 2);
    assert!(events[1]["ts"].as_f64().unwrap() >= events[0]["ts"].as_f64().unwrap());
}

#[test]
fn an_async_span_gives_async_start_then_async_end() {
    let mut layer = ChromeLayer::new(ChromeLayerConfig::default());
    let attrs = vec![own("name", "task"), own("event", "async"), own("id", "9"), own("k", "v")];
    layer.on_new_span(5, &attrs, 3, 4).unwrap();
    layer.on_enter(5, 10);
    assert_eq!(layer.on_close(5, 20), None);
    let spans = layer.drain();
    assert_eq!(spans.len(), 1);
    assert!(spans[0].is_async);
    let events = spans[0].events();
    assert_eq!(events.len(), 2);
    assert_eq!(events[0].ph, EventType::AsyncStart);
    assert_eq!(events[1].ph, EventType::AsyncEnd);
    assert_eq!(events[0].ts, 10);
    assert_eq!(events[1].ts, 20);
    for e in events.iter() {
        assert_eq!(e.name, "task");
        assert_eq!(e.id, "9");
        assert_eq!(e.pid, 3);
        assert_eq!(e.tid, 4);
        assert_eq!(e.args.pairs(), &vec![own("k", "v")]);
    }
}

#[test]
fn entering_again_keeps_the_first_start() {
    let mut layer = ChromeLayer::new(ChromeLayerConfig::default());
    layer.on_new_span(1, &vec![own("name", "poll")], 1, 1).unwrap();
    assert_eq!(layer.on_enter(1, 100), true);
    layer.on_exit(1);
    assert_eq!(layer.on_enter(1, 200), false);
    assert_eq!(layer.on_enter(1, 300), false);
    layer.on_close(1, 400);
    let spans = layer.drain();
    assert_eq!(spans[0].start, Some(100));
    assert_eq!(spans[0].end, Some(400));
    let events = collect_events(&spans);
    assert_eq!(events.len(), 2);
    assert_eq!(events.iter().filter(|e| e.ph == EventType::DurationBegin).count(), 1);
    assert_eq!(events[0].ts, 100);
}

#[test]
fn the_table_tells_which_spans_are_live() {
    let mut layer = ChromeLayer::new(ChromeLayerConfig::default());
    assert!(!layer.contains(1));
    layer.on_new_span(1, &Vec::new(), 1, 1).unwrap();
    assert!(layer.contains(1));
    assert!(!layer.contains(2));
    assert!(!layer.is_refused(2));
    assert_eq!(layer.pending(), 0);
    layer.on_enter(1, 0);
    assert!(layer.contains(1));
    layer.on_close(1, 0);
    assert!(!layer.contains(1));
    assert_eq!(layer.pending(), 1);
}

#[test]
fn a_refused_span_is_noted_until_its_close() {
    let mut layer = ChromeLayer::new(ChromeLayerConfig::default());
    layer.on_new_span(1, &vec![own("name", "good")], 1, 1).unwrap();
    assert!(layer.on_new_span(2, &vec![own("pid", "x")], 1, 1).is_err());
    assert!(!layer.contains(2));
    assert!(layer.is_refused(2));
    assert!(!layer.is_refused(1));
    assert!(layer.contains(1));
    layer.on_enter(1, 5);
    assert!(layer.forget_refused(2));
    assert!(!layer.is_refused(2));
    assert!(!layer.forget_refused(2));
    assert!(!layer.forget_refused(1));
    assert!(layer.contains(1));

    assert!(layer.on_new_span(3, &vec![own("ph", "?")], 1, 1).is_err());
    assert!(layer.is_refused(3));
    layer.on_new_span(3, &Vec::new(), 1, 1).unwrap();
    assert!(!layer.is_refused(3));
    assert!(layer.contains(3));
}

#[test]
fn a_span_that_was_never_entered_gives_no_event() {
    let mut layer = ChromeLayer::new(ChromeLayerConfig::default());
    layer.on_new_span(1, &vec![own("name", "idle")], 1, 1).unwrap();
    layer.on_new_span(2, &vec![own("name", "busy")], 1, 1).unwrap();
    layer.on_enter(2, 5);
    layer.on_close(1, 7);
    layer.on_close(2, 9);
    let spans = layer.drain();
    assert_eq!(spans.len(), 2);
    assert_eq!(spans[0].start, None);
    assert!(spans[0].events().is_empty());
    let events = collect_events(&spans);
    assert_eq!(events.len(), 2);
    assert_eq!(events[0].name, "busy");

    let (mut engine, open) = Emitter::attach();
    let mut sink = open;
    sink.push_str(&finish(&mut engine, &spans));
    assert_eq!(parse(&sink).len(), 2);
}

#[test]
fn a_span_does_not_end_before_it_starts() {
    let mut layer = ChromeLayer::new(ChromeLayerConfig::default());
    layer.on_new_span(1, &Vec::new(), 1, 1).unwrap();
    layer.on_enter(1, 500);
    layer.on_close(1, 300);
    let spans = layer.drain();
    assert_eq!(spans[0].start, Some(500));
    assert_eq!(spans[0].end, Some(500));
}

#[test]
fn an_invalid_field_drops_only_that_span() {
    let mut layer = ChromeLayer::new(ChromeLayerConfig::default());
    let r = layer.on_new_span(1, &vec![own("name", "a"), own("tid", "main")], 1, 1);
    assert_eq!(r, Err(InvalidFieldValue { field: "tid".to_string(), raw: "main".to_string() }));
    assert!(!layer.contains(1));
    assert!(layer.is_refused(1));
    let e = layer.on_event(&vec![own("ph", "Q")], 0, 1, 1);
    assert_eq!(e, Err(InvalidFieldValue { field: "ph".to_string(), raw: "Q".to_string() }));
    assert_eq!(layer.on_new_span(2, &vec![own("name", "b")], 1, 1), Ok(()));
    assert!(layer.contains(2));
}

#[test]
fn a_free_event_is_an_instant_unless_told_otherwise() {
    let layer = ChromeLayer::new(ChromeLayerConfig::default());
    let plain = layer.on_event(&vec![own("name", "tick")], 2500, 11, 12).unwrap();
    let expected = ChromeEvent::builder(2500, 11, 12).name("tick").build().unwrap();
    assert_eq!(plain, expected);
    assert_eq!(plain.ph, EventType::Instant);
    let marked = layer.on_event(&vec![own("ph", "Mark")], 0, 1, 1).unwrap();
    assert_eq!(marked.ph, EventType::Mark);
}

#[test]
fn the_batch_leaves_when_more_spans_wait_than_the_batch_size() {
    let mut layer = ChromeLayer::new(ChromeLayerConfig { batch_size: 2 });
    for id in 0..3u64 {
        layer.insert_span(id, SpanInfo::new(ChromeEvent::with_defaults(0, 1, 1), false));
        layer.on_enter(id, id);
    }
    assert_eq!(layer.on_close(0, 10), None);
    assert_eq!(layer.pending(), 1);
    assert_eq!(layer.on_close(1, 11), None);
    assert_eq!(layer.pending(), 2);
    let batch = layer.on_close(2, 12).unwrap();
    assert_eq!(batch.len(), 3);
    assert_eq!(batch.iter().map(|s| s.end).collect::<Vec<_>>(), vec![Some(10), Some(11), Some(12)]);
    assert_eq!(layer.pending(), 0);
    assert!(layer.drain().is_empty());
}

#[test]
fn default_batch_size() {
    assert_eq!(ChromeLayerConfig::default().batch_size, 10000);
}

#[test]
fn batches_and_the_last_batch_make_one_array() {
    let mut layer = ChromeLayer::new(ChromeLayerConfig { batch_size: 1 });
    let (mut engine, open) = Emitter::attach();
    let mut sink = open;
    for id in 0..5u64 {
        layer.on_new_span(id, &vec![own("name", &format!("s{}", id))], 1, 1).unwrap();
        layer.on_enter(id, id * 10);
        if let Some(batch) = layer.on_close(id, id * 10 + 5) {
            sink.push_str(&write_spans(&mut engine, &batch));
            assert!(!sink.ends_with("]"));
        }
    }
    sink.push_str(&finish(&mut engine, &layer.drain()));
    let events = parse(&sink);
    assert_eq!(events.len(), 10);
    for id in 0..5usize {
        assert_eq!(events[2 * id]["name"], format!("s{}", id));
        assert_eq!(events[2 * id]["ph"], "B");
        assert_eq!(events[2 * id + 1]["name"], format!("s{}", id));
        assert_eq!(events[2 * id + 1]["ph"], "E");
    }
    assert_eq!(finish(&mut engine, &Vec::new()), "");
}

#[test]
fn an_empty_last_batch_still_closes_the_array() {
    let mut layer = ChromeLayer::new(ChromeLayerConfig { batch_size: 0 });
    let (mut engine, open) = Emitter::attach();
    let mut sink = open;
    layer.on_new_span(1, &Vec::new(), 1, 1).unwrap();
    layer.on_enter(1, 1);
    let batch = layer.on_close(1, 2).unwrap();
    sink.push_str(&write_spans(&mut engine, &batch));
    sink.push_str(&finish(&mut engine, &layer.drain()));
    assert_eq!(parse(&sink).len(), 2);
    assert!(!sink.contains(",\n]"));
}

#[test]
fn the_opening_event_comes_with_the_first_entry_only() {
    let mut layer = ChromeLayer::new(ChromeLayerConfig::default());
    layer.on_new_span(1, &vec![own("name", "load"), own("cat", "io")], 2, 3).unwrap();
    let begin = layer.enter_span(1, 100).unwrap();
    let expected = ChromeEvent::builder(100, 2, 3)
        .name("load")
        .cat("io")
        .ph(EventType::DurationBegin)
        .build()
        .unwrap();
    assert_eq!(begin, expected);
    assert_eq!(layer.enter_span(1, 200), None);
    layer.on_exit(1);
    let end = layer.close_span(1, 300).unwrap();
    assert_eq!(end.ph, EventType::DurationEnd);
    assert_eq!(end.ts, 300);
    assert_eq!(end.name, "load");
    assert!(!layer.contains(1));
    assert_eq!(layer.pending(), 0);
}

#[test]
fn closing_a_span_that_was_never_entered_gives_no_event() {
    let mut layer = ChromeLayer::new(ChromeLayerConfig::default());
    layer.on_new_span(7, &vec![own("event", "async")], 1, 1).unwrap();
    assert_eq!(layer.close_span(7, 50), None);
    assert!(!layer.contains(7));

    layer.on_new_span(8, &vec![own("event", "async")], 1, 1).unwrap();
    assert_eq!(layer.enter_span(8, 60).unwrap().ph, EventType::AsyncStart);
    assert_eq!(layer.close_span(8, 70).unwrap().ph, EventType::AsyncEnd);
}

#[test]
fn span_records_tell_whether_they_are_complete() {
    let mut span = SpanInfo::new(ChromeEvent::with_defaults(0, 1, 1), false);
    assert!(!span.is_complete());
    assert_eq!(span.begin_event(), None);
    assert_eq!(span.end_event(), None);
    span.start = Some(5);
    assert!(!span.is_complete());
    assert_eq!(span.begin_event().unwrap().ts, 5);
    assert_eq!(span.end_event(), None);
    span.end = Some(9);
    assert!(span.is_complete());
    assert_eq!(span.end_event().unwrap().ts, 9);
    assert_eq!(span.events().len(), 2);
    assert_eq!(span.begin_phase(), EventType::DurationBegin);
    assert_eq!(span.end_phase(), EventType::DurationEnd);
}

#[test]
fn render_spans_is_the_whole_trace() {
    let mut a = SpanInfo::new(ChromeEvent::builder(0, 1, 1).name("a").build().unwrap(), false);
    a.start = Some(1000);
    a.end = Some(2000);
    let b = SpanInfo::new(ChromeEvent::builder(0, 1, 1).name("b").build().unwrap(), false);
    let out = tracing_chrometrace::writer::render_spans(&vec![a, b]);
    assert_eq!(
        out,
        "[{\"name\":\"a\",\"cat\":\"DefaultCategory\",\"ph\":\"B\",\"ts\":1.000,\"pid\":1,\"tid\":1},\n\
         {\"name\":\"a\",\"cat\":\"DefaultCategory\",\"ph\":\"E\",\"ts\":2.000,\"pid\":1,\"tid\":1}]"
    );
    assert_eq!(tracing_chrometrace::writer::render_spans(&Vec::new()), "[]");
}
