//! The writer's side of the batching design: finished spans become pairs of
//! events, the events become text, and the text goes through the deferred
//! slot, so that the stream stays a well-formed array whichever batch turns
//! out to be the last.

use crate::emit::{array_text, evicted_text, render, texts_of, Emitter};
use crate::event::{ChromeEvent, EventModel};
use crate::grammar::{
    all_values, is_array, lemma_event_text_is_object, lemma_event_texts_are_values,
    lemma_stream_is_array, lemma_trace_is_array,
};
use crate::json::event_text;
use crate::span::{batch_events, models_of, span_events, span_models_of, SpanInfo, SpanModel};
use vstd::prelude::*;
use vstd::string::StringExecFns;

verus! {

/// The JSON object of each event, in order.
pub open spec fn event_texts(events: Seq<EventModel>) -> Seq<Seq<char>> {
    Seq::new(events.len(), |i: int| event_text(events[i]))
}

/// The events of a batch of finished spans, span by span.
pub fn collect_events(spans: &Vec<SpanInfo>) -> (r: Vec<ChromeEvent>)
    ensures
        models_of(r@) == batch_events(span_models_of(spans@)),
        r@.len() == batch_events(span_models_of(spans@)).len(),
{
    let ghost all = span_models_of(spans@);
    let mut r: Vec<ChromeEvent> = Vec::new();
    let mut i: usize = 0;
    assert(models_of(r@) =~= batch_events(all.take(0)));
    while i < spans.len()
        invariant
            i <= spans.len(),
            all == span_models_of(spans@),
            models_of(r@) == batch_events(all.take(i as int)),
        decreases spans.len() - i,
    {
        let ghost before = r@;
        let mut pair = spans[i].events();
        let ghost added = pair@;
        r.append(&mut pair);
        proof {
            assert(all.take(i + 1).drop_last() =~= all.take(i as int));
            assert(all.take(i + 1).last() == spans@[i as int]@);
            assert(models_of(before + added) =~= models_of(before) + models_of(added));
        }
        i += 1;
    }
    proof {
        assert(all.take(spans.len() as int) =~= all);
    }
    r
}

/// The JSON object of each event, in order.
pub fn encode_all(events: &Vec<ChromeEvent>) -> (t: Vec<String>)
    ensures
        texts_of(t@) == event_texts(models_of(events@)),
        t@.len() == events@.len(),
{
    let mut t: Vec<String> = Vec::new();
    let mut i: usize = 0;
    while i < events.len()
        invariant
            i <= events.len(),
            t.len() == i,
            forall|j: int| 0 <= j < i ==> (#[trigger] t@[j])@ == event_text(events@[j]@),
        decreases events.len() - i,
    {
        t.push(events[i].to_json());
        i += 1;
    }
    assert(texts_of(t@) =~= event_texts(models_of(events@)));
    t
}

impl Emitter {
    /// Submits every text of `texts` in order and returns all that the sink
    /// must receive for it. On a closed stream nothing is accepted and
    /// nothing is returned.
    pub fn submit_all(&mut self, texts: &Vec<String>) -> (chunk: String)
        ensures
            final(self).wf(),
            final(self).closed() == old(self).closed(),
            final(self).written() == old(self).written() + chunk@,
            old(self).closed() ==> *final(self) == *old(self) && chunk@ == Seq::<char>::empty(),
            !old(self).closed() ==> final(self).accepted() == old(self).accepted() + texts_of(
                texts@,
            ),
    {
        let mut chunk = String::new();
        if self.is_closed() {
            assert(self.written() + chunk@ =~= self.written());
            return chunk;
        }
        let ghost all = texts_of(texts@);
        let mut i: usize = 0;
        assert(old(self).accepted() + all.take(0) =~= old(self).accepted());
        assert(old(self).written() + chunk@ =~= old(self).written());
        while i < texts.len()
            invariant
                i <= texts.len(),
                all == texts_of(texts@),
                self.wf(),
                !self.closed(),
                self.accepted() == old(self).accepted() + all.take(i as int),
                self.written() == old(self).written() + chunk@,
            decreases texts.len() - i,
        {
            let ghost sofar = chunk@;
            match self.submit(texts[i].clone()) {
                Some(c) => {
                    chunk.append(c.as_str());
                    proof {
                        assert(old(self).written() + sofar + c@ =~= old(self).written() + chunk@);
                    }
                },
                None => {},
            }
            proof {
                let sofar = old(self).accepted() + all.take(i as int);
                assert(sofar.push(all[i as int]) =~= old(self).accepted() + all.take(i + 1));
            }
            i += 1;
        }
        proof {
            assert(all.take(texts.len() as int) =~= all);
        }
        chunk
    }
}

/// Submits one event: serialises it and puts the text into the slot. The
/// result is the text for the sink: the evicted text with the separator
/// behind it, or nothing. On a closed stream nothing is accepted and nothing
/// is returned.
pub fn submit_event(engine: &mut Emitter, event: &ChromeEvent) -> (chunk: String)
    ensures
        final(engine).wf(),
        final(engine).closed() == old(engine).closed(),
        final(engine).written() == old(engine).written() + chunk@,
        old(engine).closed() ==> *final(engine) == *old(engine) && chunk@.len() == 0,
        !old(engine).closed() ==> ({
            &&& final(engine).accepted() == old(engine).accepted().push(event_text(event@))
            &&& final(engine).pending() == Some(event_text(event@))
            &&& chunk@ == evicted_text(old(engine).pending())
        }),
        all_values(old(engine).accepted()) ==> all_values(final(engine).accepted()),
{
    proof {
        lemma_event_text_is_object(event@);
    }
    match engine.submit(event.to_json()) {
        Some(chunk) => chunk,
        None => {
            let chunk = String::new();
            assert(engine.written() + chunk@ =~= engine.written());
            chunk
        },
    }
}

/// The complete stream for `events`: the array of their JSON objects.
pub fn render_events(events: &Vec<ChromeEvent>) -> (out: String)
    ensures
        out@ == array_text(event_texts(models_of(events@))),
        is_array(out@),
{
    let texts = encode_all(events);
    proof {
        lemma_trace_is_array(models_of(events@));
    }
    render(&texts)
}

/// Writes a batch of finished spans: the events of each span that has both
/// its times, as JSON objects, through the deferred slot. The result is the
/// text for the sink; the last object of the batch waits in the slot. On a
/// closed stream nothing is accepted and nothing is returned.
pub fn write_spans(engine: &mut Emitter, spans: &Vec<SpanInfo>) -> (chunk: String)
    ensures
        final(engine).wf(),
        final(engine).closed() == old(engine).closed(),
        final(engine).written() == old(engine).written() + chunk@,
        old(engine).closed() ==> *final(engine) == *old(engine) && chunk@.len() == 0,
        !old(engine).closed() ==> final(engine).accepted() == old(engine).accepted()
            + event_texts(batch_events(span_models_of(spans@))),
        all_values(old(engine).accepted()) ==> all_values(final(engine).accepted()),
{
    proof {
        if all_values(engine.accepted()) {
            lemma_event_texts_are_values(
                engine.accepted(),
                batch_events(span_models_of(spans@)),
            );
        }
    }
    let events = collect_events(spans);
    let texts = encode_all(&events);
    engine.submit_all(&texts)
}

/// Ends the stream with the spans that were still waiting: writes them as
/// [`write_spans`] does and shuts the engine down. From then on the text
/// handed out in all is the complete array of every accepted event.
pub fn finish(engine: &mut Emitter, remain: &Vec<SpanInfo>) -> (chunk: String)
    ensures
        final(engine).wf(),
        final(engine).closed(),
        final(engine).written() == old(engine).written() + chunk@,
        final(engine).written() == array_text(final(engine).accepted()),
        old(engine).closed() ==> final(engine).accepted() == old(engine).accepted()
            && chunk@.len() == 0,
        !old(engine).closed() ==> final(engine).accepted() == old(engine).accepted()
            + event_texts(batch_events(span_models_of(remain@))),
        all_values(old(engine).accepted()) ==> all_values(final(engine).accepted()) && is_array(
            final(engine).written(),
        ),
{
    let mut chunk = write_spans(engine, remain);
    let ghost head = chunk@;
    let tail = engine.shutdown();
    chunk.append(tail.as_str());
    proof {
        assert(old(engine).written() + head + tail@ =~= old(engine).written() + chunk@);
        if all_values(engine.accepted()) {
            lemma_stream_is_array(&*engine);
        }
    }
    chunk
}

/// The complete stream for the finished spans `spans`: the array of the
/// JSON objects of their events.
pub fn render_spans(spans: &Vec<SpanInfo>) -> (out: String)
    ensures
        out@ == array_text(event_texts(batch_events(span_models_of(spans@)))),
        is_array(out@),
{
    let (mut engine, open) = Emitter::attach();
    let chunk = finish(&mut engine, spans);
    let mut out = open;
    out.append(chunk.as_str());
    proof {
        assert(Seq::<Seq<char>>::empty() + event_texts(batch_events(span_models_of(spans@)))
            =~= event_texts(batch_events(span_models_of(spans@))));
        lemma_trace_is_array(batch_events(span_models_of(spans@)));
    }
    out
}

/// One span more in a batch adds its events behind those of the batch.
pub proof fn lemma_batch_events_push(spans: Seq<SpanInfo>, next: SpanInfo)
    ensures
        batch_events(span_models_of(spans.push(next))) == batch_events(span_models_of(spans))
            + span_events(next@),
{
    assert(span_models_of(spans.push(next)).drop_last() =~= span_models_of(spans));
}

/// The events of two batches in a row are the events of the two batches
/// taken as one: where the spans are cut into batches changes nothing.
pub proof fn lemma_batch_events_concat(a: Seq<SpanModel>, b: Seq<SpanModel>)
    ensures
        batch_events(a + b) == batch_events(a) + batch_events(b),
    decreases b.len(),
{
    if b.len() == 0 {
        assert(a + b =~= a);
        assert(batch_events(a) + batch_events(b) =~= batch_events(a));
    } else {
        lemma_batch_events_concat(a, b.drop_last());
        assert((a + b).drop_last() =~= a + b.drop_last());
        assert((a + b).last() == b.last());
        assert(batch_events(a + b) =~= batch_events(a) + batch_events(b));
    }
}

/// The texts of two runs of events in a row are the texts of the two runs
/// taken as one.
pub proof fn lemma_event_texts_concat(a: Seq<EventModel>, b: Seq<EventModel>)
    ensures
        event_texts(a + b) == event_texts(a) + event_texts(b),
{
    assert(event_texts(a + b) =~= event_texts(a) + event_texts(b));
}

/// Whatever is written batch by batch, the stream ends as the array of all
/// the events: an engine that has accepted the events of the batch `a` and
/// then those of the batch `b` has accepted the events of `a + b`.
pub proof fn lemma_batches_accumulate(start: Seq<Seq<char>>, a: Seq<SpanModel>, b: Seq<SpanModel>)
    ensures
        start + event_texts(batch_events(a)) + event_texts(batch_events(b)) == start + event_texts(
            batch_events(a + b),
        ),
{
    lemma_batch_events_concat(a, b);
    lemma_event_texts_concat(batch_events(a), batch_events(b));
    assert(start + event_texts(batch_events(a)) + event_texts(batch_events(b)) =~= start + (
    event_texts(batch_events(a)) + event_texts(batch_events(b))));
}

} // verus!
