//! The record of one live span, and the pair of events that a finished span
//! gives.

use crate::event::{ChromeEvent, EventModel};
use crate::phase::EventType;
use vstd::prelude::*;

verus! {

/// The mathematical content of a span record.
pub struct SpanModel {
    pub fields: EventModel,
    pub is_async: bool,
    pub start: Option<u64>,
    pub end: Option<u64>,
}

/// What is known of one span between its creation and its close.
#[derive(Debug, Clone, PartialEq, Eq)]
pub struct SpanInfo {
    /// The fields captured at creation, as the record from which the span's
    /// events take everything but phase and time.
    pub fields: ChromeEvent,
    /// Whether the span stands for an asynchronous task.
    pub is_async: bool,
    /// When the span was first entered, in nanoseconds.
    pub start: Option<u64>,
    /// When the span was closed, in nanoseconds.
    pub end: Option<u64>,
}

impl View for SpanInfo {
    type V = SpanModel;

    open spec fn view(&self) -> SpanModel {
        SpanModel {
            fields: self.fields@,
            is_async: self.is_async,
            start: self.start,
            end: self.end,
        }
    }
}

/// The views of a vector of events.
pub open spec fn models_of(v: Seq<ChromeEvent>) -> Seq<EventModel> {
    Seq::new(v.len(), |i: int| v[i]@)
}

/// The views of a vector of span records.
pub open spec fn span_models_of(v: Seq<SpanInfo>) -> Seq<SpanModel> {
    Seq::new(v.len(), |i: int| v[i]@)
}

/// The phase of the event that opens a span.
pub open spec fn begin_phase(is_async: bool) -> EventType {
    if is_async {
        EventType::AsyncStart
    } else {
        EventType::DurationBegin
    }
}

/// The phase of the event that ends a span.
pub open spec fn end_phase(is_async: bool) -> EventType {
    if is_async {
        EventType::AsyncEnd
    } else {
        EventType::DurationEnd
    }
}

/// The opening event of a span that has been entered: the span's fields
/// with the opening phase, at the start.
pub open spec fn begin_event(s: SpanModel) -> Option<EventModel> {
    match s.start {
        Some(t0) => Some(EventModel { ph: begin_phase(s.is_async), ts: t0, ..s.fields }),
        None => None,
    }
}

/// The ending event of a span that has been entered and closed: the span's
/// fields with the ending phase, at the end.
pub open spec fn end_event(s: SpanModel) -> Option<EventModel> {
    match (s.start, s.end) {
        (Some(_), Some(t1)) => Some(
            EventModel { ph: end_phase(s.is_async), ts: t1, ..s.fields },
        ),
        _ => None,
    }
}

/// The events of a finished span. A span with both times gives its opening
/// event and then its ending event, which differ in phase and time alone. A
/// span that lacks a time gives none.
pub open spec fn span_events(s: SpanModel) -> Seq<EventModel> {
    match (begin_event(s), end_event(s)) {
        (Some(b), Some(e)) => seq![b, e],
        _ => Seq::empty(),
    }
}

/// The view of an event that may be absent.
pub open spec fn model_of(e: Option<ChromeEvent>) -> Option<EventModel> {
    match e {
        Some(e) => Some(e@),
        None => None,
    }
}

/// The events of a batch of finished spans: those of each span, in the order
/// of the batch.
pub open spec fn batch_events(spans: Seq<SpanModel>) -> Seq<EventModel>
    decreases spans.len(),
{
    if spans.len() == 0 {
        Seq::empty()
    } else {
        batch_events(spans.drop_last()) + span_events(spans.last())
    }
}

impl ChromeEvent {
    /// A copy of the event.
    pub fn duplicate(&self) -> (r: ChromeEvent)
        ensures
            r@ == self@,
    {
        ChromeEvent {
            name: self.name.clone(),
            cat: self.cat.clone(),
            ph: self.ph,
            ts: self.ts,
            dur: self.dur,
            tts: self.tts,
            id: self.id.clone(),
            pid: self.pid,
            tid: self.tid,
            args: self.args.duplicate(),
        }
    }
}

impl SpanInfo {
    /// Whether the record is well formed: the span does not end before it
    /// starts.
    pub open spec fn wf(&self) -> bool {
        self.start is Some && self.end is Some ==> self.start->0 <= self.end->0
    }

    /// A span that was just created with `fields`: neither entered nor
    /// closed.
    pub fn new(fields: ChromeEvent, is_async: bool) -> (s: SpanInfo)
        ensures
            s.fields == fields,
            s.is_async == is_async,
            s.start is None,
            s.end is None,
    {
        SpanInfo { fields, is_async, start: None, end: None }
    }

    /// Whether the span has both its times, so that it gives its events.
    pub fn is_complete(&self) -> (b: bool)
        ensures
            b == (self.start is Some && self.end is Some),
            b == (span_events(self@).len() == 2),
            !b == (span_events(self@).len() == 0),
    {
        self.start.is_some() && self.end.is_some()
    }

    /// The phase of the span's opening event.
    pub fn begin_phase(&self) -> (p: EventType)
        ensures
            p == begin_phase(self.is_async),
    {
        if self.is_async {
            EventType::AsyncStart
        } else {
            EventType::DurationBegin
        }
    }

    /// The phase of the span's ending event.
    pub fn end_phase(&self) -> (p: EventType)
        ensures
            p == end_phase(self.is_async),
    {
        if self.is_async {
            EventType::AsyncEnd
        } else {
            EventType::DurationEnd
        }
    }

    /// The opening event, once the span has been entered.
    pub fn begin_event(&self) -> (r: Option<ChromeEvent>)
        ensures
            model_of(r) == begin_event(self@),
    {
        match self.start {
            Some(t0) => {
                let mut begin = self.fields.duplicate();
                begin.ph = self.begin_phase();
                begin.ts = t0;
                Some(begin)
            },
            None => None,
        }
    }

    /// The ending event, once the span has been entered and closed.
    pub fn end_event(&self) -> (r: Option<ChromeEvent>)
        ensures
            model_of(r) == end_event(self@),
    {
        match (self.start, self.end) {
            (Some(_), Some(t1)) => {
                let mut end = self.fields.duplicate();
                end.ph = self.end_phase();
                end.ts = t1;
                Some(end)
            },
            _ => None,
        }
    }

    /// The events of the span: the opening and the ending event where both
    /// times are known, none otherwise.
    pub fn events(&self) -> (r: Vec<ChromeEvent>)
        ensures
            models_of(r@) == span_events(self@),
            r@.len() == span_events(self@).len(),
    {
        let mut r: Vec<ChromeEvent> = Vec::new();
        match (self.begin_event(), self.end_event()) {
            (Some(begin), Some(end)) => {
                r.push(begin);
                r.push(end);
            },
            _ => {},
        }
        assert(models_of(r@) =~= span_events(self@));
        r
    }
}

/// A span with both times gives exactly two events: the opening event and
/// then the ending event, `DurationBegin` and `DurationEnd` for a
/// synchronous span, `AsyncStart` and `AsyncEnd` for an asynchronous one.
/// They share name, category and every other field but phase and time, and
/// where the span is well formed the second is not earlier than the first.
pub proof fn lemma_span_symmetry(s: SpanInfo)
    requires
        s.start is Some,
        s.end is Some,
    ensures
        span_events(s@).len() == 2,
        span_events(s@)[0].ph == (if s.is_async {
            EventType::AsyncStart
        } else {
            EventType::DurationBegin
        }),
        span_events(s@)[1].ph == (if s.is_async {
            EventType::AsyncEnd
        } else {
            EventType::DurationEnd
        }),
        span_events(s@)[0].name == s.fields@.name,
        span_events(s@)[1].name == s.fields@.name,
        span_events(s@)[0].cat == span_events(s@)[1].cat,
        span_events(s@)[0].ts == s.start->0,
        span_events(s@)[1].ts == s.end->0,
        s.wf() ==> span_events(s@)[0].ts <= span_events(s@)[1].ts,
{
}

/// A span that lacks its start or its end gives no event.
pub proof fn lemma_incomplete_span_is_silent(s: SpanInfo)
    requires
        s.start is None || s.end is None,
    ensures
        span_events(s@).len() == 0,
{
}

} // verus!
