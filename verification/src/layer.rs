//! The span table: the live spans by their id, and the finished spans that
//! wait for the writer.

use crate::emit::Emitter;
use crate::event::{default_model, pairs_of, ChromeEvent, EventModel, Pairs};
use crate::fields::{
    all_valid, names_first_invalid, recorded_all, FieldCollector, FieldsModel, InvalidFieldValue,
};
use crate::span::{
    begin_event, begin_phase, end_event, end_phase, model_of, span_events, SpanInfo, SpanModel,
};
use std::collections::{HashMap, HashSet};
use vstd::prelude::*;

verus! {

broadcast use vstd::std_specs::hash::group_hash_axioms;

/// The options of a layer.
#[derive(Debug, Clone, Copy, PartialEq, Eq, Structural)]
pub struct ChromeLayerConfig {
    /// How many finished spans may wait before they are handed to the
    /// writer: one more than this triggers the hand-off.
    pub batch_size: usize,
}

impl ChromeLayerConfig {
    /// The options with the batch size `batch_size`, which must be positive:
    /// `None` exactly for zero.
    pub fn with_batch_size(batch_size: usize) -> (r: Option<ChromeLayerConfig>)
        ensures
            batch_size == 0 ==> r is None,
            batch_size > 0 ==> r == Some(ChromeLayerConfig { batch_size }),
    {
        if batch_size == 0 {
            None
        } else {
            Some(ChromeLayerConfig { batch_size })
        }
    }
}

impl Default for ChromeLayerConfig {
    fn default() -> (c: ChromeLayerConfig)
        ensures
            c.batch_size == 10000,
    {
        ChromeLayerConfig { batch_size: 10000 }
    }
}

/// The later of the close time `now` and the span's start, so that no span
/// ends before it starts.
pub open spec fn close_time(start: Option<u64>, now: u64) -> u64 {
    match start {
        Some(t0) => if now < t0 {
            t0
        } else {
            now
        },
        None => now,
    }
}

/// The record of a span after an entry at `now`: the first entry sets the
/// start, a later one changes nothing.
pub open spec fn entered(s: SpanInfo, now: u64) -> SpanInfo {
    if s.start is None {
        SpanInfo { start: Some(now), ..s }
    } else {
        s
    }
}

/// The record of a span after its close at `now`.
pub open spec fn closed_at(s: SpanInfo, now: u64) -> SpanInfo {
    SpanInfo { end: Some(close_time(s.start, now)), ..s }
}

/// What a collector holds before the first field of a call site: the default
/// record at the time `ts`, for the process `pid` and the thread `tid`.
pub open spec fn initial_fields(ts: u64, pid: u64, tid: u64) -> FieldsModel {
    FieldsModel { event: default_model(ts, pid, tid), is_async: false }
}

/// The record of a span that was just created with the fields `attrs`.
pub open spec fn created_span(attrs: Pairs, pid: u64, tid: u64) -> SpanModel {
    let collected = recorded_all(initial_fields(0, pid, tid), attrs);
    SpanModel { fields: collected.event, is_async: collected.is_async, start: None, end: None }
}

/// The record of a free event at `now` with the fields `attrs`: an `Instant`
/// event unless a `ph` field says otherwise.
pub open spec fn free_event(attrs: Pairs, now: u64, pid: u64, tid: u64) -> EventModel {
    recorded_all(initial_fields(now, pid, tid), attrs).event
}

fn start_collector(ts: u64, pid: u64, tid: u64) -> (c: FieldCollector)
    ensures
        c@ == initial_fields(ts, pid, tid),
{
    FieldCollector::new(ChromeEvent::with_defaults(ts, pid, tid))
}

/// The state behind the lifecycle callbacks.
///
/// The host names only spans that it has created and not yet closed. A
/// callback for a span that is not in the table has no meaning, so the
/// callbacks that name a span demand that it is there: ask [`ChromeLayer::contains`]
/// first where that is not known.
pub struct ChromeLayer {
    map: HashMap<u64, SpanInfo>,
    buffer: Vec<SpanInfo>,
    refused: HashSet<u64>,
    config: ChromeLayerConfig,
}

impl ChromeLayer {
    /// The live spans by id.
    pub closed spec fn spans(&self) -> Map<u64, SpanInfo> {
        self.map@
    }

    /// The finished spans that wait for the writer, oldest first.
    pub closed spec fn buffered(&self) -> Seq<SpanInfo> {
        self.buffer@
    }

    /// The ids of the spans whose creation was refused for an invalid field
    /// and whose close has not been seen yet.
    pub closed spec fn refused(&self) -> Set<u64> {
        self.refused@
    }

    /// The configured batch size.
    pub closed spec fn batch_size(&self) -> usize {
        self.config.batch_size
    }

    /// A layer with no span.
    pub fn new(config: ChromeLayerConfig) -> (layer: ChromeLayer)
        ensures
            layer.spans() == Map::<u64, SpanInfo>::empty(),
            layer.buffered() == Seq::<SpanInfo>::empty(),
            layer.refused() == Set::<u64>::empty(),
            layer.batch_size() == config.batch_size,
    {
        ChromeLayer { map: HashMap::new(), buffer: Vec::new(), refused: HashSet::new(), config }
    }

    /// A layer with the default options, the engine of its stream, and the
    /// opening bracket, which goes to the sink before anything else.
    pub fn with_writer() -> (r: (ChromeLayer, Emitter, String))
        ensures
            r.0.spans() == Map::<u64, SpanInfo>::empty(),
            r.0.buffered() == Seq::<SpanInfo>::empty(),
            r.0.refused() == Set::<u64>::empty(),
            r.0.batch_size() == 10000,
            r.1.wf(),
            !r.1.closed(),
            r.1.accepted() == Seq::<Seq<char>>::empty(),
            r.1.written() == r.2@,
            r.2@ == seq!['['],
    {
        let layer = ChromeLayer::new(ChromeLayerConfig::default());
        let (engine, open) = Emitter::attach();
        (layer, engine, open)
    }

    /// Whether the span `id` is live.
    pub fn contains(&self, id: u64) -> (b: bool)
        ensures
            b == self.spans().contains_key(id),
    {
        self.map.contains_key(&id)
    }

    /// Whether the creation of the span `id` was refused, so that the
    /// callbacks that follow for it are to be passed over.
    pub fn is_refused(&self, id: u64) -> (b: bool)
        ensures
            b == self.refused().contains(id),
    {
        self.refused.contains(&id)
    }

    /// How many finished spans wait for the writer.
    pub fn pending(&self) -> (n: usize)
        ensures
            n == self.buffered().len(),
    {
        self.buffer.len()
    }

    /// Puts the span record `info` into the table under `id`.
    pub fn insert_span(&mut self, id: u64, info: SpanInfo)
        ensures
            final(self).spans() == old(self).spans().insert(id, info),
            final(self).refused() == old(self).refused().remove(id),
            final(self).buffered() == old(self).buffered(),
            final(self).batch_size() == old(self).batch_size(),
    {
        self.map.insert(id, info);
        self.refused.remove(&id);
    }

    /// Records a new span under `id`, created in the process `pid` on the
    /// thread `tid` with the fields `attrs`. Where every field is acceptable
    /// the table gets the span's record, neither entered nor closed. Where
    /// one is not, the table stays as it was, the id is noted as refused, and
    /// the error names the first such field.
    pub fn on_new_span(&mut self, id: u64, attrs: &Vec<(String, String)>, pid: u64, tid: u64) -> (r:
        Result<(), InvalidFieldValue>)
        ensures
            final(self).buffered() == old(self).buffered(),
            final(self).batch_size() == old(self).batch_size(),
            r is Ok <==> all_valid(pairs_of(attrs@)),
            r is Ok ==> ({
                &&& final(self).spans() == old(self).spans().insert(id, final(self).spans()[id])
                &&& final(self).spans()[id]@ == created_span(pairs_of(attrs@), pid, tid)
                &&& final(self).refused() == old(self).refused().remove(id)
            }),
            r is Err ==> final(self).spans() == old(self).spans(),
            r is Err ==> final(self).refused() == old(self).refused().insert(id),
            r matches Err(e) ==> names_first_invalid(e, pairs_of(attrs@)),
    {
        let mut collector = start_collector(0, pid, tid);
        match collector.record_all(attrs) {
            Ok(()) => {
                let info = collector.into_span();
                self.map.insert(id, info);
                self.refused.remove(&id);
                Ok(())
            },
            Err(e) => {
                self.refused.insert(id);
                Err(e)
            },
        }
    }

    /// Passes over the close of a span whose creation was refused: the id is
    /// no longer noted. The result says whether it was.
    pub fn forget_refused(&mut self, id: u64) -> (was: bool)
        ensures
            was == old(self).refused().contains(id),
            final(self).refused() == old(self).refused().remove(id),
            final(self).spans() == old(self).spans(),
            final(self).buffered() == old(self).buffered(),
            final(self).batch_size() == old(self).batch_size(),
    {
        self.refused.remove(&id)
    }

    /// Builds the record of a free event at `now`, recorded in the process
    /// `pid` on the thread `tid` with the fields `attrs`. The table does not
    /// change. Where a field is not acceptable no event is built and the
    /// error names the first such field.
    pub fn on_event(&self, attrs: &Vec<(String, String)>, now: u64, pid: u64, tid: u64) -> (r:
        Result<ChromeEvent, InvalidFieldValue>)
        ensures
            r is Ok <==> all_valid(pairs_of(attrs@)),
            r matches Ok(event) ==> event@ == free_event(pairs_of(attrs@), now, pid, tid),
            r matches Err(e) ==> names_first_invalid(e, pairs_of(attrs@)),
    {
        let mut collector = start_collector(now, pid, tid);
        match collector.record_all(attrs) {
            Ok(()) => Ok(collector.into_event()),
            Err(e) => Err(e),
        }
    }

    /// Notes that the live span `id` was entered at `now`. The first entry
    /// sets the start; a later one changes nothing. The result says whether
    /// this was the first entry.
    pub fn on_enter(&mut self, id: u64, now: u64) -> (first: bool)
        requires
            old(self).spans().contains_key(id),
        ensures
            first == (old(self).spans()[id].start is None),
            final(self).spans() == old(self).spans().insert(
                id,
                entered(old(self).spans()[id], now),
            ),
            !first ==> final(self).spans() == old(self).spans(),
            final(self).buffered() == old(self).buffered(),
            final(self).refused() == old(self).refused(),
            final(self).batch_size() == old(self).batch_size(),
    {
        let mut info = self.map.remove(&id).unwrap();
        let first = info.start.is_none();
        if first {
            info.start = Some(now);
        }
        self.map.insert(id, info);
        proof {
            assert(self.map@ =~= old(self).map@.insert(id, info));
            if !first {
                assert(self.map@ =~= old(self).map@);
            }
        }
        first
    }

    /// Notes that the live span `id` was entered at `now`, as
    /// [`ChromeLayer::on_enter`] does, and hands out the span's opening event
    /// on the first entry. A later entry gives no event.
    pub fn enter_span(&mut self, id: u64, now: u64) -> (r: Option<ChromeEvent>)
        requires
            old(self).spans().contains_key(id),
        ensures
            final(self).spans() == old(self).spans().insert(
                id,
                entered(old(self).spans()[id], now),
            ),
            old(self).spans()[id].start is Some ==> r is None,
            old(self).spans()[id].start is Some ==> final(self).spans() == old(self).spans(),
            old(self).spans()[id].start is None ==> model_of(r) == begin_event(
                entered(old(self).spans()[id], now)@,
            ),
            final(self).buffered() == old(self).buffered(),
            final(self).refused() == old(self).refused(),
            final(self).batch_size() == old(self).batch_size(),
    {
        if self.on_enter(id, now) {
            match self.map.get(&id) {
                Some(info) => info.begin_event(),
                None => None,
            }
        } else {
            None
        }
    }

    /// Closes the live span `id` at `now` and hands out its ending event: the
    /// record leaves the table and waits for no writer. A span that was never
    /// entered gives no event.
    pub fn close_span(&mut self, id: u64, now: u64) -> (r: Option<ChromeEvent>)
        requires
            old(self).spans().contains_key(id),
        ensures
            final(self).spans() == old(self).spans().remove(id),
            model_of(r) == end_event(closed_at(old(self).spans()[id], now)@),
            r is Some <==> old(self).spans()[id].start is Some,
            final(self).buffered() == old(self).buffered(),
            final(self).refused() == old(self).refused(),
            final(self).batch_size() == old(self).batch_size(),
    {
        let mut info = self.map.remove(&id).unwrap();
        let end = match info.start {
            Some(t0) => if now < t0 {
                t0
            } else {
                now
            },
            None => now,
        };
        info.end = Some(end);
        info.end_event()
    }

    /// Notes that the live span `id` was left. Nothing changes: a span may be
    /// left and entered again many times before it closes.
    pub fn on_exit(&self, id: u64)
        requires
            self.spans().contains_key(id),
    {
    }

    /// Closes the live span `id` at `now`: the record leaves the table, gets
    /// its end time and joins the waiting spans. Where more spans wait than
    /// the batch size, all of them come back as the batch for the writer and
    /// none is left waiting.
    pub fn on_close(&mut self, id: u64, now: u64) -> (batch: Option<Vec<SpanInfo>>)
        requires
            old(self).spans().contains_key(id),
        ensures
            final(self).spans() == old(self).spans().remove(id),
            final(self).refused() == old(self).refused(),
            final(self).batch_size() == old(self).batch_size(),
            ({
                let waiting = old(self).buffered().push(closed_at(old(self).spans()[id], now));
                &&& waiting.len() > old(self).batch_size() ==> batch is Some && batch->0@
                    == waiting && final(self).buffered() == Seq::<SpanInfo>::empty()
                &&& waiting.len() <= old(self).batch_size() ==> batch is None
                    && final(self).buffered() == waiting
            }),
    {
        let mut info = self.map.remove(&id).unwrap();
        let end = match info.start {
            Some(t0) => if now < t0 {
                t0
            } else {
                now
            },
            None => now,
        };
        info.end = Some(end);
        self.buffer.push(info);
        if self.buffer.len() > self.config.batch_size {
            let mut batch: Vec<SpanInfo> = Vec::new();
            std::mem::swap(&mut self.buffer, &mut batch);
            Some(batch)
        } else {
            None
        }
    }

    /// Takes every waiting span out, oldest first: the last batch, for the
    /// shutdown.
    pub fn drain(&mut self) -> (batch: Vec<SpanInfo>)
        ensures
            batch@ == old(self).buffered(),
            final(self).buffered() == Seq::<SpanInfo>::empty(),
            final(self).spans() == old(self).spans(),
            final(self).refused() == old(self).refused(),
            final(self).batch_size() == old(self).batch_size(),
    {
        let mut batch: Vec<SpanInfo> = Vec::new();
        std::mem::swap(&mut self.buffer, &mut batch);
        batch
    }
}

/// Entering a span a second time changes nothing: the start that the first
/// entry recorded stays, and the span still gives one opening event, at that
/// start, when it closes.
pub proof fn lemma_reentry_idempotent(s: SpanInfo, first: u64, second: u64, close: u64)
    requires
        s.start is None,
    ensures
        entered(entered(s, first), second) == entered(s, first),
        entered(entered(s, first), second).start == Some(first),
        span_events(closed_at(entered(entered(s, first), second), close)@) == span_events(
            closed_at(entered(s, first), close)@,
        ),
        span_events(closed_at(entered(s, first), close)@).len() == 2,
        span_events(closed_at(entered(s, first), close)@)[0].ts == first,
        span_events(closed_at(entered(s, first), close)@)[0].ph == begin_phase(s.is_async),
        span_events(closed_at(entered(s, first), close)@)[1].ph == end_phase(s.is_async),
        span_events(closed_at(entered(s, first), close)@)[1].ts >= first,
{
}

/// A span that is closed without ever having been entered gives no event.
pub proof fn lemma_never_entered_is_silent(s: SpanInfo, close: u64)
    requires
        s.start is None,
    ensures
        span_events(closed_at(s, close)@).len() == 0,
{
}

/// Entering and closing keep a span record well formed.
pub proof fn lemma_lifecycle_keeps_wf(s: SpanInfo, now: u64)
    requires
        s.wf(),
    ensures
        entered(s, now).end is None ==> entered(s, now).wf(),
        closed_at(s, now).wf(),
{
}

} // verus!
