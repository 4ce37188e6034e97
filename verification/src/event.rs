//! The event record: one entry of the trace, and its builder.
//!
//! Times are whole nanoseconds since the start of the process's trace clock;
//! the wire format shows them as microseconds with three decimals.

use crate::phase::EventType;
use vstd::pervasive::VecAdditionalExecFns;
use vstd::prelude::*;
use vstd::string::StringExecFns;

verus! {

/// A sequence of key and value texts.
pub type Pairs = Seq<(Seq<char>, Seq<char>)>;

/// The mathematical content of an event record.
pub struct EventModel {
    pub name: Seq<char>,
    pub cat: Seq<char>,
    pub ph: EventType,
    pub ts: u64,
    pub dur: Option<u64>,
    pub tts: Option<u64>,
    pub id: Seq<char>,
    pub pid: u64,
    pub tid: u64,
    pub args: Pairs,
}

/// The texts of a vector of key and value strings.
pub open spec fn pairs_of(v: Seq<(String, String)>) -> Pairs {
    Seq::new(v.len(), |i: int| (v[i].0@, v[i].1@))
}

/// Whether `k` is a key of `args`.
pub open spec fn has_key(args: Pairs, k: Seq<char>) -> bool {
    exists|i: int| 0 <= i < args.len() && #[trigger] args[i].0 == k
}

/// Whether `i` is the first place of `args` where the key `k` stands.
pub open spec fn is_first_key(args: Pairs, k: Seq<char>, i: int) -> bool {
    &&& 0 <= i < args.len()
    &&& args[i].0 == k
    &&& forall|j: int| 0 <= j < i ==> #[trigger] args[j].0 != k
}

/// The first place of `args` where the key `k` stands.
pub open spec fn index_of_key(args: Pairs, k: Seq<char>) -> int {
    choose|i: int| is_first_key(args, k, i)
}

/// Whether no key stands twice in `args`.
pub open spec fn distinct_keys(args: Pairs) -> bool {
    forall|i: int, j: int| 0 <= i < j < args.len() ==> #[trigger] args[i].0 != #[trigger] args[j].0
}

/// `args` with `k` bound to `v`: the value of an existing key is replaced
/// where the key first stands, a new key goes to the end.
pub open spec fn with_arg(args: Pairs, k: Seq<char>, v: Seq<char>) -> Pairs {
    if has_key(args, k) {
        args.update(index_of_key(args, k), (k, v))
    } else {
        args.push((k, v))
    }
}

/// The record that a builder holds before any setter is called: an instant
/// event at the time `ts`, recorded in the process `pid` on the thread `tid`.
pub open spec fn default_model(ts: u64, pid: u64, tid: u64) -> EventModel {
    EventModel {
        name: "DefaultEventName"@,
        cat: "DefaultCategory"@,
        ph: EventType::Instant,
        ts: ts,
        dur: None,
        tts: None,
        id: Seq::empty(),
        pid: pid,
        tid: tid,
        args: Seq::empty(),
    }
}

/// The free-form arguments of an event: keys bound to values, no key twice,
/// in the order in which the keys were first bound.
#[derive(Debug, PartialEq, Eq)]
pub struct Args {
    items: Vec<(String, String)>,
}

impl Clone for Args {
    fn clone(&self) -> (r: Args)
        ensures
            r@ == self@,
    {
        self.duplicate()
    }
}

impl View for Args {
    type V = Pairs;

    closed spec fn view(&self) -> Pairs {
        pairs_of(self.items@)
    }
}

impl Args {
    #[verifier::type_invariant]
    spec fn inv(&self) -> bool {
        distinct_keys(pairs_of(self.items@))
    }

    /// No argument.
    pub fn new() -> (a: Args)
        ensures
            a@ == Seq::<(Seq<char>, Seq<char>)>::empty(),
    {
        let a = Args { items: Vec::new() };
        assert(a@ =~= Seq::empty());
        a
    }

    /// The arguments as pairs of key and value, no key twice.
    pub fn pairs(&self) -> (v: &Vec<(String, String)>)
        ensures
            pairs_of(v@) == self@,
            distinct_keys(self@),
    {
        proof {
            use_type_invariant(self);
        }
        &self.items
    }

    /// How many keys are bound.
    pub fn len(&self) -> (n: usize)
        ensures
            n == self@.len(),
    {
        self.items.len()
    }

    /// Whether no key is bound.
    pub fn is_empty(&self) -> (b: bool)
        ensures
            b == (self@.len() == 0),
    {
        self.items.len() == 0
    }

    /// Binds `entry.0` to `entry.1`: the value of a key that is already
    /// bound is replaced in its place, a new key goes to the end.
    pub fn put(&mut self, entry: (String, String))
        ensures
            final(self)@ == with_arg(old(self)@, entry.0@, entry.1@),
    {
        proof {
            use_type_invariant(&*self);
        }
        let mut items: Vec<(String, String)> = Vec::new();
        assert(pairs_of(items@) =~= Seq::empty());
        std::mem::swap(&mut self.items, &mut items);
        put_arg(&mut items, entry);
        std::mem::swap(&mut self.items, &mut items);
    }

    /// A copy of the arguments.
    pub fn duplicate(&self) -> (r: Args)
        ensures
            r@ == self@,
    {
        let mut items: Vec<(String, String)> = Vec::new();
        let mut i: usize = 0;
        while i < self.items.len()
            invariant
                i <= self.items.len(),
                items.len() == i,
                forall|j: int| 0 <= j < i ==> #[trigger] items@[j] == self.items@[j],
            decreases self.items.len() - i,
        {
            items.push((self.items[i].0.clone(), self.items[i].1.clone()));
            i += 1;
        }
        proof {
            use_type_invariant(self);
            assert(pairs_of(items@) =~= pairs_of(self.items@));
        }
        Args { items }
    }
}

/// One entry of the trace.
#[derive(Debug, Clone, PartialEq, Eq)]
pub struct ChromeEvent {
    /// The label shown for the event.
    pub name: String,
    /// The category.
    pub cat: String,
    /// The phase.
    pub ph: EventType,
    /// Nanoseconds since the start of the trace clock.
    pub ts: u64,
    /// The duration in nanoseconds, where the event has one.
    pub dur: Option<u64>,
    /// The thread clock in nanoseconds, where it is known.
    pub tts: Option<u64>,
    /// Correlates async and flow events; empty where the event has none.
    pub id: String,
    /// The process that produced the event.
    pub pid: u64,
    /// The thread that produced the event.
    pub tid: u64,
    /// Free-form arguments.
    pub args: Args,
}

impl View for ChromeEvent {
    type V = EventModel;

    open spec fn view(&self) -> EventModel {
        EventModel {
            name: self.name@,
            cat: self.cat@,
            ph: self.ph,
            ts: self.ts,
            dur: self.dur,
            tts: self.tts,
            id: self.id@,
            pid: self.pid,
            tid: self.tid,
            args: self.args@,
        }
    }
}

impl ChromeEvent {
    /// An instant event at `ts` nanoseconds since the start of the trace
    /// clock, recorded in the process `pid` on the thread `tid`, with every
    /// other field at its default.
    pub fn with_defaults(ts: u64, pid: u64, tid: u64) -> (e: ChromeEvent)
        ensures
            e@ == default_model(ts, pid, tid),
    {
        ChromeEvent {
            name: String::from_str("DefaultEventName"),
            cat: String::from_str("DefaultCategory"),
            ph: EventType::Instant,
            ts,
            dur: None,
            tts: None,
            id: String::new(),
            pid,
            tid,
            args: Args::new(),
        }
    }

    /// A builder for an event at `ts` nanoseconds since the start of the
    /// trace clock, recorded in the process `pid` on the thread `tid`. The
    /// caller reads the clock and the two ids; every other field starts at
    /// its default.
    pub fn builder(ts: u64, pid: u64, tid: u64) -> (b: ChromeEventBuilder)
        ensures
            b@ == default_model(ts, pid, tid),
    {
        ChromeEventBuilder { event: ChromeEvent::with_defaults(ts, pid, tid) }
    }
}

/// Binds `entry.0` to `entry.1` in `args`: the value of a key that is
/// already bound is replaced in its place, a new key goes to the end. Where
/// no key stood twice before, none does after.
fn put_arg(args: &mut Vec<(String, String)>, entry: (String, String))
    ensures
        pairs_of(final(args)@) == with_arg(pairs_of(old(args)@), entry.0@, entry.1@),
        distinct_keys(pairs_of(old(args)@)) ==> distinct_keys(pairs_of(final(args)@)),
{
    let ghost before = pairs_of(args@);
    let ghost k = entry.0@;
    let ghost v = entry.1@;
    let mut i: usize = 0;
    while i < args.len()
        invariant
            i <= args.len(),
            *args == *old(args),
            before == pairs_of(args@),
            k == entry.0@,
            v == entry.1@,
            forall|j: int| 0 <= j < i ==> #[trigger] before[j].0 != k,
        decreases args.len() - i,
    {
        if args[i].0 == entry.0 {
            proof {
                assert(is_first_key(before, k, i as int));
                let c = index_of_key(before, k);
                assert(is_first_key(before, k, c));
                assert(c == i);
            }
            args.set(i, entry);
            proof {
                assert(pairs_of(args@) =~= before.update(i as int, (k, v)));
            }
            return ;
        }
        i += 1;
    }
    args.push(entry);
    proof {
        assert(!has_key(before, k));
        assert(pairs_of(args@) =~= before.push((k, v)));
    }
}

/// The error of [`ChromeEventBuilder::build`].
#[derive(Debug, Copy, Clone, PartialEq, Eq, Structural)]
pub enum ChromeEventBuilderError {
    /// A field without a default was never set.
    UninitializedField,
}

/// Collects the fields of an event. Each setter replaces one field and
/// leaves the others as they are.
#[derive(Debug, Clone)]
pub struct ChromeEventBuilder {
    event: ChromeEvent,
}

impl View for ChromeEventBuilder {
    type V = EventModel;

    closed spec fn view(&self) -> EventModel {
        self.event@
    }
}

impl ChromeEventBuilder {
    /// Sets the label.
    pub fn name(self, value: &str) -> (b: ChromeEventBuilder)
        ensures
            b@ == (EventModel { name: value@, ..self@ }),
    {
        let mut b = self;
        b.event.name = String::from_str(value);
        b
    }

    /// Sets the category.
    pub fn cat(self, value: &str) -> (b: ChromeEventBuilder)
        ensures
            b@ == (EventModel { cat: value@, ..self@ }),
    {
        let mut b = self;
        b.event.cat = String::from_str(value);
        b
    }

    /// Sets the phase.
    pub fn ph(self, value: EventType) -> (b: ChromeEventBuilder)
        ensures
            b@ == (EventModel { ph: value, ..self@ }),
    {
        let mut b = self;
        b.event.ph = value;
        b
    }

    /// Sets the timestamp, in nanoseconds.
    pub fn ts(self, value: u64) -> (b: ChromeEventBuilder)
        ensures
            b@ == (EventModel { ts: value, ..self@ }),
    {
        let mut b = self;
        b.event.ts = value;
        b
    }

    /// Sets the duration, in nanoseconds.
    pub fn dur(self, value: Option<u64>) -> (b: ChromeEventBuilder)
        ensures
            b@ == (EventModel { dur: value, ..self@ }),
    {
        let mut b = self;
        b.event.dur = value;
        b
    }

    /// Sets the thread clock, in nanoseconds.
    pub fn tts(self, value: Option<u64>) -> (b: ChromeEventBuilder)
        ensures
            b@ == (EventModel { tts: value, ..self@ }),
    {
        let mut b = self;
        b.event.tts = value;
        b
    }

    /// Sets the correlation id.
    pub fn id(self, value: &str) -> (b: ChromeEventBuilder)
        ensures
            b@ == (EventModel { id: value@, ..self@ }),
    {
        let mut b = self;
        b.event.id = String::from_str(value);
        b
    }

    /// Sets the process id.
    pub fn pid(self, value: u64) -> (b: ChromeEventBuilder)
        ensures
            b@ == (EventModel { pid: value, ..self@ }),
    {
        let mut b = self;
        b.event.pid = value;
        b
    }

    /// Sets the thread id.
    pub fn tid(self, value: u64) -> (b: ChromeEventBuilder)
        ensures
            b@ == (EventModel { tid: value, ..self@ }),
    {
        let mut b = self;
        b.event.tid = value;
        b
    }

    /// Binds one argument. A key that is already bound gets the new value.
    pub fn arg(self, entry: (String, String)) -> (b: ChromeEventBuilder)
        ensures
            b@ == (EventModel { args: with_arg(self@.args, entry.0@, entry.1@), ..self@ }),
    {
        let mut b = self;
        b.event.args.put(entry);
        b
    }

    /// The finished event. Every field has a default, so this always
    /// succeeds.
    pub fn build(self) -> (r: Result<ChromeEvent, ChromeEventBuilderError>)
        ensures
            r is Ok,
            r->Ok_0@ == self@,
    {
        Ok(self.event)
    }
}

} // verus!
