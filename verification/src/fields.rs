//! The field collector: turns the key and value texts recorded at a call
//! site into the fields of an event record.
//!
//! The well-known keys `name`, `cat`, `id`, `ph`, `ts`, `dur`, `tts`, `pid`
//! and `tid` set the field of that name. The key `event` is a directive: with
//! the value `async` it marks the span as asynchronous, and it is never kept
//! as an argument. Every other key becomes an argument.

use crate::event::{pairs_of, with_arg, ChromeEvent, EventModel, Pairs};
use crate::number::{parse_number, parse_time, number_of, time_of};
use crate::phase::{phase_of_name, same_text, EventType};
use crate::span::SpanInfo;
use vstd::prelude::*;
use vstd::string::StringExecFns;

verus! {

/// A well-known field whose text is not of the field's type: a number that
/// does not read as a number, or a phase that is no phase name.
#[derive(Debug, Clone, PartialEq, Eq)]
pub struct InvalidFieldValue {
    /// The name of the field.
    pub field: String,
    /// The text that was given for it.
    pub raw: String,
}

/// What a collector holds: the record so far, and the async mark.
pub struct FieldsModel {
    pub event: EventModel,
    pub is_async: bool,
}

/// Whether `value` is acceptable for the field `key`. Only the phase and the
/// numeric fields can be refused.
pub open spec fn valid_field(key: Seq<char>, value: Seq<char>) -> bool {
    if key == "ph"@ {
        phase_of_name(value) is Some
    } else if key == "ts"@ || key == "dur"@ || key == "tts"@ {
        time_of(value) is Some
    } else if key == "pid"@ || key == "tid"@ {
        number_of(value) is Some
    } else {
        true
    }
}

/// The collector's content after one valid field.
pub open spec fn recorded(m: FieldsModel, key: Seq<char>, value: Seq<char>) -> FieldsModel {
    if key == "name"@ {
        FieldsModel { event: EventModel { name: value, ..m.event }, ..m }
    } else if key == "cat"@ {
        FieldsModel { event: EventModel { cat: value, ..m.event }, ..m }
    } else if key == "id"@ {
        FieldsModel { event: EventModel { id: value, ..m.event }, ..m }
    } else if key == "ph"@ {
        match phase_of_name(value) {
            Some(p) => FieldsModel { event: EventModel { ph: p, ..m.event }, ..m },
            None => m,
        }
    } else if key == "ts"@ {
        match time_of(value) {
            Some(t) => FieldsModel { event: EventModel { ts: t, ..m.event }, ..m },
            None => m,
        }
    } else if key == "dur"@ {
        match time_of(value) {
            Some(t) => FieldsModel { event: EventModel { dur: Some(t), ..m.event }, ..m },
            None => m,
        }
    } else if key == "tts"@ {
        match time_of(value) {
            Some(t) => FieldsModel { event: EventModel { tts: Some(t), ..m.event }, ..m },
            None => m,
        }
    } else if key == "pid"@ {
        match number_of(value) {
            Some(n) => FieldsModel { event: EventModel { pid: n, ..m.event }, ..m },
            None => m,
        }
    } else if key == "tid"@ {
        match number_of(value) {
            Some(n) => FieldsModel { event: EventModel { tid: n, ..m.event }, ..m },
            None => m,
        }
    } else if key == "event"@ {
        FieldsModel { is_async: m.is_async || value == "async"@, ..m }
    } else {
        FieldsModel {
            event: EventModel { args: with_arg(m.event.args, key, value), ..m.event },
            ..m
        }
    }
}

/// The collector's content after the fields `attrs`, taken in order.
pub open spec fn recorded_all(m: FieldsModel, attrs: Pairs) -> FieldsModel
    decreases attrs.len(),
{
    if attrs.len() == 0 {
        m
    } else {
        recorded(recorded_all(m, attrs.drop_last()), attrs.last().0, attrs.last().1)
    }
}

/// Whether every field of `attrs` is acceptable.
pub open spec fn all_valid(attrs: Pairs) -> bool {
    forall|i: int| 0 <= i < attrs.len() ==> valid_field(#[trigger] attrs[i].0, attrs[i].1)
}

/// Whether the field at `i` is the first of `attrs` that is not acceptable.
pub open spec fn first_invalid(attrs: Pairs, i: int) -> bool {
    &&& 0 <= i < attrs.len()
    &&& !valid_field(attrs[i].0, attrs[i].1)
    &&& all_valid(attrs.take(i))
}

/// Whether `e` names the field at `i`, which is the first of `attrs` that is
/// not acceptable.
pub open spec fn names_field(e: InvalidFieldValue, attrs: Pairs, i: int) -> bool {
    &&& first_invalid(attrs, i)
    &&& e.field@ == attrs[i].0
    &&& e.raw@ == attrs[i].1
}

/// Whether `e` names the first field of `attrs` that is not acceptable.
pub open spec fn names_first_invalid(e: InvalidFieldValue, attrs: Pairs) -> bool {
    exists|i: int| #[trigger] names_field(e, attrs, i)
}

/// Collects the fields of one span or event.
#[derive(Debug, Clone, PartialEq, Eq)]
pub struct FieldCollector {
    /// The record so far.
    pub event: ChromeEvent,
    /// Whether an `event` field with the value `async` was seen.
    pub is_async: bool,
}

impl View for FieldCollector {
    type V = FieldsModel;

    open spec fn view(&self) -> FieldsModel {
        FieldsModel { event: self.event@, is_async: self.is_async }
    }
}

fn invalid(field: &str, raw: &str) -> (e: InvalidFieldValue)
    ensures
        e.field@ == field@,
        e.raw@ == raw@,
{
    InvalidFieldValue { field: String::from_str(field), raw: String::from_str(raw) }
}

/// The length and the first two characters of each well-known key: enough
/// to tell any two of them apart.
proof fn lemma_key_shapes()
    ensures
        "name"@.len() == 4 && "name"@[0] == 'n' && "name"@[1] == 'a',
        "cat"@.len() == 3 && "cat"@[0] == 'c' && "cat"@[1] == 'a',
        "id"@.len() == 2 && "id"@[0] == 'i' && "id"@[1] == 'd',
        "ph"@.len() == 2 && "ph"@[0] == 'p' && "ph"@[1] == 'h',
        "ts"@.len() == 2 && "ts"@[0] == 't' && "ts"@[1] == 's',
        "dur"@.len() == 3 && "dur"@[0] == 'd' && "dur"@[1] == 'u',
        "tts"@.len() == 3 && "tts"@[0] == 't' && "tts"@[1] == 't',
        "pid"@.len() == 3 && "pid"@[0] == 'p' && "pid"@[1] == 'i',
        "tid"@.len() == 3 && "tid"@[0] == 't' && "tid"@[1] == 'i',
        "event"@.len() == 5 && "event"@[0] == 'e' && "event"@[1] == 'v',
{
    reveal_strlit("name");
    reveal_strlit("cat");
    reveal_strlit("id");
    reveal_strlit("ph");
    reveal_strlit("ts");
    reveal_strlit("dur");
    reveal_strlit("tts");
    reveal_strlit("pid");
    reveal_strlit("tid");
    reveal_strlit("event");
}

impl FieldCollector {
    /// A collector whose record is `event` and whose async mark is not set.
    pub fn new(event: ChromeEvent) -> (c: FieldCollector)
        ensures
            c.event == event,
            !c.is_async,
    {
        FieldCollector { event, is_async: false }
    }

    /// Records one field. An acceptable field changes the record as its key
    /// says. A field that is not acceptable changes nothing, and the error
    /// names the field and the text.
    pub fn record_debug(&mut self, field: &str, value: &str) -> (r: Result<(), InvalidFieldValue>)
        ensures
            r is Ok <==> valid_field(field@, value@),
            r is Ok ==> final(self)@ == recorded(old(self)@, field@, value@),
            r matches Err(e) ==> e.field@ == field@ && e.raw@ == value@,
            r is Err ==> final(self)@ == old(self)@,
    {
        proof {
            lemma_key_shapes();
        }
        if same_text(field, "name") {
            self.event.name = String::from_str(value);
        } else if same_text(field, "cat") {
            self.event.cat = String::from_str(value);
        } else if same_text(field, "id") {
            self.event.id = String::from_str(value);
        } else if same_text(field, "ph") {
            match EventType::from_name(value) {
                Some(p) => {
                    self.event.ph = p;
                },
                None => {
                    return Err(invalid(field, value));
                },
            }
        } else if same_text(field, "ts") {
            match parse_time(value) {
                Some(t) => {
                    self.event.ts = t;
                },
                None => {
                    return Err(invalid(field, value));
                },
            }
        } else if same_text(field, "dur") {
            match parse_time(value) {
                Some(t) => {
                    self.event.dur = Some(t);
                },
                None => {
                    return Err(invalid(field, value));
                },
            }
        } else if same_text(field, "tts") {
            match parse_time(value) {
                Some(t) => {
                    self.event.tts = Some(t);
                },
                None => {
                    return Err(invalid(field, value));
                },
            }
        } else if same_text(field, "pid") {
            match parse_number(value) {
                Some(n) => {
                    self.event.pid = n;
                },
                None => {
                    return Err(invalid(field, value));
                },
            }
        } else if same_text(field, "tid") {
            match parse_number(value) {
                Some(n) => {
                    self.event.tid = n;
                },
                None => {
                    return Err(invalid(field, value));
                },
            }
        } else if same_text(field, "event") {
            if same_text(value, "async") {
                self.is_async = true;
            }
        } else {
            self.event.args.put((String::from_str(field), String::from_str(value)));
        }
        Ok(())
    }

    /// Records the fields `attrs` in order, up to the first that is not
    /// acceptable. The result is `Ok` exactly if every field is acceptable;
    /// the error names the first that is not, and the fields before it have
    /// been recorded.
    pub fn record_all(&mut self, attrs: &Vec<(String, String)>) -> (r: Result<
        (),
        InvalidFieldValue,
    >)
        ensures
            r is Ok <==> all_valid(pairs_of(attrs@)),
            r is Ok ==> final(self)@ == recorded_all(old(self)@, pairs_of(attrs@)),
            r matches Err(e) ==> exists|i: int| #[trigger]
                names_field(e, pairs_of(attrs@), i) && final(self)@ == recorded_all(
                    old(self)@,
                    pairs_of(attrs@).take(i),
                ),
    {
        let ghost all = pairs_of(attrs@);
        let mut i: usize = 0;
        assert(all.take(0) =~= Seq::<(Seq<char>, Seq<char>)>::empty());
        while i < attrs.len()
            invariant
                i <= attrs.len(),
                all == pairs_of(attrs@),
                all_valid(all.take(i as int)),
                self@ == recorded_all(old(self)@, all.take(i as int)),
            decreases attrs.len() - i,
        {
            match self.record_debug(attrs[i].0.as_str(), attrs[i].1.as_str()) {
                Ok(()) => {},
                Err(e) => {
                    proof {
                        assert(all[i as int] == (attrs@[i as int].0@, attrs@[i as int].1@));
                        assert(names_field(e, all, i as int));
                    }
                    return Err(e);
                },
            }
            proof {
                assert(all.take(i + 1).drop_last() =~= all.take(i as int));
                assert(all.take(i + 1).last() == all[i as int]);
                assert forall|j: int| 0 <= j < i + 1 implies valid_field(
                    #[trigger] all.take(i + 1)[j].0,
                    all.take(i + 1)[j].1,
                ) by {
                    if j < i {
                        assert(all.take(i as int)[j] == all.take(i + 1)[j]);
                    }
                }
            }
            i += 1;
        }
        proof {
            assert(all.take(attrs.len() as int) =~= all);
        }
        Ok(())
    }

    /// The span record of a span that was created with the collected fields.
    pub fn into_span(self) -> (s: SpanInfo)
        ensures
            s.fields == self.event,
            s.is_async == self.is_async,
            s.start is None,
            s.end is None,
    {
        SpanInfo::new(self.event, self.is_async)
    }

    /// The event record with the collected fields.
    pub fn into_event(self) -> (e: ChromeEvent)
        ensures
            e == self.event,
    {
        self.event
    }
}

} // verus!
