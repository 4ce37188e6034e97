//! The wire format of one event: a JSON object with the keys `name`, `cat`,
//! `ph`, `ts`, `dur`, `tts`, `id`, `pid`, `tid` and `args`, in this order,
//! without the optional keys whose value is absent or empty.

use crate::event::{pairs_of, ChromeEvent, EventModel, Pairs};
use vstd::prelude::*;
use vstd::string::StringExecFns;

verus! {

/// `serde_json::Error`, the error type of the JSON encoder. Nothing is known
/// of a value of it.
#[verifier::external_type_specification]
#[verifier::external_body]
pub struct ExJsonError(serde_json::Error);

/// What `serde_json::to_string` returns for a text: the JSON string literal
/// of the text, which is the text between double quotes with the characters
/// that JSON reserves escaped. The literal depends on the text alone.
pub uninterp spec fn json_string(s: Seq<char>) -> Seq<char>;

/// Whether `t` stands between double quotes.
pub open spec fn is_quoted(t: Seq<char>) -> bool {
    t.len() >= 2 && t.first() == '"' && t.last() == '"'
}

/// Calls `serde_json::to_string` on a string slice. Assumed, not proved: the
/// call succeeds, its result is the JSON string literal of the text, and the
/// literal stands between double quotes. The encoder fails only where a
/// value's own serialisation fails, where a map key is no string, or where
/// the writer fails; a string slice written to a byte vector meets none of
/// these.
#[verifier::external_body]
fn quote(s: &str) -> (r: Result<String, serde_json::Error>)
    ensures
        r is Ok,
        r matches Ok(t) ==> t@ == json_string(s@) && is_quoted(t@),
{
    serde_json::to_string(s)
}

/// The JSON string literal of a text.
pub fn quoted_text(s: &str) -> (t: String)
    ensures
        t@ == json_string(s@),
        is_quoted(t@),
{
    quote(s).unwrap()
}

/// The texts of one event as JSON string literals, ready to be written.
#[derive(Debug, Clone, PartialEq, Eq)]
pub struct QuotedTexts {
    /// The literal of the name.
    pub name: String,
    /// The literal of the category.
    pub cat: String,
    /// The literal of the id, or nothing for an empty id.
    pub id: String,
    /// The literals of the argument keys and values.
    pub args: Vec<(String, String)>,
}

/// Whether every key and value of `v` stands between double quotes.
pub open spec fn all_quoted(v: Seq<(String, String)>) -> bool {
    forall|i: int| 0 <= i < v.len() ==> is_quoted(#[trigger] v[i].0@) && is_quoted(v[i].1@)
}

/// The record `m` with its texts replaced by those of `q`.
pub open spec fn with_texts(m: EventModel, q: QuotedTexts) -> EventModel {
    EventModel { name: q.name@, cat: q.cat@, id: q.id@, args: pairs_of(q.args@), ..m }
}

/// The character of a decimal digit.
pub open spec fn digit(d: int) -> char {
    if d == 0 {
        '0'
    } else if d == 1 {
        '1'
    } else if d == 2 {
        '2'
    } else if d == 3 {
        '3'
    } else if d == 4 {
        '4'
    } else if d == 5 {
        '5'
    } else if d == 6 {
        '6'
    } else if d == 7 {
        '7'
    } else if d == 8 {
        '8'
    } else {
        '9'
    }
}

/// A number in decimal, without sign or leading zeros.
pub open spec fn decimal(n: nat) -> Seq<char>
    decreases n,
{
    if n < 10 {
        seq![digit(n as int)]
    } else {
        decimal(n / 10).push(digit((n % 10) as int))
    }
}

/// A count of nanoseconds as microseconds: the whole microseconds in
/// decimal, a point, and the three digits of the remaining nanoseconds.
pub open spec fn micros(ns: u64) -> Seq<char> {
    decimal((ns / 1000) as nat).push('.').push(digit((ns / 100 % 10) as int)).push(
        digit((ns / 10 % 10) as int),
    ).push(digit((ns % 10) as int))
}

/// One member of the `args` object: key, colon, value.
pub open spec fn member_text(entry: (Seq<char>, Seq<char>)) -> Seq<char> {
    entry.0 + ":"@ + entry.1
}

/// The members of the `args` object, with a comma between two of them.
pub open spec fn members_text(args: Pairs) -> Seq<char>
    decreases args.len(),
{
    if args.len() == 0 {
        Seq::empty()
    } else if args.len() == 1 {
        member_text(args[0])
    } else {
        members_text(args.drop_last()) + ","@ + member_text(args.last())
    }
}

/// An optional time under `key`, or nothing where it is absent.
pub open spec fn optional_micros(key: Seq<char>, value: Option<u64>) -> Seq<char> {
    match value {
        Some(ns) => key + micros(ns),
        None => Seq::empty(),
    }
}

/// The `id` key, or nothing where the id is empty.
pub open spec fn optional_id(id: Seq<char>) -> Seq<char> {
    if id.len() == 0 {
        Seq::empty()
    } else {
        ",\"id\":"@ + id
    }
}

/// The `args` key, or nothing where there are no arguments.
pub open spec fn optional_args(args: Pairs) -> Seq<char> {
    if args.len() == 0 {
        Seq::empty()
    } else {
        ",\"args\":{"@ + members_text(args) + "}"@
    }
}

/// The object for a record whose texts are JSON string literals already.
pub open spec fn object_text(m: EventModel) -> Seq<char> {
    "{\"name\":"@ + m.name
        + ",\"cat\":"@ + m.cat
        + ",\"ph\":\""@ + seq![m.ph.wire_code()]
        + "\",\"ts\":"@ + micros(m.ts)
        + optional_micros(",\"dur\":"@, m.dur)
        + optional_micros(",\"tts\":"@, m.tts)
        + optional_id(m.id)
        + ",\"pid\":"@ + decimal(m.pid as nat)
        + ",\"tid\":"@ + decimal(m.tid as nat)
        + optional_args(m.args)
        + "}"@
}

/// The arguments with every key and value as a JSON string literal.
pub open spec fn quoted_pairs(args: Pairs) -> Pairs {
    Seq::new(args.len(), |i: int| (json_string(args[i].0), json_string(args[i].1)))
}

/// The record with every text as a JSON string literal. An empty id stays
/// empty, so that its key is left out.
pub open spec fn quoted(m: EventModel) -> EventModel {
    EventModel {
        name: json_string(m.name),
        cat: json_string(m.cat),
        id: if m.id.len() == 0 {
            Seq::empty()
        } else {
            json_string(m.id)
        },
        args: quoted_pairs(m.args),
        ..m
    }
}

/// The JSON object of an event.
pub open spec fn event_text(m: EventModel) -> Seq<char> {
    object_text(quoted(m))
}

fn digit_str(d: u64) -> (s: &'static str)
    requires
        d < 10,
    ensures
        s@ == seq![digit(d as int)],
{
    proof {
        reveal_strlit("0");
        reveal_strlit("1");
        reveal_strlit("2");
        reveal_strlit("3");
        reveal_strlit("4");
        reveal_strlit("5");
        reveal_strlit("6");
        reveal_strlit("7");
        reveal_strlit("8");
        reveal_strlit("9");
    }
    let s = match d {
        0 => "0",
        1 => "1",
        2 => "2",
        3 => "3",
        4 => "4",
        5 => "5",
        6 => "6",
        7 => "7",
        8 => "8",
        _ => "9",
    };
    assert(s@ =~= seq![digit(d as int)]);
    s
}

/// Appends `n` in decimal.
pub fn push_decimal(out: &mut String, n: u64)
    ensures
        final(out)@ == old(out)@ + decimal(n as nat),
    decreases n,
{
    if n >= 10 {
        push_decimal(out, n / 10);
    }
    out.append(digit_str(n % 10));
    assert(out@ =~= old(out)@ + decimal(n as nat));
}

/// Appends `ns` nanoseconds as microseconds with three decimals.
pub fn push_micros(out: &mut String, ns: u64)
    ensures
        final(out)@ == old(out)@ + micros(ns),
{
    proof {
        reveal_strlit(".");
    }
    push_decimal(out, ns / 1000);
    out.append(".");
    out.append(digit_str(ns / 100 % 10));
    out.append(digit_str(ns / 10 % 10));
    out.append(digit_str(ns % 10));
    assert(out@ =~= old(out)@ + micros(ns));
}

fn push_members(out: &mut String, args: &Vec<(String, String)>)
    ensures
        final(out)@ == old(out)@ + members_text(pairs_of(args@)),
{
    let ghost all = pairs_of(args@);
    let mut i: usize = 0;
    while i < args.len()
        invariant
            i <= args.len(),
            all == pairs_of(args@),
            out@ == old(out)@ + members_text(all.take(i as int)),
        decreases args.len() - i,
    {
        let ghost sofar = out@;
        if i > 0 {
            out.append(",");
        }
        out.append(args[i].0.as_str());
        out.append(":");
        out.append(args[i].1.as_str());
        proof {
            assert(all.take(i + 1).drop_last() =~= all.take(i as int));
            assert(all.take(i + 1).last() == all[i as int]);
            assert(out@ =~= old(out)@ + members_text(all.take(i + 1)));
        }
        i += 1;
    }
    proof {
        assert(all.take(args.len() as int) =~= all);
    }
}

/// Writes the object of the event `ev` with the texts `q` in place of its
/// own: the keys in their order, each optional key only where its value is
/// present. The texts are written as they are given.
pub fn assemble(ev: &ChromeEvent, q: &QuotedTexts) -> (out: String)
    ensures
        out@ == object_text(with_texts(ev@, *q)),
{
    let mut out = String::from_str("{\"name\":");
    out.append(q.name.as_str());
    out.append(",\"cat\":");
    out.append(q.cat.as_str());
    out.append(",\"ph\":\"");
    out.append(ev.ph.code_str());
    out.append("\",\"ts\":");
    push_micros(&mut out, ev.ts);
    let ghost a = out@;
    match ev.dur {
        Some(ns) => {
            out.append(",\"dur\":");
            push_micros(&mut out, ns);
        },
        None => {},
    }
    assert(out@ =~= a + optional_micros(",\"dur\":"@, ev.dur));
    let ghost b = out@;
    match ev.tts {
        Some(ns) => {
            out.append(",\"tts\":");
            push_micros(&mut out, ns);
        },
        None => {},
    }
    assert(out@ =~= b + optional_micros(",\"tts\":"@, ev.tts));
    let ghost c = out@;
    if !q.id.as_str().is_empty() {
        out.append(",\"id\":");
        out.append(q.id.as_str());
    }
    assert(out@ =~= c + optional_id(q.id@));
    out.append(",\"pid\":");
    push_decimal(&mut out, ev.pid);
    out.append(",\"tid\":");
    push_decimal(&mut out, ev.tid);
    let ghost d = out@;
    if q.args.len() > 0 {
        out.append(",\"args\":{");
        push_members(&mut out, &q.args);
        out.append("}");
    }
    assert(out@ =~= d + optional_args(pairs_of(q.args@)));
    out.append("}");
    out
}

fn quote_pairs(args: &Vec<(String, String)>) -> (q: Vec<(String, String)>)
    ensures
        pairs_of(q@) == quoted_pairs(pairs_of(args@)),
        q@.len() == args@.len(),
        all_quoted(q@),
{
    let ghost all = pairs_of(args@);
    let mut q: Vec<(String, String)> = Vec::new();
    let mut i: usize = 0;
    while i < args.len()
        invariant
            i <= args.len(),
            q.len() == i,
            all == pairs_of(args@),
            forall|j: int|
                0 <= j < i ==> (#[trigger] q@[j]).0@ == json_string(all[j].0) && q@[j].1@
                    == json_string(all[j].1),
            all_quoted(q@),
        decreases args.len() - i,
    {
        let k = quoted_text(args[i].0.as_str());
        let v = quoted_text(args[i].1.as_str());
        q.push((k, v));
        i += 1;
    }
    assert(pairs_of(q@) =~= quoted_pairs(all));
    q
}

impl ChromeEvent {
    /// The texts of the event as JSON string literals: each stands between
    /// double quotes, but for an empty id, which stays empty.
    pub fn quote_texts(&self) -> (q: QuotedTexts)
        ensures
            with_texts(self@, q) == quoted(self@),
            is_quoted(q.name@),
            is_quoted(q.cat@),
            self@.id.len() == 0 ==> q.id@.len() == 0,
            self@.id.len() > 0 ==> is_quoted(q.id@),
            q.args@.len() == self@.args.len(),
            all_quoted(q.args@),
    {
        let name = quoted_text(self.name.as_str());
        let cat = quoted_text(self.cat.as_str());
        let id = if self.id.as_str().is_empty() {
            String::new()
        } else {
            quoted_text(self.id.as_str())
        };
        let pairs = self.args.pairs();
        let args = quote_pairs(pairs);
        assert(pairs@.len() == pairs_of(pairs@).len());
        let q = QuotedTexts { name, cat, id, args };
        assert(q.id@ =~= quoted(self@).id);
        q
    }

    /// The event as one JSON object.
    pub fn to_json(&self) -> (t: String)
        ensures
            t@ == event_text(self@),
    {
        let q = self.quote_texts();
        assemble(self, &q)
    }
}

/// The text of an event stands between braces: it is written as one JSON
/// object.
pub proof fn lemma_object_is_braced(m: EventModel)
    ensures
        object_text(m).len() >= 2,
        object_text(m).first() == '{',
        object_text(m).last() == '}',
{
    reveal_strlit("{\"name\":");
    reveal_strlit("}");
    let head = "{\"name\":"@;
    assert(head[0] == '{');
    assert("}"@.last() == '}');
}

} // verus!
