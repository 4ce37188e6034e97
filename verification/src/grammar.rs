//! The grammar of JSON texts, and the proof that every event, and every
//! stream of events, is a text of it.
//!
//! The grammar is written as its rules stand: a text is of a kind if it can
//! be put together as a rule of that kind says. A string is either a plain
//! one, which this library writes for its keys, or a literal that the string
//! encoder returned.

use crate::emit::{array_text, elements, held_text, separator, settled, Emitter};
use crate::event::{EventModel, Pairs};
use crate::json::{
    decimal, digit, event_text, json_string, member_text, members_text, micros, object_text,
    optional_args, optional_id, optional_micros, quoted,
};
use crate::number::{is_digits, lemma_digit_reads_back};
use crate::phase::EventType;
use crate::writer::event_texts;
use vstd::prelude::*;

verus! {

/// Whether `c` may stand in a string as it is: no double quote, no
/// backslash, no control character.
pub open spec fn is_plain_char(c: char) -> bool {
    c != '"' && c != '\\' && c as u32 >= 32
}

/// A string without escapes: plain characters between double quotes.
pub open spec fn is_plain_string(t: Seq<char>) -> bool {
    &&& t.len() >= 2
    &&& t.first() == '"'
    &&& t.last() == '"'
    &&& forall|i: int| 0 < i < t.len() - 1 ==> is_plain_char(#[trigger] t[i])
}

/// A string: a plain one, or a literal of the string encoder.
pub open spec fn is_string(t: Seq<char>) -> bool {
    is_plain_string(t) || exists|s: Seq<char>| #[trigger] json_string(s) == t
}

/// A whole number, a point and a fraction.
pub open spec fn fraction_text(n: nat, f: Seq<char>) -> Seq<char> {
    decimal(n) + seq!['.'] + f
}

/// A number without sign or exponent: a whole number without leading zeros,
/// and then either nothing or a point and one or more digits.
pub open spec fn is_number(t: Seq<char>) -> bool {
    ||| exists|n: nat| t == #[trigger] decimal(n)
    ||| exists|n: nat, f: Seq<char>|
        t == #[trigger] fraction_text(n, f) && f.len() > 0 && is_digits(f)
}

/// White space between two elements.
pub open spec fn is_space(w: Seq<char>) -> bool {
    forall|i: int|
        0 <= i < w.len() ==> (#[trigger] w[i]) == ' ' || w[i] == '\n' || w[i] == '\r' || w[i]
            == '\t'
}

/// A key, a colon and a value.
pub open spec fn member_of(k: Seq<char>, v: Seq<char>) -> Seq<char> {
    k + seq![':'] + v
}

/// Members, a comma and one member more.
pub open spec fn members_and(a: Seq<char>, b: Seq<char>) -> Seq<char> {
    a + seq![','] + b
}

/// Elements, a comma, white space and one element more.
pub open spec fn elements_and(a: Seq<char>, w: Seq<char>, b: Seq<char>) -> Seq<char> {
    a + seq![','] + w + b
}

/// Something between two brackets.
pub open spec fn enclosed(open: char, inner: Seq<char>, close: char) -> Seq<char> {
    seq![open] + inner + seq![close]
}

/// A value: a string, a number, an object or an array.
pub open spec fn is_value(t: Seq<char>) -> bool
    decreases t.len(), 3nat,
{
    is_string(t) || is_number(t) || is_object(t) || is_array(t)
}

/// An object: braces around nothing or around members.
pub open spec fn is_object(t: Seq<char>) -> bool
    decreases t.len(), 2nat,
{
    t == seq!['{', '}'] || exists|m: Seq<char>|
        t == #[trigger] enclosed('{', m, '}') && is_members(m)
}

/// Members: one member, or members, a comma and a member.
pub open spec fn is_members(t: Seq<char>) -> bool
    decreases t.len(), 1nat,
{
    is_member(t) || exists|a: Seq<char>, b: Seq<char>|
        t == #[trigger] members_and(a, b) && is_members(a) && is_member(b)
}

/// A member: a string as the key, a colon, a value.
pub open spec fn is_member(t: Seq<char>) -> bool
    decreases t.len(), 0nat,
{
    exists|k: Seq<char>, v: Seq<char>| t == #[trigger] member_of(k, v) && is_string(k) && is_value(v)
}

/// An array: square brackets around nothing or around elements.
pub open spec fn is_array(t: Seq<char>) -> bool
    decreases t.len(), 2nat,
{
    t == seq!['[', ']'] || exists|e: Seq<char>|
        t == #[trigger] enclosed('[', e, ']') && is_elements(e)
}

/// Elements: one value, or elements, a comma, white space and a value.
pub open spec fn is_elements(t: Seq<char>) -> bool
    decreases t.len(), 4nat,
{
    is_value(t) || exists|a: Seq<char>, w: Seq<char>, b: Seq<char>|
        t == #[trigger] elements_and(a, w, b) && is_space(w) && is_elements(a) && is_value(b)
}

/// A number in decimal is a number of the grammar.
pub proof fn lemma_decimal_is_number(n: nat)
    ensures
        is_number(decimal(n)),
        is_value(decimal(n)),
{
}

/// A time in microseconds is a number of the grammar.
pub proof fn lemma_micros_is_number(ns: u64)
    ensures
        is_number(micros(ns)),
        is_value(micros(ns)),
{
    let f = seq![
        digit((ns / 100 % 10) as int),
        digit((ns / 10 % 10) as int),
        digit((ns % 10) as int),
    ];
    lemma_digit_reads_back((ns / 100 % 10) as int);
    lemma_digit_reads_back((ns / 10 % 10) as int);
    lemma_digit_reads_back((ns % 10) as int);
    assert(is_digits(f));
    assert(micros(ns) =~= fraction_text((ns / 1000) as nat, f));
}

/// A literal of the string encoder is a string of the grammar.
pub proof fn lemma_literal_is_string(s: Seq<char>)
    ensures
        is_string(json_string(s)),
        is_value(json_string(s)),
{
}

/// A string, a colon and a value make a member.
pub proof fn lemma_member(k: Seq<char>, v: Seq<char>)
    requires
        is_string(k),
        is_value(v),
    ensures
        is_member(member_of(k, v)),
        is_members(member_of(k, v)),
{
    let t = member_of(k, v);
    assert(is_member(t));
    reveal_with_fuel(is_members, 2);
    assert(is_members(t));
}

/// Members, a comma and a member make members.
pub proof fn lemma_members_push(a: Seq<char>, k: Seq<char>, v: Seq<char>)
    requires
        is_members(a),
        is_string(k),
        is_value(v),
    ensures
        is_members(members_and(a, member_of(k, v))),
{
    lemma_member(k, v);
}

/// Braces around members make an object, which is a value.
pub proof fn lemma_object(m: Seq<char>)
    requires
        is_members(m),
    ensures
        is_object(enclosed('{', m, '}')),
        is_value(enclosed('{', m, '}')),
{
}

/// Elements, the separator of the stream and a value make elements.
pub proof fn lemma_elements_push(a: Seq<char>, b: Seq<char>)
    requires
        is_elements(a),
        is_value(b),
    ensures
        is_elements(a + separator() + b),
{
    let w = seq!['\n'];
    assert(is_space(w));
    assert(a + separator() + b =~= elements_and(a, w, b));
}

/// The texts of a stream, each a value, stand in the stream as elements.
pub proof fn lemma_elements(texts: Seq<Seq<char>>)
    requires
        texts.len() > 0,
        forall|i: int| 0 <= i < texts.len() ==> is_value(#[trigger] texts[i]),
    ensures
        is_elements(elements(texts)),
    decreases texts.len(),
{
    if texts.len() == 1 {
        assert(texts.drop_last() =~= Seq::<Seq<char>>::empty());
        assert(elements(texts) =~= texts[0]);
    } else {
        let head = texts.drop_last();
        assert forall|i: int| 0 <= i < head.len() implies is_value(#[trigger] head[i]) by {
            assert(head[i] == texts[i]);
        }
        lemma_elements(head);
        lemma_elements_push(elements(head), texts.last());
        assert(settled(head) =~= elements(head) + separator());
        assert(elements(texts) =~= elements(head) + separator() + texts.last());
    }
}

/// A complete stream of values is an array of the grammar.
pub proof fn lemma_array_text_is_array(texts: Seq<Seq<char>>)
    requires
        forall|i: int| 0 <= i < texts.len() ==> is_value(#[trigger] texts[i]),
    ensures
        is_array(array_text(texts)),
        is_value(array_text(texts)),
{
    if texts.len() == 0 {
        assert(array_text(texts) =~= seq!['[', ']']);
    } else {
        lemma_elements(texts);
        assert(array_text(texts) =~= enclosed('[', elements(texts), ']'));
    }
}

/// A key of the event object: its name between double quotes.
pub open spec fn key(name: Seq<char>) -> Seq<char> {
    seq!['"'] + name + seq!['"']
}

/// What stands before the value of a later member: a comma, the key, a
/// colon.
pub open spec fn lead(name: Seq<char>) -> Seq<char> {
    seq![','] + key(name) + seq![':']
}

/// A name of plain characters between double quotes is a string.
pub proof fn lemma_key_is_string(name: Seq<char>)
    requires
        forall|i: int| 0 <= i < name.len() ==> is_plain_char(#[trigger] name[i]),
    ensures
        is_plain_string(key(name)),
        is_string(key(name)),
{
    let t = key(name);
    assert forall|i: int| 0 < i < t.len() - 1 implies is_plain_char(#[trigger] t[i]) by {
        assert(t[i] == name[i - 1]);
    }
}

/// The wire code of a phase between double quotes is a string.
pub proof fn lemma_code_is_string(p: EventType)
    ensures
        is_string(key(seq![p.wire_code()])),
        is_value(key(seq![p.wire_code()])),
{
    lemma_key_is_string(seq![p.wire_code()]);
}

/// The fixed texts of the event object, taken apart: each is a comma, a key
/// of plain characters and a colon, with a bracket or a quote before or
/// behind it where the layout has one.
proof fn lemma_fixed_texts()
    ensures
        is_string(key("name"@)),
        is_string(key("cat"@)),
        is_string(key("ph"@)),
        is_string(key("ts"@)),
        is_string(key("dur"@)),
        is_string(key("tts"@)),
        is_string(key("id"@)),
        is_string(key("pid"@)),
        is_string(key("tid"@)),
        is_string(key("args"@)),
        "{\"name\":"@ == seq!['{'] + key("name"@) + seq![':'],
        ",\"cat\":"@ == lead("cat"@),
        ",\"ph\":\""@ == lead("ph"@) + seq!['"'],
        "\",\"ts\":"@ == seq!['"'] + lead("ts"@),
        ",\"dur\":"@ == lead("dur"@),
        ",\"tts\":"@ == lead("tts"@),
        ",\"id\":"@ == lead("id"@),
        ",\"pid\":"@ == lead("pid"@),
        ",\"tid\":"@ == lead("tid"@),
        ",\"args\":{"@ == lead("args"@) + seq!['{'],
        "}"@ == seq!['}'],
        ":"@ == seq![':'],
        ","@ == seq![','],
{
    reveal_strlit("name");
    reveal_strlit("cat");
    reveal_strlit("ph");
    reveal_strlit("ts");
    reveal_strlit("dur");
    reveal_strlit("tts");
    reveal_strlit("id");
    reveal_strlit("pid");
    reveal_strlit("tid");
    reveal_strlit("args");
    reveal_strlit("{\"name\":");
    reveal_strlit(",\"cat\":");
    reveal_strlit(",\"ph\":\"");
    reveal_strlit("\",\"ts\":");
    reveal_strlit(",\"dur\":");
    reveal_strlit(",\"tts\":");
    reveal_strlit(",\"id\":");
    reveal_strlit(",\"pid\":");
    reveal_strlit(",\"tid\":");
    reveal_strlit(",\"args\":{");
    reveal_strlit("}");
    reveal_strlit(":");
    reveal_strlit(",");
    assert("name"@ =~= seq!['n', 'a', 'm', 'e']);
    lemma_key_is_string("name"@);
    assert("cat"@ =~= seq!['c', 'a', 't']);
    lemma_key_is_string("cat"@);
    assert("ph"@ =~= seq!['p', 'h']);
    lemma_key_is_string("ph"@);
    assert("ts"@ =~= seq!['t', 's']);
    lemma_key_is_string("ts"@);
    assert("dur"@ =~= seq!['d', 'u', 'r']);
    lemma_key_is_string("dur"@);
    assert("tts"@ =~= seq!['t', 't', 's']);
    lemma_key_is_string("tts"@);
    assert("id"@ =~= seq!['i', 'd']);
    lemma_key_is_string("id"@);
    assert("pid"@ =~= seq!['p', 'i', 'd']);
    lemma_key_is_string("pid"@);
    assert("tid"@ =~= seq!['t', 'i', 'd']);
    lemma_key_is_string("tid"@);
    assert("args"@ =~= seq!['a', 'r', 'g', 's']);
    lemma_key_is_string("args"@);
    assert("{\"name\":"@ =~= seq!['{'] + key("name"@) + seq![':']);
    assert(",\"cat\":"@ =~= lead("cat"@));
    assert(",\"ph\":\""@ =~= lead("ph"@) + seq!['"']);
    assert("\",\"ts\":"@ =~= seq!['"'] + lead("ts"@));
    assert(",\"dur\":"@ =~= lead("dur"@));
    assert(",\"tts\":"@ =~= lead("tts"@));
    assert(",\"id\":"@ =~= lead("id"@));
    assert(",\"pid\":"@ =~= lead("pid"@));
    assert(",\"tid\":"@ =~= lead("tid"@));
    assert(",\"args\":{"@ =~= lead("args"@) + seq!['{']);
    assert("}"@ =~= seq!['}']);
    assert(":"@ =~= seq![':']);
    assert(","@ =~= seq![',']);
}

/// Whether every key and value of `args` is a string of the grammar.
pub open spec fn all_strings(args: Pairs) -> bool {
    forall|i: int| 0 <= i < args.len() ==> is_string(#[trigger] args[i].0) && is_string(args[i].1)
}

/// The members of a non-empty `args` object are members of the grammar.
pub proof fn lemma_members_text(args: Pairs)
    requires
        args.len() > 0,
        all_strings(args),
    ensures
        is_members(members_text(args)),
    decreases args.len(),
{
    lemma_fixed_texts();
    let last = args.last();
    assert(is_string(last.0) && is_string(last.1));
    assert(member_text(last) =~= member_of(last.0, last.1));
    lemma_member(last.0, last.1);
    if args.len() > 1 {
        let head = args.drop_last();
        assert forall|i: int| 0 <= i < head.len() implies is_string(#[trigger] head[i].0)
            && is_string(head[i].1) by {
            assert(head[i] == args[i]);
        }
        lemma_members_text(head);
        lemma_members_push(members_text(head), last.0, last.1);
        assert(members_text(args) =~= members_and(members_text(head), member_of(last.0, last.1)));
    } else {
        assert(args[0] == last);
    }
}

/// An opening brace and `ms`.
pub open spec fn opened(ms: Seq<char>) -> Seq<char> {
    seq!['{'] + ms
}

/// Whether `q` is an opening brace and members: an object that lacks only
/// its closing brace.
pub open spec fn opens_members(q: Seq<char>) -> bool {
    exists|ms: Seq<char>| q == #[trigger] opened(ms) && is_members(ms)
}

/// One member more: what opens members still does so with the lead of a new
/// key and a value behind it.
proof fn lemma_next_member(q: Seq<char>, name: Seq<char>, v: Seq<char>)
    requires
        opens_members(q),
        is_string(key(name)),
        is_value(v),
    ensures
        opens_members(q + lead(name) + v),
{
    let ms = choose|ms: Seq<char>| q == #[trigger] opened(ms) && is_members(ms);
    let longer = members_and(ms, member_of(key(name), v));
    lemma_members_push(ms, key(name), v);
    assert(q + lead(name) + v =~= opened(longer));
}

/// What opens members is an object once the closing brace stands behind it.
proof fn lemma_close(q: Seq<char>)
    requires
        opens_members(q),
    ensures
        is_object(q + seq!['}']),
        is_value(q + seq!['}']),
{
    let ms = choose|ms: Seq<char>| q == #[trigger] opened(ms) && is_members(ms);
    lemma_object(ms);
    assert(q + seq!['}'] =~= enclosed('{', ms, '}'));
}

/// The event object up to its time.
pub open spec fn object_head(m: EventModel) -> Seq<char> {
    "{\"name\":"@ + m.name
        + ",\"cat\":"@ + m.cat
        + ",\"ph\":\""@ + seq![m.ph.wire_code()]
        + "\",\"ts\":"@ + micros(m.ts)
}

/// The event object up to its id.
pub open spec fn object_middle(m: EventModel) -> Seq<char> {
    object_head(m)
        + optional_micros(",\"dur\":"@, m.dur)
        + optional_micros(",\"tts\":"@, m.tts)
        + optional_id(m.id)
}

/// The event object up to its arguments.
pub open spec fn object_body(m: EventModel) -> Seq<char> {
    object_middle(m)
        + ",\"pid\":"@ + decimal(m.pid as nat)
        + ",\"tid\":"@ + decimal(m.tid as nat)
        + optional_args(m.args)
}

proof fn lemma_object_head(m: EventModel)
    requires
        is_string(m.name),
        is_string(m.cat),
    ensures
        opens_members(object_head(m)),
{
    lemma_fixed_texts();
    lemma_code_is_string(m.ph);
    lemma_micros_is_number(m.ts);
    let code = key(seq![m.ph.wire_code()]);
    let q0 = "{\"name\":"@ + m.name;
    lemma_member(key("name"@), m.name);
    assert(q0 =~= opened(member_of(key("name"@), m.name)));
    lemma_next_member(q0, "cat"@, m.cat);
    let q1 = q0 + lead("cat"@) + m.cat;
    lemma_next_member(q1, "ph"@, code);
    let q2 = q1 + lead("ph"@) + code;
    lemma_next_member(q2, "ts"@, micros(m.ts));
    assert(object_head(m) =~= q2 + lead("ts"@) + micros(m.ts));
}

proof fn lemma_optional_micros(q: Seq<char>, name: Seq<char>, text: Seq<char>, value: Option<u64>)
    requires
        opens_members(q),
        is_string(key(name)),
        text == lead(name),
    ensures
        opens_members(q + optional_micros(text, value)),
{
    match value {
        Some(ns) => {
            lemma_micros_is_number(ns);
            lemma_next_member(q, name, micros(ns));
            assert(q + optional_micros(text, value) =~= q + lead(name) + micros(ns));
        },
        None => {
            assert(q + optional_micros(text, value) =~= q);
        },
    }
}

proof fn lemma_optional_id(q: Seq<char>, id: Seq<char>)
    requires
        opens_members(q),
        id.len() == 0 || is_string(id),
    ensures
        opens_members(q + optional_id(id)),
{
    lemma_fixed_texts();
    if id.len() == 0 {
        assert(q + optional_id(id) =~= q);
    } else {
        lemma_next_member(q, "id"@, id);
        assert(q + optional_id(id) =~= q + lead("id"@) + id);
    }
}

proof fn lemma_optional_args(q: Seq<char>, args: Pairs)
    requires
        opens_members(q),
        all_strings(args),
    ensures
        opens_members(q + optional_args(args)),
{
    lemma_fixed_texts();
    if args.len() == 0 {
        assert(q + optional_args(args) =~= q);
    } else {
        let inner = enclosed('{', members_text(args), '}');
        lemma_members_text(args);
        lemma_object(members_text(args));
        lemma_next_member(q, "args"@, inner);
        assert(q + optional_args(args) =~= q + lead("args"@) + inner);
    }
}

proof fn lemma_object_middle(m: EventModel)
    requires
        opens_members(object_head(m)),
        m.id.len() == 0 || is_string(m.id),
    ensures
        opens_members(object_middle(m)),
{
    lemma_fixed_texts();
    let q3 = object_head(m) + optional_micros(",\"dur\":"@, m.dur);
    lemma_optional_micros(object_head(m), "dur"@, ",\"dur\":"@, m.dur);
    let q4 = q3 + optional_micros(",\"tts\":"@, m.tts);
    lemma_optional_micros(q3, "tts"@, ",\"tts\":"@, m.tts);
    lemma_optional_id(q4, m.id);
}

proof fn lemma_object_body(m: EventModel)
    requires
        opens_members(object_middle(m)),
        all_strings(m.args),
    ensures
        opens_members(object_body(m)),
{
    lemma_fixed_texts();
    lemma_decimal_is_number(m.pid as nat);
    lemma_decimal_is_number(m.tid as nat);
    let q5 = object_middle(m) + lead("pid"@) + decimal(m.pid as nat);
    lemma_next_member(object_middle(m), "pid"@, decimal(m.pid as nat));
    let q6 = q5 + lead("tid"@) + decimal(m.tid as nat);
    lemma_next_member(q5, "tid"@, decimal(m.tid as nat));
    lemma_optional_args(q6, m.args);
}

/// The object of an event whose texts are strings of the grammar is an
/// object of the grammar.
pub proof fn lemma_object_text_is_object(m: EventModel)
    requires
        is_string(m.name),
        is_string(m.cat),
        m.id.len() == 0 || is_string(m.id),
        all_strings(m.args),
    ensures
        is_object(object_text(m)),
        is_value(object_text(m)),
{
    lemma_object_head(m);
    lemma_object_middle(m);
    lemma_object_body(m);
    lemma_close(object_body(m));
    assert("}"@ == seq!['}']) by {
        lemma_fixed_texts();
    }
    assert(object_text(m) == object_body(m) + "}"@);
}

/// The text of every event is an object of the grammar.
pub proof fn lemma_event_text_is_object(m: EventModel)
    ensures
        is_object(event_text(m)),
        is_value(event_text(m)),
{
    let q = quoted(m);
    lemma_literal_is_string(m.name);
    lemma_literal_is_string(m.cat);
    lemma_literal_is_string(m.id);
    assert forall|i: int| 0 <= i < q.args.len() implies is_string(#[trigger] q.args[i].0)
        && is_string(q.args[i].1) by {
        lemma_literal_is_string(m.args[i].0);
        lemma_literal_is_string(m.args[i].1);
    }
    lemma_object_text_is_object(q);
}

/// The complete stream of any events is an array of the grammar whose
/// elements are objects: an empty array for no event, and no comma before
/// the closing bracket.
pub proof fn lemma_trace_is_array(events: Seq<EventModel>)
    ensures
        is_array(array_text(event_texts(events))),
        forall|i: int|
            0 <= i < events.len() ==> is_object(#[trigger] event_texts(events)[i]),
{
    let texts = event_texts(events);
    assert forall|i: int| 0 <= i < texts.len() implies is_value(#[trigger] texts[i])
        && is_object(texts[i]) by {
        lemma_event_text_is_object(events[i]);
    }
    lemma_array_text_is_array(texts);
}

/// Whether every text of `texts` is a value of the grammar.
pub open spec fn all_values(texts: Seq<Seq<char>>) -> bool {
    forall|i: int| 0 <= i < texts.len() ==> is_value(#[trigger] texts[i])
}

/// The texts of events are values of the grammar, and so are they together
/// with texts that are.
pub proof fn lemma_event_texts_are_values(before: Seq<Seq<char>>, events: Seq<EventModel>)
    requires
        all_values(before),
    ensures
        all_values(before + event_texts(events)),
{
    let all = before + event_texts(events);
    assert forall|i: int| 0 <= i < all.len() implies is_value(#[trigger] all[i]) by {
        if i < before.len() {
            assert(all[i] == before[i]);
        } else {
            lemma_event_text_is_object(events[i - before.len()]);
            assert(all[i] == event_texts(events)[i - before.len()]);
        }
    }
}

/// The stream of an engine that has accepted values only. Once it is closed,
/// the text handed out is an array of the grammar. While it is open, the
/// text handed out so far is the beginning of one: the text in the slot and
/// a closing bracket complete it, and no comma stands where the stream was
/// left.
pub proof fn lemma_stream_is_array(engine: &Emitter)
    requires
        engine.wf(),
        all_values(engine.accepted()),
    ensures
        engine.closed() ==> is_array(engine.written()),
        !engine.closed() ==> is_array(
            engine.written() + held_text(engine.pending()) + seq![']'],
        ),
{
    engine.lemma_stream_shape();
    lemma_array_text_is_array(engine.accepted());
}

} // verus!
