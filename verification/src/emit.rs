//! The emission engine: a one-slot buffer that holds back the most recent
//! event text, so that the comma after an element is written only once the
//! next element, or the end of the stream, is known.

use vstd::prelude::*;
use vstd::string::StringExecFns;

verus! {

/// What stands between two elements of the array: a comma and a line break.
pub open spec fn separator() -> Seq<char> {
    seq![',', '\n']
}

/// Every text of `texts` in order, each followed by the separator.
pub open spec fn settled(texts: Seq<Seq<char>>) -> Seq<char>
    decreases texts.len(),
{
    if texts.len() == 0 {
        Seq::empty()
    } else {
        settled(texts.drop_last()) + texts.last() + separator()
    }
}

/// The texts as they stand inside the brackets: each followed by the
/// separator, but for the last, which is followed by nothing.
pub open spec fn elements(texts: Seq<Seq<char>>) -> Seq<char> {
    if texts.len() == 0 {
        Seq::empty()
    } else {
        settled(texts.drop_last()) + texts.last()
    }
}

/// The complete stream for `texts`: an opening bracket, the elements, a
/// closing bracket.
pub open spec fn array_text(texts: Seq<Seq<char>>) -> Seq<char> {
    seq!['['] + elements(texts) + seq![']']
}

/// The text held back, or nothing.
pub open spec fn held_text(pending: Option<Seq<char>>) -> Seq<char> {
    match pending {
        Some(p) => p,
        None => Seq::empty(),
    }
}

/// What a submission hands to the sink: the text it evicts, with the
/// separator behind it.
pub open spec fn evicted_text(pending: Option<Seq<char>>) -> Seq<char> {
    match pending {
        Some(p) => p + separator(),
        None => Seq::empty(),
    }
}

/// The views of a vector of texts.
pub open spec fn texts_of(v: Seq<String>) -> Seq<Seq<char>> {
    Seq::new(v.len(), |i: int| v[i]@)
}

/// The deferred single-slot buffer of one trace stream.
///
/// The engine writes nothing itself. Each operation returns the text that the
/// caller must hand to the sink next; `written` is the text returned so far.
pub struct Emitter {
    pending: Option<String>,
    closed: bool,
    accepted: Ghost<Seq<Seq<char>>>,
    written: Ghost<Seq<char>>,
}

impl Emitter {
    /// The invariant of the engine, which holds of every engine: the text
    /// handed out so far and the slot agree with the accepted texts.
    pub closed spec fn wf(&self) -> bool {
        self.inv()
    }

    #[verifier::type_invariant]
    spec fn inv(&self) -> bool {
        let acc = self.accepted@;
        if self.closed {
            self.pending is None && self.written@ == array_text(acc)
        } else if acc.len() == 0 {
            self.pending is None && self.written@ == seq!['[']
        } else {
            &&& self.pending is Some
            &&& self.pending->0@ == acc.last()
            &&& self.written@ == seq!['['] + settled(acc.drop_last())
        }
    }

    /// The event texts accepted so far, in the order of their submission.
    pub closed spec fn accepted(&self) -> Seq<Seq<char>> {
        self.accepted@
    }

    /// All the text handed out for the sink so far.
    pub closed spec fn written(&self) -> Seq<char> {
        self.written@
    }

    /// The text in the slot: accepted, not yet handed out.
    pub closed spec fn pending(&self) -> Option<Seq<char>> {
        match self.pending {
            Some(p) => Some(p@),
            None => None,
        }
    }

    /// Whether the stream has been shut down.
    pub closed spec fn closed(&self) -> bool {
        self.closed
    }

    /// Starts a stream. The second component is the opening bracket, which
    /// goes to the sink before anything else.
    pub fn attach() -> (r: (Emitter, String))
        ensures
            r.0.wf(),
            r.1@ == seq!['['],
            r.0.accepted() == Seq::<Seq<char>>::empty(),
            r.0.written() == r.1@,
            r.0.pending() is None,
            !r.0.closed(),
    {
        proof {
            reveal_strlit("[");
        }
        let open = String::from_str("[");
        assert(open@ =~= seq!['[']);
        let ghost none: Seq<Seq<char>> = Seq::empty();
        let ghost bracket: Seq<char> = seq!['['];
        let e = Emitter {
            pending: None,
            closed: false,
            accepted: Ghost(none),
            written: Ghost(bracket),
        };
        (e, open)
    }

    /// Whether the stream has been shut down. The call also shows that the
    /// engine meets its invariant, as every engine does.
    pub fn is_closed(&self) -> (b: bool)
        ensures
            self.wf(),
            b == self.closed(),
    {
        proof {
            use_type_invariant(self);
        }
        self.closed
    }

    /// Whether the slot holds a text.
    pub fn has_pending(&self) -> (b: bool)
        ensures
            b == (self.pending() is Some),
    {
        self.pending.is_some()
    }

    /// Accepts one serialised event. On an open stream the text goes into the
    /// slot, and the text that it evicts comes back with the separator behind
    /// it (nothing on the first submission). On a closed stream nothing is
    /// accepted and `None` comes back.
    pub fn submit(&mut self, text: String) -> (out: Option<String>)
        ensures
            final(self).wf(),
            old(self).closed() ==> out is None && *final(self) == *old(self),
            !old(self).closed() ==> ({
                &&& out is Some
                &&& out->0@ == evicted_text(old(self).pending())
                &&& final(self).accepted() == old(self).accepted().push(text@)
                &&& final(self).written() == old(self).written() + out->0@
                &&& final(self).pending() == Some(text@)
                &&& !final(self).closed()
            }),
    {
        proof {
            use_type_invariant(&*self);
            reveal_strlit(",\n");
            assert(",\n"@ =~= separator());
        }
        if self.closed {
            return None;
        }
        let ghost acc = self.accepted@;
        let ghost grown = acc.push(text@);
        let ghost after = self.written@ + evicted_text(self.pending());
        proof {
            assert(grown.drop_last() =~= acc);
            assert(after =~= seq!['['] + settled(acc));
        }
        let mut prev = Emitter {
            pending: Some(text),
            closed: false,
            accepted: Ghost(grown),
            written: Ghost(after),
        };
        std::mem::swap(self, &mut prev);
        let mut out = String::new();
        match prev.pending {
            Some(p) => {
                out.append(p.as_str());
                out.append(",\n");
            },
            None => {},
        }
        assert(out@ =~= evicted_text(old(self).pending()));
        Some(out)
    }

    /// Ends the stream. The first call hands out the text in the slot, with
    /// no separator behind it, and then the closing bracket; from then on the
    /// text handed out in all is the complete array of the accepted events.
    /// A later call hands out nothing.
    pub fn shutdown(&mut self) -> (out: String)
        ensures
            final(self).wf(),
            final(self).closed(),
            final(self).accepted() == old(self).accepted(),
            final(self).pending() is None,
            final(self).written() == old(self).written() + out@,
            final(self).written() == array_text(final(self).accepted()),
            old(self).closed() ==> out@ == Seq::<char>::empty(),
            !old(self).closed() ==> out@ == held_text(old(self).pending()) + seq![']'],
    {
        proof {
            use_type_invariant(&*self);
            reveal_strlit("]");
            assert("]"@ =~= seq![']']);
        }
        let mut out = String::new();
        if self.closed {
            assert(self.written@ + out@ =~= self.written@);
            return out;
        }
        let ghost acc = self.accepted@;
        let ghost after = self.written@ + held_text(self.pending()) + seq![']'];
        proof {
            assert(after =~= array_text(acc));
        }
        let mut prev = Emitter {
            pending: None,
            closed: true,
            accepted: Ghost(acc),
            written: Ghost(after),
        };
        std::mem::swap(self, &mut prev);
        match prev.pending {
            Some(p) => {
                out.append(p.as_str());
            },
            None => {},
        }
        out.append("]");
        proof {
            assert(out@ =~= held_text(old(self).pending()) + seq![']']);
            assert(old(self).written() + out@ =~= after);
        }
        out
    }

    /// The shape of the stream in every state. While the stream is open,
    /// every accepted text but the last has been handed out with the
    /// separator behind it, and the last one is in the slot: the text handed
    /// out so far, then the slot, then a closing bracket make the complete
    /// array. Once the stream is closed, the text handed out is that array.
    pub proof fn lemma_stream_shape(&self)
        requires
            self.wf(),
        ensures
            self.closed() ==> self.written() == array_text(self.accepted()) && self.pending()
                is None,
            !self.closed() ==> ({
                &&& self.written() + held_text(self.pending()) + seq![']'] == array_text(
                    self.accepted(),
                )
                &&& self.accepted().len() == 0 ==> self.pending() is None && self.written()
                    == seq!['[']
                &&& self.accepted().len() > 0 ==> self.pending() == Some(self.accepted().last())
                    && self.written() == seq!['['] + settled(self.accepted().drop_last())
            }),
    {
        if !self.closed {
            assert(self.written() + held_text(self.pending()) + seq![']'] =~= array_text(
                self.accepted(),
            ));
        }
    }
}

/// Streams `texts` through a fresh engine, from the opening bracket to the
/// shutdown, and returns all that the sink would receive.
pub fn render(texts: &Vec<String>) -> (out: String)
    ensures
        out@ == array_text(texts_of(texts@)),
{
    let (mut engine, mut out) = Emitter::attach();
    let mut i: usize = 0;
    while i < texts.len()
        invariant
            i <= texts.len(),
            engine.wf(),
            !engine.closed(),
            engine.written() == out@,
            engine.accepted() == texts_of(texts@).take(i as int),
        decreases texts.len() - i,
    {
        let chunk = engine.submit(texts[i].clone());
        match chunk {
            Some(c) => {
                out.append(c.as_str());
            },
            None => {},
        }
        proof {
            assert(texts_of(texts@).take(i as int).push(texts@[i as int]@) =~= texts_of(
                texts@,
            ).take(i + 1));
        }
        i += 1;
    }
    let tail = engine.shutdown();
    out.append(tail.as_str());
    proof {
        assert(texts_of(texts@).take(texts@.len() as int) =~= texts_of(texts@));
    }
    out
}

/// The shape of a complete stream. With no element it is the two brackets.
/// With elements, every element but the last is followed by the separator,
/// and the last is followed by the closing bracket at once: no separator
/// stands before it.
pub proof fn lemma_array_text_shape(texts: Seq<Seq<char>>)
    ensures
        texts.len() == 0 ==> array_text(texts) == seq!['[', ']'],
        texts.len() > 0 ==> array_text(texts) == seq!['['] + settled(texts.drop_last())
            + texts.last() + seq![']'],
{
    if texts.len() == 0 {
        assert(array_text(texts) =~= seq!['[', ']']);
    } else {
        assert(array_text(texts) =~= seq!['['] + settled(texts.drop_last()) + texts.last()
            + seq![']']);
    }
}

/// One element more: the earlier elements stay where they are, and the
/// separator comes to stand between the element that was last and the new
/// one.
pub proof fn lemma_array_text_step(texts: Seq<Seq<char>>, next: Seq<char>)
    ensures
        texts.len() == 0 ==> array_text(texts.push(next)) == seq!['['] + next + seq![']'],
        texts.len() > 0 ==> array_text(texts.push(next)) == seq!['['] + elements(texts)
            + separator() + next + seq![']'],
{
    assert(texts.push(next).drop_last() =~= texts);
    if texts.len() == 0 {
        assert(array_text(texts.push(next)) =~= seq!['['] + next + seq![']']);
    } else {
        assert(array_text(texts.push(next)) =~= seq!['['] + elements(texts) + separator() + next
            + seq![']']);
    }
}

} // verus!
