//! The phase tag of a trace event: its name and its wire code.

use vstd::prelude::*;
use vstd::string::StringExecFns;

verus! {

/// The kind of a trace event.
#[derive(Debug, Copy, Clone, PartialEq, Eq, Structural)]
pub enum EventType {
    DurationBegin,
    DurationEnd,
    Complete,
    Instant,
    Counter,
    AsyncStart,
    AsyncInstant,
    AsyncEnd,
    FlowStart,
    FlowStep,
    FlowEnd,
    Sample,
    ObjectCreated,
    ObjectSnapshot,
    ObjectDestroyed,
    Metadata,
    MemoryDumpGlobal,
    MemoryDumpProcess,
    Mark,
    ClockSync,
    ContextBegin,
    ContextEnd,
}

/// The error of [`EventType::from_str`]: the text names no phase.
#[derive(Debug, Copy, Clone, PartialEq, Eq, Structural)]
pub enum ParseError {
    VariantNotFound,
}

/// Whether two texts hold the same characters.
pub fn same_text(a: &str, b: &str) -> (r: bool)
    ensures
        r == (a@ == b@),
{
    let x = String::from_str(a);
    let y = String::from_str(b);
    x == y
}

/// The phase whose wire code is `c`, if there is one.
pub open spec fn phase_of_code(c: char) -> Option<EventType> {
    if c == 'B' {
        Some(EventType::DurationBegin)
    } else if c == 'E' {
        Some(EventType::DurationEnd)
    } else if c == 'X' {
        Some(EventType::Complete)
    } else if c == 'i' {
        Some(EventType::Instant)
    } else if c == 'C' {
        Some(EventType::Counter)
    } else if c == 'b' {
        Some(EventType::AsyncStart)
    } else if c == 'n' {
        Some(EventType::AsyncInstant)
    } else if c == 'e' {
        Some(EventType::AsyncEnd)
    } else if c == 's' {
        Some(EventType::FlowStart)
    } else if c == 't' {
        Some(EventType::FlowStep)
    } else if c == 'f' {
        Some(EventType::FlowEnd)
    } else if c == 'P' {
        Some(EventType::Sample)
    } else if c == 'N' {
        Some(EventType::ObjectCreated)
    } else if c == 'O' {
        Some(EventType::ObjectSnapshot)
    } else if c == 'D' {
        Some(EventType::ObjectDestroyed)
    } else if c == 'M' {
        Some(EventType::Metadata)
    } else if c == 'V' {
        Some(EventType::MemoryDumpGlobal)
    } else if c == 'v' {
        Some(EventType::MemoryDumpProcess)
    } else if c == 'R' {
        Some(EventType::Mark)
    } else if c == 'c' {
        Some(EventType::ClockSync)
    } else if c == '(' {
        Some(EventType::ContextBegin)
    } else if c == ')' {
        Some(EventType::ContextEnd)
    } else {
        None
    }
}

/// The phase whose name is `s`, if there is one.
pub open spec fn phase_of_name(s: Seq<char>) -> Option<EventType> {
    if s == "DurationBegin"@ {
        Some(EventType::DurationBegin)
    } else if s == "DurationEnd"@ {
        Some(EventType::DurationEnd)
    } else if s == "Complete"@ {
        Some(EventType::Complete)
    } else if s == "Instant"@ {
        Some(EventType::Instant)
    } else if s == "Counter"@ {
        Some(EventType::Counter)
    } else if s == "AsyncStart"@ {
        Some(EventType::AsyncStart)
    } else if s == "AsyncInstant"@ {
        Some(EventType::AsyncInstant)
    } else if s == "AsyncEnd"@ {
        Some(EventType::AsyncEnd)
    } else if s == "FlowStart"@ {
        Some(EventType::FlowStart)
    } else if s == "FlowStep"@ {
        Some(EventType::FlowStep)
    } else if s == "FlowEnd"@ {
        Some(EventType::FlowEnd)
    } else if s == "Sample"@ {
        Some(EventType::Sample)
    } else if s == "ObjectCreated"@ {
        Some(EventType::ObjectCreated)
    } else if s == "ObjectSnapshot"@ {
        Some(EventType::ObjectSnapshot)
    } else if s == "ObjectDestroyed"@ {
        Some(EventType::ObjectDestroyed)
    } else if s == "Metadata"@ {
        Some(EventType::Metadata)
    } else if s == "MemoryDumpGlobal"@ {
        Some(EventType::MemoryDumpGlobal)
    } else if s == "MemoryDumpProcess"@ {
        Some(EventType::MemoryDumpProcess)
    } else if s == "Mark"@ {
        Some(EventType::Mark)
    } else if s == "ClockSync"@ {
        Some(EventType::ClockSync)
    } else if s == "ContextBegin"@ {
        Some(EventType::ContextBegin)
    } else if s == "ContextEnd"@ {
        Some(EventType::ContextEnd)
    } else {
        None
    }
}

impl EventType {
    /// The character that stands for this phase in the `ph` key.
    pub open spec fn wire_code(self) -> char {
        match self {
            EventType::DurationBegin => 'B',
            EventType::DurationEnd => 'E',
            EventType::Complete => 'X',
            EventType::Instant => 'i',
            EventType::Counter => 'C',
            EventType::AsyncStart => 'b',
            EventType::AsyncInstant => 'n',
            EventType::AsyncEnd => 'e',
            EventType::FlowStart => 's',
            EventType::FlowStep => 't',
            EventType::FlowEnd => 'f',
            EventType::Sample => 'P',
            EventType::ObjectCreated => 'N',
            EventType::ObjectSnapshot => 'O',
            EventType::ObjectDestroyed => 'D',
            EventType::Metadata => 'M',
            EventType::MemoryDumpGlobal => 'V',
            EventType::MemoryDumpProcess => 'v',
            EventType::Mark => 'R',
            EventType::ClockSync => 'c',
            EventType::ContextBegin => '(',
            EventType::ContextEnd => ')',
        }
    }

    /// The name of this phase, spelled as its variant.
    pub open spec fn name_text(self) -> Seq<char> {
        match self {
            EventType::DurationBegin => "DurationBegin"@,
            EventType::DurationEnd => "DurationEnd"@,
            EventType::Complete => "Complete"@,
            EventType::Instant => "Instant"@,
            EventType::Counter => "Counter"@,
            EventType::AsyncStart => "AsyncStart"@,
            EventType::AsyncInstant => "AsyncInstant"@,
            EventType::AsyncEnd => "AsyncEnd"@,
            EventType::FlowStart => "FlowStart"@,
            EventType::FlowStep => "FlowStep"@,
            EventType::FlowEnd => "FlowEnd"@,
            EventType::Sample => "Sample"@,
            EventType::ObjectCreated => "ObjectCreated"@,
            EventType::ObjectSnapshot => "ObjectSnapshot"@,
            EventType::ObjectDestroyed => "ObjectDestroyed"@,
            EventType::Metadata => "Metadata"@,
            EventType::MemoryDumpGlobal => "MemoryDumpGlobal"@,
            EventType::MemoryDumpProcess => "MemoryDumpProcess"@,
            EventType::Mark => "Mark"@,
            EventType::ClockSync => "ClockSync"@,
            EventType::ContextBegin => "ContextBegin"@,
            EventType::ContextEnd => "ContextEnd"@,
        }
    }

    /// Encodes the phase as its wire code.
    pub fn code(&self) -> (c: char)
        ensures
            c == self.wire_code(),
    {
        match self {
            EventType::DurationBegin => 'B',
            EventType::DurationEnd => 'E',
            EventType::Complete => 'X',
            EventType::Instant => 'i',
            EventType::Counter => 'C',
            EventType::AsyncStart => 'b',
            EventType::AsyncInstant => 'n',
            EventType::AsyncEnd => 'e',
            EventType::FlowStart => 's',
            EventType::FlowStep => 't',
            EventType::FlowEnd => 'f',
            EventType::Sample => 'P',
            EventType::ObjectCreated => 'N',
            EventType::ObjectSnapshot => 'O',
            EventType::ObjectDestroyed => 'D',
            EventType::Metadata => 'M',
            EventType::MemoryDumpGlobal => 'V',
            EventType::MemoryDumpProcess => 'v',
            EventType::Mark => 'R',
            EventType::ClockSync => 'c',
            EventType::ContextBegin => '(',
            EventType::ContextEnd => ')',
        }
    }

    /// Decodes a wire code. `None` exactly for a character that is no code.
    pub fn from_code(c: char) -> (r: Option<EventType>)
        ensures
            r == phase_of_code(c),
            r is Some <==> exists|p: EventType| p.wire_code() == c,
    {
        let r = match c {
            'B' => Some(EventType::DurationBegin),
            'E' => Some(EventType::DurationEnd),
            'X' => Some(EventType::Complete),
            'i' => Some(EventType::Instant),
            'C' => Some(EventType::Counter),
            'b' => Some(EventType::AsyncStart),
            'n' => Some(EventType::AsyncInstant),
            'e' => Some(EventType::AsyncEnd),
            's' => Some(EventType::FlowStart),
            't' => Some(EventType::FlowStep),
            'f' => Some(EventType::FlowEnd),
            'P' => Some(EventType::Sample),
            'N' => Some(EventType::ObjectCreated),
            'O' => Some(EventType::ObjectSnapshot),
            'D' => Some(EventType::ObjectDestroyed),
            'M' => Some(EventType::Metadata),
            'V' => Some(EventType::MemoryDumpGlobal),
            'v' => Some(EventType::MemoryDumpProcess),
            'R' => Some(EventType::Mark),
            'c' => Some(EventType::ClockSync),
            '(' => Some(EventType::ContextBegin),
            ')' => Some(EventType::ContextEnd),
            _ => None,
        };
        proof {
            if let Some(p) = r {
                assert(p.wire_code() == c);
            } else {
                assert forall|p: EventType| p.wire_code() != c by {
                    lemma_code_round_trip(p);
                }
            }
        }
        r
    }

    /// The wire code as the one-character text written under the `ph` key.
    pub fn code_str(&self) -> (s: &'static str)
        ensures
            s@ == seq![self.wire_code()],
    {
        proof {
            reveal_strlit("B");
            reveal_strlit("E");
            reveal_strlit("X");
            reveal_strlit("i");
            reveal_strlit("C");
            reveal_strlit("b");
            reveal_strlit("n");
            reveal_strlit("e");
            reveal_strlit("s");
            reveal_strlit("t");
            reveal_strlit("f");
            reveal_strlit("P");
            reveal_strlit("N");
            reveal_strlit("O");
            reveal_strlit("D");
            reveal_strlit("M");
            reveal_strlit("V");
            reveal_strlit("v");
            reveal_strlit("R");
            reveal_strlit("c");
            reveal_strlit("(");
            reveal_strlit(")");
        }
        let s = match self {
            EventType::DurationBegin => "B",
            EventType::DurationEnd => "E",
            EventType::Complete => "X",
            EventType::Instant => "i",
            EventType::Counter => "C",
            EventType::AsyncStart => "b",
            EventType::AsyncInstant => "n",
            EventType::AsyncEnd => "e",
            EventType::FlowStart => "s",
            EventType::FlowStep => "t",
            EventType::FlowEnd => "f",
            EventType::Sample => "P",
            EventType::ObjectCreated => "N",
            EventType::ObjectSnapshot => "O",
            EventType::ObjectDestroyed => "D",
            EventType::Metadata => "M",
            EventType::MemoryDumpGlobal => "V",
            EventType::MemoryDumpProcess => "v",
            EventType::Mark => "R",
            EventType::ClockSync => "c",
            EventType::ContextBegin => "(",
            EventType::ContextEnd => ")",
        };
        assert(s@ =~= seq![self.wire_code()]);
        s
    }

    /// The variant's name as text.
    pub fn name(&self) -> (s: &'static str)
        ensures
            s@ == self.name_text(),
    {
        match self {
            EventType::DurationBegin => "DurationBegin",
            EventType::DurationEnd => "DurationEnd",
            EventType::Complete => "Complete",
            EventType::Instant => "Instant",
            EventType::Counter => "Counter",
            EventType::AsyncStart => "AsyncStart",
            EventType::AsyncInstant => "AsyncInstant",
            EventType::AsyncEnd => "AsyncEnd",
            EventType::FlowStart => "FlowStart",
            EventType::FlowStep => "FlowStep",
            EventType::FlowEnd => "FlowEnd",
            EventType::Sample => "Sample",
            EventType::ObjectCreated => "ObjectCreated",
            EventType::ObjectSnapshot => "ObjectSnapshot",
            EventType::ObjectDestroyed => "ObjectDestroyed",
            EventType::Metadata => "Metadata",
            EventType::MemoryDumpGlobal => "MemoryDumpGlobal",
            EventType::MemoryDumpProcess => "MemoryDumpProcess",
            EventType::Mark => "Mark",
            EventType::ClockSync => "ClockSync",
            EventType::ContextBegin => "ContextBegin",
            EventType::ContextEnd => "ContextEnd",
        }
    }

    /// Reads a phase from its variant name, case-sensitively. `None` exactly
    /// for a text that is no variant's name.
    pub fn from_name(s: &str) -> (r: Option<EventType>)
        ensures
            r == phase_of_name(s@),
    {
        if same_text(s, "DurationBegin") {
            Some(EventType::DurationBegin)
        } else if same_text(s, "DurationEnd") {
            Some(EventType::DurationEnd)
        } else if same_text(s, "Complete") {
            Some(EventType::Complete)
        } else if same_text(s, "Instant") {
            Some(EventType::Instant)
        } else if same_text(s, "Counter") {
            Some(EventType::Counter)
        } else if same_text(s, "AsyncStart") {
            Some(EventType::AsyncStart)
        } else if same_text(s, "AsyncInstant") {
            Some(EventType::AsyncInstant)
        } else if same_text(s, "AsyncEnd") {
            Some(EventType::AsyncEnd)
        } else if same_text(s, "FlowStart") {
            Some(EventType::FlowStart)
        } else if same_text(s, "FlowStep") {
            Some(EventType::FlowStep)
        } else if same_text(s, "FlowEnd") {
            Some(EventType::FlowEnd)
        } else if same_text(s, "Sample") {
            Some(EventType::Sample)
        } else if same_text(s, "ObjectCreated") {
            Some(EventType::ObjectCreated)
        } else if same_text(s, "ObjectSnapshot") {
            Some(EventType::ObjectSnapshot)
        } else if same_text(s, "ObjectDestroyed") {
            Some(EventType::ObjectDestroyed)
        } else if same_text(s, "Metadata") {
            Some(EventType::Metadata)
        } else if same_text(s, "MemoryDumpGlobal") {
            Some(EventType::MemoryDumpGlobal)
        } else if same_text(s, "MemoryDumpProcess") {
            Some(EventType::MemoryDumpProcess)
        } else if same_text(s, "Mark") {
            Some(EventType::Mark)
        } else if same_text(s, "ClockSync") {
            Some(EventType::ClockSync)
        } else if same_text(s, "ContextBegin") {
            Some(EventType::ContextBegin)
        } else if same_text(s, "ContextEnd") {
            Some(EventType::ContextEnd)
        } else {
            None
        }
    }
}

impl Default for EventType {
    fn default() -> (r: EventType)
        ensures
            r == EventType::Instant,
    {
        EventType::Instant
    }
}

impl AsRef<str> for EventType {
    fn as_ref(&self) -> (s: &str)
        ensures
            s@ == self.name_text(),
    {
        self.name()
    }
}

impl std::str::FromStr for EventType {
    type Err = ParseError;

    fn from_str(s: &str) -> (r: Result<EventType, ParseError>)
        ensures
            r == (match phase_of_name(s@) {
                Some(p) => Ok::<EventType, ParseError>(p),
                None => Err::<EventType, ParseError>(ParseError::VariantNotFound),
            }),
    {
        match EventType::from_name(s) {
            Some(p) => Ok(p),
            None => Err(ParseError::VariantNotFound),
        }
    }
}

/// Decoding the wire code of a phase gives that phase back.
pub proof fn lemma_code_round_trip(p: EventType)
    ensures
        phase_of_code(p.wire_code()) == Some(p),
{
}

/// No two phases share a wire code.
pub proof fn lemma_code_injective(p: EventType, q: EventType)
    requires
        p.wire_code() == q.wire_code(),
    ensures
        p == q,
{
    lemma_code_round_trip(p);
    lemma_code_round_trip(q);
}

/// A character that decodes to a phase is that phase's wire code.
pub proof fn lemma_decode_then_encode(c: char)
    requires
        phase_of_code(c) is Some,
    ensures
        phase_of_code(c).unwrap().wire_code() == c,
{
}

/// The length and first character of each phase name: enough to tell any two
/// of them apart.
proof fn lemma_name_shapes()
    ensures
        "DurationBegin"@.len() == 13 && "DurationBegin"@[0] == 'D',
        "DurationEnd"@.len() == 11 && "DurationEnd"@[0] == 'D',
        "Complete"@.len() == 8 && "Complete"@[0] == 'C',
        "Instant"@.len() == 7 && "Instant"@[0] == 'I',
        "Counter"@.len() == 7 && "Counter"@[0] == 'C',
        "AsyncStart"@.len() == 10 && "AsyncStart"@[0] == 'A',
        "AsyncInstant"@.len() == 12 && "AsyncInstant"@[0] == 'A',
        "AsyncEnd"@.len() == 8 && "AsyncEnd"@[0] == 'A',
        "FlowStart"@.len() == 9 && "FlowStart"@[0] == 'F',
        "FlowStep"@.len() == 8 && "FlowStep"@[0] == 'F',
        "FlowEnd"@.len() == 7 && "FlowEnd"@[0] == 'F',
        "Sample"@.len() == 6 && "Sample"@[0] == 'S',
        "ObjectCreated"@.len() == 13 && "ObjectCreated"@[0] == 'O',
        "ObjectSnapshot"@.len() == 14 && "ObjectSnapshot"@[0] == 'O',
        "ObjectDestroyed"@.len() == 15 && "ObjectDestroyed"@[0] == 'O',
        "Metadata"@.len() == 8 && "Metadata"@[0] == 'M',
        "MemoryDumpGlobal"@.len() == 16 && "MemoryDumpGlobal"@[0] == 'M',
        "MemoryDumpProcess"@.len() == 17 && "MemoryDumpProcess"@[0] == 'M',
        "Mark"@.len() == 4 && "Mark"@[0] == 'M',
        "ClockSync"@.len() == 9 && "ClockSync"@[0] == 'C',
        "ContextBegin"@.len() == 12 && "ContextBegin"@[0] == 'C',
        "ContextEnd"@.len() == 10 && "ContextEnd"@[0] == 'C',
{
    reveal_strlit("DurationBegin");
    reveal_strlit("DurationEnd");
    reveal_strlit("Complete");
    reveal_strlit("Instant");
    reveal_strlit("Counter");
    reveal_strlit("AsyncStart");
    reveal_strlit("AsyncInstant");
    reveal_strlit("AsyncEnd");
    reveal_strlit("FlowStart");
    reveal_strlit("FlowStep");
    reveal_strlit("FlowEnd");
    reveal_strlit("Sample");
    reveal_strlit("ObjectCreated");
    reveal_strlit("ObjectSnapshot");
    reveal_strlit("ObjectDestroyed");
    reveal_strlit("Metadata");
    reveal_strlit("MemoryDumpGlobal");
    reveal_strlit("MemoryDumpProcess");
    reveal_strlit("Mark");
    reveal_strlit("ClockSync");
    reveal_strlit("ContextBegin");
    reveal_strlit("ContextEnd");
}

/// Reading the name of a phase gives that phase back.
pub proof fn lemma_name_round_trip(p: EventType)
    ensures
        phase_of_name(p.name_text()) == Some(p),
{
    lemma_name_shapes();
}

/// A text that reads as a phase is that phase's name.
pub proof fn lemma_read_then_name(s: Seq<char>)
    requires
        phase_of_name(s) is Some,
    ensures
        phase_of_name(s).unwrap().name_text() == s,
{
}

} // verus!
