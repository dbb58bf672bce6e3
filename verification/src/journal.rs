//! The append-only event journal: one JSON object per line, with the
//! fields `topic`, `payload`, `ts`, and optional `source` and `target`.

use vstd::prelude::*;
use crate::event::{Event, EventView};
use crate::text::{push_char, spec_u64_str, u64_to_string};

verus! {

/// The JSON escape of one character.
pub open spec fn esc_char(c: char) -> Seq<char> {
    if c == '"' {
        seq!['\\', '"']
    } else if c == '\\' {
        seq!['\\', '\\']
    } else if c == '\n' {
        seq!['\\', 'n']
    } else if c == '\r' {
        seq!['\\', 'r']
    } else if c == '\t' {
        seq!['\\', 't']
    } else {
        seq![c]
    }
}

/// The body of a JSON string: every character escaped.
pub open spec fn spec_json_escape(s: Seq<char>) -> Seq<char>
    decreases s.len(),
{
    if s.len() == 0 {
        Seq::empty()
    } else {
        spec_json_escape(s.drop_last()) + esc_char(s.last())
    }
}

/// Escapes `s` for use inside a JSON string literal.
pub fn json_escape(s: &str) -> (r: String)
    ensures
        r@ == spec_json_escape(s@),
{
    let len = s.unicode_len();
    let mut r = String::new();
    let mut i: usize = 0;
    while i < len
        invariant
            0 <= i <= len,
            len == s@.len(),
            r@ == spec_json_escape(s@.take(i as int)),
        decreases len - i,
    {
        let ghost prefix = s@.take(i as int);
        let c = s.get_char(i);
        if c == '"' {
            r.append("\\\"");
        } else if c == '\\' {
            r.append("\\\\");
        } else if c == '\n' {
            r.append("\\n");
        } else if c == '\r' {
            r.append("\\r");
        } else if c == '\t' {
            r.append("\\t");
        } else {
            push_char(&mut r, c);
        }
        proof {
            reveal_strlit("\\\"");
            reveal_strlit("\\\\");
            reveal_strlit("\\n");
            reveal_strlit("\\r");
            reveal_strlit("\\t");
            assert(s@.take(i + 1).drop_last() =~= prefix);
            assert(s@.take(i + 1).last() == s@[i as int]);
            assert(r@ =~= spec_json_escape(s@.take(i + 1)));
        }
        i += 1;
    }
    proof {
        assert(s@.take(len as int) =~= s@);
    }
    r
}

/// The journal line of one event.
pub open spec fn spec_event_json(v: EventView) -> Seq<char> {
    "{\"topic\": \""@ + spec_json_escape(v.topic) + "\", \"payload\": \""@ + spec_json_escape(
        v.payload,
    ) + "\", \"ts\": "@ + spec_u64_str(v.ts) + (match v.source {
        Some(s) => ", \"source\": \""@ + spec_json_escape(s) + "\""@,
        None => Seq::<char>::empty(),
    }) + (match v.target {
        Some(t) => ", \"target\": \""@ + spec_json_escape(t) + "\""@,
        None => Seq::<char>::empty(),
    }) + "}"@
}

/// Renders one event as its journal line.
pub fn event_to_json(e: &Event) -> (r: String)
    ensures
        r@ == spec_event_json(e@),
{
    let mut r = String::from_str("{\"topic\": \"");
    let topic_esc = json_escape(e.topic.as_str());
    r.append(topic_esc.as_str());
    r.append("\", \"payload\": \"");
    let payload_esc = json_escape(e.payload.as_str());
    r.append(payload_esc.as_str());
    r.append("\", \"ts\": ");
    let ts = u64_to_string(e.ts);
    r.append(ts.as_str());
    match &e.source {
        Some(s) => {
            r.append(", \"source\": \"");
            let esc = json_escape(s.as_str());
            r.append(esc.as_str());
            r.append("\"");
        },
        None => {},
    }
    match &e.target {
        Some(t) => {
            r.append(", \"target\": \"");
            let esc = json_escape(t.as_str());
            r.append(esc.as_str());
            r.append("\"");
        },
        None => {},
    }
    r.append("}");
    assert(r@ =~= spec_event_json(e@));
    r
}

/// The byte-free model of a journal file: each entry one line, written in
/// order. The file offset at which entry `i` starts counts every earlier
/// entry plus its line feed.
pub open spec fn spec_offset(entries: Seq<Seq<char>>, i: int) -> int
    decreases i,
{
    if i <= 0 {
        0
    } else {
        spec_offset(entries, i - 1) + entries[i - 1].len() + 1
    }
}

/// The in-memory journal: entries once appended are never rewritten, as
/// the contract of [`Journal::append_event`] shows.
#[derive(Debug)]
pub struct Journal {
    pub entries: Vec<String>,
}

impl Journal {
    /// An empty journal.
    pub fn new() -> (j: Journal)
        ensures
            j.entries@.len() == 0,
    {
        Journal { entries: Vec::new() }
    }

    /// Appends one event as one JSON line; everything already written
    /// stays in place.
    pub fn append_event(&mut self, e: &Event)
        ensures
            final(self).entries@.len() == old(self).entries@.len() + 1,
            forall|i: int|
                0 <= i < old(self).entries@.len() ==> final(self).entries@[i] == old(
                    self,
                ).entries@[i],
            final(self).entries@.last()@ == spec_event_json(e@),
    {
        let line = event_to_json(e);
        self.entries.push(line);
    }

    /// The number of lines written so far.
    pub fn len(&self) -> (r: usize)
        ensures
            r == self.entries@.len(),
    {
        self.entries.len()
    }
}

/// Journal lines strictly increase in append offset: a later entry starts
/// strictly deeper in the file, since every line occupies at least its
/// line feed.
pub proof fn lemma_journal_offsets_increase(entries: Seq<Seq<char>>, i: int, j: int)
    requires
        0 <= i < j <= entries.len(),
    ensures
        spec_offset(entries, i) < spec_offset(entries, j),
    decreases j - i,
{
    if j == i + 1 {
    } else {
        lemma_journal_offsets_increase(entries, i, j - 1);
    }
}

} // verus!
