//! Topics: dotted routing keys used to match events to subscribers.
//!
//! A topic is either concrete (`build.done`) or a pattern: `*` in a segment
//! position matches any single segment, and a lone `*` matches every topic.

use vstd::prelude::*;

verus! {

/// A dotted routing key, concrete or glob-patterned.
#[derive(Debug, Clone, Eq, Hash)]
pub struct Topic(String);

impl View for Topic {
    type V = Seq<char>;

    closed spec fn view(&self) -> Seq<char> {
        self.0@
    }
}

impl PartialEq for Topic {
    fn eq(&self, other: &Topic) -> (r: bool) {
        self.0 == other.0
    }
}

impl vstd::std_specs::cmp::PartialEqSpecImpl for Topic {
    open spec fn obeys_eq_spec() -> bool {
        true
    }

    open spec fn eq_spec(&self, other: &Topic) -> bool {
        self@ == other@
    }
}

/// A lone `*`, the pattern that matches everything.
pub open spec fn is_global_pattern(p: Seq<char>) -> bool {
    p == seq!['*']
}

/// The segments of a dotted key, in order: splitting on `.` as `str::split`
/// does, so an empty key has one empty segment and every `.` adds a segment.
pub open spec fn segments(s: Seq<char>) -> Seq<Seq<char>>
    decreases s.len(),
{
    if s.len() == 0 {
        seq![Seq::<char>::empty()]
    } else {
        let rest = segments(s.drop_last());
        if s.last() == '.' {
            rest.push(Seq::<char>::empty())
        } else {
            rest.update(rest.len() - 1, rest.last().push(s.last()))
        }
    }
}

/// Every key has at least one segment.
pub proof fn lemma_segments_nonempty(s: Seq<char>)
    ensures
        segments(s).len() >= 1,
    decreases s.len(),
{
    if s.len() > 0 {
        lemma_segments_nonempty(s.drop_last());
    }
}

/// One pattern segment against one target segment.
pub open spec fn seg_matches(p: Seq<char>, t: Seq<char>) -> bool {
    p == seq!['*'] || p == t
}

/// The matching rule: a lone `*` matches everything; otherwise the segment
/// counts must agree and each pattern segment must be `*` or equal to the
/// target segment in its position.
pub open spec fn spec_matches(p: Seq<char>, t: Seq<char>) -> bool {
    ||| is_global_pattern(p)
    ||| {
        &&& segments(p).len() == segments(t).len()
        &&& forall|i: int|
            0 <= i < segments(p).len() ==> seg_matches(#[trigger] segments(p)[i], segments(t)[i])
    }
}

/// Splits a key into its segments.
fn split_key(s: &str) -> (r: Vec<String>)
    ensures
        r@.len() == segments(s@).len(),
        forall|i: int| 0 <= i < r@.len() ==> #[trigger] r@[i]@ == segments(s@)[i],
{
    let len = s.unicode_len();
    let mut done: Vec<String> = Vec::new();
    let mut cur = String::new();
    let mut i: usize = 0;
    while i < len
        invariant
            0 <= i <= len,
            len == s@.len(),
            done@.len() + 1 == segments(s@.take(i as int)).len(),
            forall|k: int|
                0 <= k < done@.len() ==> #[trigger] done@[k]@ == segments(s@.take(i as int))[k],
            cur@ == segments(s@.take(i as int)).last(),
        decreases len - i,
    {
        let c = s.get_char(i);
        proof {
            assert(s@.take(i + 1).drop_last() =~= s@.take(i as int));
            assert(s@.take(i + 1).last() == s@[i as int]);
            lemma_segments_nonempty(s@.take(i as int));
        }
        if c == '.' {
            done.push(cur);
            cur = String::new();
        } else {
            push_char_local(&mut cur, c);
        }
        i += 1;
    }
    proof {
        assert(s@.take(len as int) =~= s@);
        lemma_segments_nonempty(s@);
    }
    done.push(cur);
    done
}

fn push_char_local(s: &mut String, c: char)
    ensures
        final(s)@ == old(s)@.push(c),
{
    crate::text::push_char(s, c);
    assert(s@ =~= old(s)@.push(c));
}

impl Topic {
    /// Creates a new topic from a string.
    pub fn new(topic: String) -> (t: Topic)
        ensures
            t@ == topic@,
    {
        Topic(topic)
    }

    /// Returns the topic as a string slice.
    pub fn as_str(&self) -> (r: &str)
        ensures
            r@ == self@,
    {
        self.0.as_str()
    }

    /// Returns a copy with the same key.
    pub fn duplicate(&self) -> (t: Topic)
        ensures
            t@ == self@,
    {
        Topic(self.0.clone())
    }

    /// Returns true if this is a global wildcard (`*`) that matches
    /// everything. Global wildcards rank below specific subscriptions
    /// when routing.
    pub fn is_global_wildcard(&self) -> (r: bool)
        ensures
            r == is_global_pattern(self@),
    {
        let s = self.0.as_str();
        let r = s.unicode_len() == 1 && s.get_char(0) == '*';
        proof {
            if r {
                assert(self@ =~= seq!['*']);
            } else {
                if self@ == seq!['*'] {
                    assert(self@.len() == 1);
                }
            }
        }
        r
    }

    /// Checks if this topic pattern matches a given topic: a lone `*`
    /// matches everything, and otherwise segment counts must be equal with
    /// each pattern segment `*` or equal to its target segment.
    pub fn matches(&self, topic: &Topic) -> (r: bool)
        ensures
            r == spec_matches(self@, topic@),
    {
        if self.is_global_wildcard() {
            return true;
        }
        let ps = split_key(self.0.as_str());
        let ts = split_key(topic.0.as_str());
        if ps.len() != ts.len() {
            return false;
        }
        let n = ps.len();
        let mut i: usize = 0;
        while i < n
            invariant
                0 <= i <= n,
                n == ps.len() == ts.len(),
                !is_global_pattern(self@),
                ps@.len() == segments(self@).len(),
                forall|k: int| 0 <= k < n ==> #[trigger] ps@[k]@ == segments(self@)[k],
                ts@.len() == segments(topic@).len(),
                forall|k: int| 0 <= k < n ==> #[trigger] ts@[k]@ == segments(topic@)[k],
                forall|k: int|
                    0 <= k < i ==> seg_matches(#[trigger] segments(self@)[k], segments(topic@)[k]),
            decreases n - i,
        {
            let pstr = ps[i].as_str();
            let plen = pstr.unicode_len();
            let is_star = if plen == 1 {
                pstr.get_char(0) == '*'
            } else {
                false
            };
            proof {
                if is_star {
                    assert(ps@[i as int]@ =~= seq!['*']);
                } else {
                    assert(ps@[i as int]@ != seq!['*']) by {
                        if ps@[i as int]@ == seq!['*'] {
                            assert(ps@[i as int]@.len() == 1);
                            assert(ps@[i as int]@[0] == '*');
                        }
                    }
                }
            }
            if !is_star {
                if !(ps[i] == ts[i]) {
                    proof {
                        let gi = i as int;
                        assert(!seg_matches(segments(self@)[gi], segments(topic@)[gi]));
                    }
                    return false;
                }
            }
            i += 1;
        }
        true
    }
}

/// A lone `*` matches every topic.
pub proof fn lemma_global_matches(p: Seq<char>, t: Seq<char>)
    requires
        is_global_pattern(p),
    ensures
        spec_matches(p, t),
{
}

/// A match by anything other than the lone `*` forces the segment counts
/// to agree.
pub proof fn lemma_match_segment_count(p: Seq<char>, t: Seq<char>)
    requires
        spec_matches(p, t),
        !is_global_pattern(p),
    ensures
        segments(p).len() == segments(t).len(),
{
}

/// Matching is reflexive: every topic matches itself.
pub proof fn lemma_matches_reflexive(t: Seq<char>)
    ensures
        spec_matches(t, t),
{
}

} // verus!
