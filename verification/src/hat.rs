//! Hats and the hat registry: role definitions with subscribe/publish
//! contracts, and the resolver that routes a topic to the hats whose
//! subscriptions match, specific matches ranked before global wildcards.

use vstd::prelude::*;
use crate::event::HatId;
use crate::topic::{is_global_pattern, spec_matches, Topic};

verus! {

/// A role definition: identifier, display name, the topic patterns it
/// responds to, the topics it may emit, and optional explicit
/// instructions.
#[derive(Debug, Clone)]
pub struct Hat {
    pub id: HatId,
    pub name: String,
    pub subscriptions: Vec<Topic>,
    pub publishes: Vec<Topic>,
    pub instructions: String,
}

impl Hat {
    /// A hat with no subscriptions, no publishes, and no instructions.
    pub fn new(id: String, name: String) -> (h: Hat)
        ensures
            h.id@ == id@,
            h.name@ == name@,
            h.subscriptions@.len() == 0,
            h.publishes@.len() == 0,
            h.instructions@.len() == 0,
    {
        Hat {
            id: HatId::new(id),
            name,
            subscriptions: Vec::new(),
            publishes: Vec::new(),
            instructions: String::new(),
        }
    }

    /// Replaces the explicit instructions.
    pub fn with_instructions(self, instructions: String) -> (h: Hat)
        ensures
            h == (Hat { instructions, ..self }),
    {
        Hat { instructions, ..self }
    }

    /// Replaces the subscription patterns.
    pub fn with_subscriptions(self, subscriptions: Vec<Topic>) -> (h: Hat)
        ensures
            h == (Hat { subscriptions, ..self }),
    {
        Hat { subscriptions, ..self }
    }

    /// Replaces the published topics.
    pub fn with_publishes(self, publishes: Vec<Topic>) -> (h: Hat)
        ensures
            h == (Hat { publishes, ..self }),
    {
        Hat { publishes, ..self }
    }
}

/// The hat subscribes to `t` through a non-wildcard (specific) pattern.
pub open spec fn spec_subscribes_specific(h: Hat, t: Seq<char>) -> bool {
    exists|k: int|
        0 <= k < h.subscriptions@.len() && spec_matches(#[trigger] h.subscriptions@[k]@, t)
            && !is_global_pattern(h.subscriptions@[k]@)
}

/// The hat holds a global wildcard subscription.
pub open spec fn spec_subscribes_global(h: Hat) -> bool {
    exists|k: int|
        0 <= k < h.subscriptions@.len() && is_global_pattern(#[trigger] h.subscriptions@[k]@)
}

/// The identifiers of the hats that subscribe to `t` specifically, in
/// registration order.
pub open spec fn spec_specific_subscribers(hats: Seq<Hat>, t: Seq<char>) -> Seq<Seq<char>>
    decreases hats.len(),
{
    if hats.len() == 0 {
        Seq::empty()
    } else {
        spec_specific_subscribers(hats.drop_last(), t) + if spec_subscribes_specific(
            hats.last(),
            t,
        ) {
            seq![hats.last().id@]
        } else {
            Seq::empty()
        }
    }
}

/// The identifiers of the hats that reach `t` only through a global
/// wildcard, in registration order.
pub open spec fn spec_global_subscribers(hats: Seq<Hat>, t: Seq<char>) -> Seq<Seq<char>>
    decreases hats.len(),
{
    if hats.len() == 0 {
        Seq::empty()
    } else {
        spec_global_subscribers(hats.drop_last(), t) + if spec_subscribes_global(hats.last())
            && !spec_subscribes_specific(hats.last(), t) {
            seq![hats.last().id@]
        } else {
            Seq::empty()
        }
    }
}

/// The resolver's answer for `t`: every specific subscriber first, then
/// every hat that only a global wildcard brings in, each group in
/// registration order. A global wildcard never overrides a specific hat.
pub open spec fn spec_subscribers(hats: Seq<Hat>, t: Seq<char>) -> Seq<Seq<char>> {
    spec_specific_subscribers(hats, t) + spec_global_subscribers(hats, t)
}

/// Whether `h` subscribes to `t` through a specific pattern.
fn hat_matches_specific(h: &Hat, t: &Topic) -> (r: bool)
    ensures
        r == spec_subscribes_specific(*h, t@),
{
    let mut j: usize = 0;
    while j < h.subscriptions.len()
        invariant
            0 <= j <= h.subscriptions@.len(),
            forall|k: int|
                0 <= k < j ==> !(spec_matches(#[trigger] h.subscriptions@[k]@, t@)
                    && !is_global_pattern(h.subscriptions@[k]@)),
        decreases h.subscriptions@.len() - j,
    {
        if h.subscriptions[j].matches(t) && !h.subscriptions[j].is_global_wildcard() {
            return true;
        }
        j += 1;
    }
    false
}

/// Whether `h` holds a global wildcard subscription.
fn hat_has_global(h: &Hat) -> (r: bool)
    ensures
        r == spec_subscribes_global(*h),
{
    let mut j: usize = 0;
    while j < h.subscriptions.len()
        invariant
            0 <= j <= h.subscriptions@.len(),
            forall|k: int| 0 <= k < j ==> !is_global_pattern(#[trigger] h.subscriptions@[k]@),
        decreases h.subscriptions@.len() - j,
    {
        if h.subscriptions[j].is_global_wildcard() {
            return true;
        }
        j += 1;
    }
    false
}

/// Mapping `HatId → Hat` in registration order, with the resolver.
#[derive(Debug)]
pub struct HatRegistry {
    pub hats: Vec<Hat>,
}

impl HatRegistry {
    /// An empty registry.
    pub fn new() -> (r: HatRegistry)
        ensures
            r.hats@.len() == 0,
    {
        HatRegistry { hats: Vec::new() }
    }

    /// True when no hat is registered.
    pub fn is_empty(&self) -> (r: bool)
        ensures
            r == (self.hats@.len() == 0),
    {
        self.hats.len() == 0
    }

    /// Registers one hat at the end of the order.
    pub fn add(&mut self, hat: Hat)
        ensures
            final(self).hats@ == old(self).hats@.push(hat),
    {
        self.hats.push(hat);
    }

    /// The registered hats, in registration order.
    pub fn all(&self) -> (r: &Vec<Hat>)
        ensures
            r == &self.hats,
    {
        &self.hats
    }

    /// Whether a hat with this identifier is registered.
    pub fn contains_id(&self, id: &str) -> (r: bool)
        ensures
            r == exists|k: int| 0 <= k < self.hats@.len() && (#[trigger] self.hats@[k].id)@ == id@,
    {
        let mut i: usize = 0;
        while i < self.hats.len()
            invariant
                0 <= i <= self.hats@.len(),
                forall|k: int| 0 <= k < i ==> (#[trigger] self.hats@[k].id)@ != id@,
            decreases self.hats@.len() - i,
        {
            if string_eq_str(self.hats[i].id.as_str(), id) {
                return true;
            }
            i += 1;
        }
        false
    }

    /// The ordered list of hats whose subscriptions match the topic:
    /// specific (non-wildcard) matches first, then hats that only a
    /// global wildcard brings in, each group in registration order.
    pub fn subscribers_of(&self, topic: &Topic) -> (r: Vec<HatId>)
        ensures
            r@.map_values(|h: HatId| h@) == spec_subscribers(self.hats@, topic@),
    {
        let mut result: Vec<HatId> = Vec::new();
        let mut i: usize = 0;
        while i < self.hats.len()
            invariant
                0 <= i <= self.hats@.len(),
                result@.map_values(|h: HatId| h@) =~= spec_specific_subscribers(
                    self.hats@.subrange(0, i as int),
                    topic@,
                ),
            decreases self.hats@.len() - i,
        {
            let ghost prefix = self.hats@.subrange(0, i as int);
            if hat_matches_specific(&self.hats[i], topic) {
                result.push(self.hats[i].id.duplicate());
            }
            proof {
                assert(self.hats@.subrange(0, i + 1).drop_last() =~= prefix);
                assert(self.hats@.subrange(0, i + 1).last() == self.hats@[i as int]);
            }
            i += 1;
        }
        proof {
            assert(self.hats@.subrange(0, self.hats@.len() as int) =~= self.hats@);
        }
        let ghost specifics = result@;
        let mut i: usize = 0;
        while i < self.hats.len()
            invariant
                0 <= i <= self.hats@.len(),
                specifics.map_values(|h: HatId| h@) == spec_specific_subscribers(
                    self.hats@,
                    topic@,
                ),
                result@.map_values(|h: HatId| h@) =~= spec_specific_subscribers(
                    self.hats@,
                    topic@,
                ) + spec_global_subscribers(self.hats@.subrange(0, i as int), topic@),
            decreases self.hats@.len() - i,
        {
            let ghost prefix = self.hats@.subrange(0, i as int);
            let ghost prev = result@;
            let h_global = hat_has_global(&self.hats[i]);
            let h_specific = hat_matches_specific(&self.hats[i], topic);
            if h_global && !h_specific {
                result.push(self.hats[i].id.duplicate());
                proof {
                    assert(result@.map_values(|h: HatId| h@) =~= prev.map_values(
                        |h: HatId| h@,
                    ).push(self.hats@[i as int].id@));
                }
            }
            proof {
                assert(self.hats@.subrange(0, i + 1).drop_last() =~= prefix);
                assert(self.hats@.subrange(0, i + 1).last() == self.hats@[i as int]);
            }
            i += 1;
        }
        proof {
            assert(self.hats@.subrange(0, self.hats@.len() as int) =~= self.hats@);
        }
        result
    }
}

/// Compares two string slices character by character.
pub fn string_eq_str(a: &str, b: &str) -> (r: bool)
    ensures
        r == (a@ == b@),
{
    let alen = a.unicode_len();
    let blen = b.unicode_len();
    if alen != blen {
        return false;
    }
    let mut i: usize = 0;
    while i < alen
        invariant
            0 <= i <= alen,
            alen == a@.len(),
            alen == b@.len(),
            forall|k: int| 0 <= k < i ==> a@[k] == b@[k],
        decreases alen - i,
    {
        if a.get_char(i) != b.get_char(i) {
            assert(a@ != b@);
            return false;
        }
        i += 1;
    }
    assert(a@ =~= b@);
    true
}

} // verus!
