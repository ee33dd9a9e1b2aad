//! Free-form key/value tags of a map element.
use vstd::prelude::*;

use crate::text::text_eq;

verus! {

/// The map that a list of tag entries denotes: a later entry for a key
/// replaces an earlier one.
pub open spec fn tag_map(entries: Seq<(String, String)>) -> Map<Seq<char>, Seq<char>>
    decreases entries.len(),
{
    if entries.len() == 0 {
        Map::empty()
    } else {
        tag_map(entries.drop_last()).insert(entries.last().0@, entries.last().1@)
    }
}

/// The value that `tags` holds for `key`, if any.
pub open spec fn tag(tags: Map<Seq<char>, Seq<char>>, key: Seq<char>) -> Option<Seq<char>> {
    if tags.contains_key(key) {
        Some(tags[key])
    } else {
        None
    }
}

/// Entries past `i` that do not hold `key` leave its lookup to the first `i` entries.
proof fn lemma_tag_map_prefix(entries: Seq<(String, String)>, i: int, key: Seq<char>)
    requires
        0 <= i <= entries.len(),
        forall|j: int| i <= j < entries.len() ==> (#[trigger] entries[j]).0@ != key,
    ensures
        tag(tag_map(entries), key) == tag(tag_map(entries.subrange(0, i)), key),
    decreases entries.len(),
{
    if i < entries.len() {
        let rest = entries.drop_last();
        assert(rest.subrange(0, i) =~= entries.subrange(0, i));
        assert forall|j: int| i <= j < rest.len() implies (#[trigger] rest[j]).0@ != key by {
            assert(rest[j] == entries[j]);
        }
        lemma_tag_map_prefix(rest, i, key);
    } else {
        assert(entries.subrange(0, i) =~= entries);
    }
}

/// A set of tags; each key has at most one value.
#[derive(Clone, Debug)]
pub struct Tags {
    entries: Vec<(String, String)>,
}

impl View for Tags {
    type V = Map<Seq<char>, Seq<char>>;

    closed spec fn view(&self) -> Map<Seq<char>, Seq<char>> {
        tag_map(self.entries@)
    }
}

impl Tags {
    /// No tags.
    pub fn new() -> (r: Tags)
        ensures
            r@ == Map::<Seq<char>, Seq<char>>::empty(),
    {
        Tags { entries: Vec::new() }
    }

    /// Sets `key` to `value`, replacing any earlier value of `key`.
    pub fn insert(&mut self, key: String, value: String)
        ensures
            final(self)@ == old(self)@.insert(key@, value@),
    {
        self.entries.push((key, value));
        proof {
            assert(self.entries@.drop_last() =~= old(self).entries@);
        }
    }

    /// The value of `key`, if present.
    pub fn get(&self, key: &str) -> (r: Option<&String>)
        ensures
            r matches Some(v) ==> tag(self@, key@) == Some(v@),
            r is None ==> tag(self@, key@) is None,
    {
        let mut i: usize = self.entries.len();
        while i > 0
            invariant
                i <= self.entries@.len(),
                forall|j: int| i <= j < self.entries@.len() ==> (#[trigger] self.entries@[j]).0@
                    != key@,
            decreases i,
        {
            let entry = &self.entries[i - 1];
            if text_eq(entry.0.as_str(), key) {
                proof {
                    lemma_tag_map_prefix(self.entries@, i as int, key@);
                    assert(self.entries@.subrange(0, i as int).drop_last() =~= self.entries@.subrange(
                        0,
                        i - 1,
                    ));
                }
                return Some(&entry.1);
            }
            i = i - 1;
        }
        proof {
            lemma_tag_map_prefix(self.entries@, 0, key@);
            assert(self.entries@.subrange(0, 0) =~= Seq::<(String, String)>::empty());
        }
        None
    }

    /// Whether `key` has a value.
    pub fn contains_key(&self, key: &str) -> (r: bool)
        ensures
            r == self@.contains_key(key@),
    {
        self.get(key).is_some()
    }
}

} // verus!
