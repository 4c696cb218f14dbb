//! Ordered key/value lists and the map they denote.
//!
//! A list is read front to back; an entry further back replaces every
//! earlier entry with the same key.

use config::Value;
use vstd::prelude::*;

verus! {

/// `config::Value`, carried through the library without looking inside.
#[verifier::external_type_specification]
#[verifier::external_body]
pub struct ExValue(config::Value);

/// The map a list of entries denotes: entries are applied in order, so the
/// last entry for a key decides its value.
pub open spec fn entries_map(s: Seq<(String, Value)>) -> Map<Seq<char>, Value>
    decreases s.len(),
{
    if s.len() == 0 {
        Map::empty()
    } else {
        entries_map(s.drop_last()).insert(s.last().0@, s.last().1)
    }
}

/// No key occurs twice in the list.
pub open spec fn keys_distinct(s: Seq<(String, Value)>) -> bool {
    forall|i: int, j: int| 0 <= i < j < s.len() ==> s[i].0@ != s[j].0@
}

/// Appending a list applies its entries on top of what was there.
pub proof fn lemma_entries_map_concat(a: Seq<(String, Value)>, b: Seq<(String, Value)>)
    ensures
        entries_map(a + b) == entries_map(a).union_prefer_right(entries_map(b)),
    decreases b.len(),
{
    if b.len() == 0 {
        assert(a + b =~= a);
        assert(entries_map(a).union_prefer_right(Map::empty()) =~= entries_map(a));
    } else {
        lemma_entries_map_concat(a, b.drop_last());
        assert((a + b).drop_last() =~= a + b.drop_last());
        assert((a + b).last() == b.last());
        assert(entries_map(a).union_prefer_right(entries_map(b.drop_last())).insert(
            b.last().0@,
            b.last().1,
        ) =~= entries_map(a).union_prefer_right(entries_map(b)));
    }
}

/// Entries from position `i` on that do not carry `key` leave its lookup to
/// the first `i` entries.
pub proof fn lemma_entries_map_skip(s: Seq<(String, Value)>, key: Seq<char>, i: int)
    requires
        0 <= i <= s.len(),
        forall|k: int| i <= k < s.len() ==> s[k].0@ != key,
    ensures
        entries_map(s).dom().contains(key) == entries_map(s.take(i)).dom().contains(key),
        entries_map(s).dom().contains(key) ==> entries_map(s)[key] == entries_map(s.take(i))[key],
    decreases s.len() - i,
{
    if i == s.len() {
        assert(s.take(i) =~= s);
    } else {
        lemma_entries_map_skip(s.drop_last(), key, i);
        assert(s.drop_last().take(i) =~= s.take(i));
    }
}

/// The value stored under `key`, if any: the last entry with that key.
pub fn lookup<'a>(entries: &'a Vec<(String, Value)>, key: &str) -> (r: Option<&'a Value>)
    ensures
        r is Some <==> entries_map(entries@).dom().contains(key@),
        r is Some ==> *r.unwrap() == entries_map(entries@)[key@],
{
    let wanted = key.to_owned();
    let mut i: usize = entries.len();
    while i > 0
        invariant
            i <= entries.len(),
            wanted@ == key@,
            forall|k: int| i <= k < entries.len() ==> entries@[k].0@ != key@,
        decreases i,
    {
        i = i - 1;
        if entries[i].0 == wanted {
            proof {
                lemma_entries_map_skip(entries@, key@, i + 1);
                assert(entries@.take(i + 1).drop_last() =~= entries@.take(i as int));
            }
            return Some(&entries[i].1);
        }
    }
    proof {
        lemma_entries_map_skip(entries@, key@, 0);
        assert(entries@.take(0) =~= Seq::empty());
    }
    None
}

} // verus!
