use vstd::prelude::*;

use crate::chapter::{Chapter, Relationship};
use crate::text::str_eq;

verus! {

/// The ids of the groups credited in one chapter's relationships, in order.
pub open spec fn group_ids_spec(rels: Seq<Relationship>) -> Seq<String>
    decreases rels.len(),
{
    if rels.len() == 0 {
        Seq::empty()
    } else if rels.last().type_field@ == "scanlation_group"@ {
        group_ids_spec(rels.drop_last()).push(rels.last().id)
    } else {
        group_ids_spec(rels.drop_last())
    }
}

/// The ids of the groups credited in one chapter, in relationship order.
pub fn groups_in_chapter(c: &Chapter) -> (r: Vec<String>)
    ensures
        r@ == group_ids_spec(c.relationships@),
{
    let mut out: Vec<String> = Vec::new();
    let mut i: usize = 0;
    proof {
        assert(c.relationships@.take(0) =~= Seq::<Relationship>::empty());
    }
    while i < c.relationships.len()
        invariant
            0 <= i <= c.relationships@.len(),
            out@ == group_ids_spec(c.relationships@.take(i as int)),
        decreases c.relationships@.len() - i,
    {
        let rel = &c.relationships[i];
        if str_eq(rel.type_field.as_str(), "scanlation_group") {
            out.push(rel.id.clone());
        }
        proof {
            let t = c.relationships@.take(i + 1);
            assert(t.drop_last() =~= c.relationships@.take(i as int));
            assert(t.last() == c.relationships@[i as int]);
        }
        i += 1;
    }
    proof {
        assert(c.relationships@.take(c.relationships@.len() as int) =~= c.relationships@);
    }
    out
}

/// The display name a cache holds for a group id, if any; the earliest entry
/// for an id wins, and merging never displaces an existing entry.
pub open spec fn cache_find(entries: Seq<(String, String)>, id: Seq<char>) -> Option<Seq<char>>
    decreases entries.len(),
{
    if entries.len() == 0 {
        None
    } else if entries[0].0@ == id {
        Some(entries[0].1@)
    } else {
        cache_find(entries.drop_first(), id)
    }
}

/// A lookup in concatenated entries takes the left part's answer when it has
/// one, else the right part's.
proof fn lemma_cache_find_append(a: Seq<(String, String)>, b: Seq<(String, String)>, id: Seq<char>)
    ensures
        cache_find(a + b, id) == (if cache_find(a, id) is Some {
            cache_find(a, id)
        } else {
            cache_find(b, id)
        }),
    decreases a.len(),
{
    if a.len() == 0 {
        assert(a + b =~= b);
    } else {
        assert((a + b)[0] == a[0]);
        assert((a + b).drop_first() =~= a.drop_first() + b);
        lemma_cache_find_append(a.drop_first(), b, id);
    }
}

/// The per-process cache of group display names, owned by the orchestrator
/// and passed by reference into lookups. Population is a single batched
/// round trip over the deduplicated miss set, merged in with `insert_all`.
#[derive(Debug, Clone)]
pub struct GroupCache {
    pub entries: Vec<(String, String)>,
}

impl GroupCache {
    /// An empty cache.
    pub fn new() -> (r: GroupCache)
        ensures
            r.entries@.len() == 0,
    {
        GroupCache { entries: Vec::new() }
    }

    /// Looks up the display name cached for one group id.
    pub fn find(&self, id: &str) -> (r: Option<String>)
        ensures
            r is Some <==> cache_find(self.entries@, id@) is Some,
            r matches Some(v) ==> cache_find(self.entries@, id@) == Some(v@),
    {
        let n = self.entries.len();
        let mut i: usize = 0;
        proof {
            assert(self.entries@.skip(0) =~= self.entries@);
        }
        while i < n
            invariant
                n == self.entries@.len(),
                0 <= i <= n,
                cache_find(self.entries@, id@) == cache_find(self.entries@.skip(i as int), id@),
            decreases n - i,
        {
            proof {
                assert(self.entries@.skip(i as int)[0] == self.entries@[i as int]);
                assert(self.entries@.skip(i as int).drop_first() =~= self.entries@.skip(i + 1));
            }
            if str_eq(self.entries[i].0.as_str(), id) {
                return Some(self.entries[i].1.clone());
            }
            i += 1;
        }
        proof {
            assert(self.entries@.skip(n as int).len() == 0);
        }
        None
    }

    /// The deduplicated ids among `wanted` that the cache does not hold yet:
    /// the set to fetch in one round trip.
    pub fn missing_ids(&self, wanted: &Vec<String>) -> (r: Vec<String>)
        ensures
            forall|k: int|
                0 <= k < r@.len() ==> cache_find(self.entries@, (#[trigger] r@[k])@) is None && (
                exists|i: int| 0 <= i < wanted@.len() && (#[trigger] wanted@[i])@ == r@[k]@),
            forall|i: int|
                0 <= i < wanted@.len() && cache_find(self.entries@, (#[trigger] wanted@[i])@)
                    is None ==> exists|k: int| 0 <= k < r@.len() && (#[trigger] r@[k])@ == wanted@[i]@,
            forall|k1: int, k2: int|
                0 <= k1 < k2 < r@.len() ==> (#[trigger] r@[k1])@ != (#[trigger] r@[k2])@,
    {
        let mut out: Vec<String> = Vec::new();
        let mut i: usize = 0;
        while i < wanted.len()
            invariant
                0 <= i <= wanted@.len(),
                forall|k: int|
                    0 <= k < out@.len() ==> cache_find(self.entries@, (#[trigger] out@[k])@)
                        is None && (exists|t: int|
                        0 <= t < wanted@.len() && (#[trigger] wanted@[t])@ == out@[k]@),
                forall|t: int|
                    0 <= t < i && cache_find(self.entries@, (#[trigger] wanted@[t])@) is None
                        ==> exists|k: int| 0 <= k < out@.len() && (#[trigger] out@[k])@ == wanted@[t]@,
                forall|k1: int, k2: int|
                    0 <= k1 < k2 < out@.len() ==> (#[trigger] out@[k1])@ != (#[trigger] out@[k2])@,
            decreases wanted@.len() - i,
        {
            let ghost before = out@;
            let id = &wanted[i];
            let missing = self.find(id.as_str()).is_none();
            let duplicate = crate::text::vec_contains_str(&out, id.as_str());
            if missing && !duplicate {
                out.push(id.clone());
            }
            proof {
                assert forall|t: int|
                    0 <= t < i + 1 && cache_find(self.entries@, (#[trigger] wanted@[t])@)
                        is None implies exists|k: int|
                    0 <= k < out@.len() && (#[trigger] out@[k])@ == wanted@[t]@ by {
                    if t < i {
                        let k = choose|k: int|
                            0 <= k < before.len() && (#[trigger] before[k])@ == wanted@[t]@;
                        assert(out@[k]@ == wanted@[t]@);
                    } else if duplicate {
                        let k = choose|k: int|
                            0 <= k < before.len() && (#[trigger] before[k])@ == wanted@[i as int]@;
                        assert(out@[k]@ == wanted@[t]@);
                    } else {
                        assert(out@[out@.len() - 1]@ == wanted@[t]@);
                    }
                }
            }
            i += 1;
        }
        out
    }

    /// Merges one fetched batch of (id, display name) pairs into the cache.
    /// Answers the cache already gave are never changed; every fetched id
    /// can be found afterwards; and an id the cache did not know resolves to
    /// the name of the first fetched pair carrying it.
    pub fn insert_all(&mut self, fetched: Vec<(String, String)>)
        ensures
            forall|s: Seq<char>|
                #[trigger] cache_find(old(self).entries@, s) is Some ==> cache_find(
                    final(self).entries@,
                    s,
                ) == cache_find(old(self).entries@, s),
            forall|j: int|
                0 <= j < fetched@.len() ==> cache_find(
                    final(self).entries@,
                    (#[trigger] fetched@[j]).0@,
                ) is Some,
            forall|j: int|
                (0 <= j < fetched@.len() && cache_find(
                    old(self).entries@,
                    (#[trigger] fetched@[j]).0@,
                ) is None && (forall|t: int| 0 <= t < j ==> fetched@[t].0@ != fetched@[j].0@))
                    ==> cache_find(final(self).entries@, fetched@[j].0@) == Some(fetched@[j].1@),
    {
        let n = fetched.len();
        let mut i: usize = 0;
        while i < n
            invariant
                n == fetched@.len(),
                0 <= i <= n,
                forall|s: Seq<char>|
                    #[trigger] cache_find(old(self).entries@, s) is Some ==> cache_find(
                        self.entries@,
                        s,
                    ) == cache_find(old(self).entries@, s),
                forall|j: int|
                    0 <= j < i ==> cache_find(self.entries@, (#[trigger] fetched@[j]).0@) is Some,
                forall|s: Seq<char>|
                    (cache_find(old(self).entries@, s) is None && #[trigger] cache_find(
                        self.entries@,
                        s,
                    ) is Some) ==> exists|t: int| 0 <= t < i && (#[trigger] fetched@[t]).0@ == s,
                forall|j: int|
                    (0 <= j < i && cache_find(old(self).entries@, (#[trigger] fetched@[j]).0@)
                        is None && (forall|t: int| 0 <= t < j ==> fetched@[t].0@ != fetched@[j].0@))
                        ==> cache_find(self.entries@, fetched@[j].0@) == Some(fetched@[j].1@),
            decreases n - i,
        {
            let ghost before = self.entries@;
            let ghost id = fetched@[i as int].0@;
            let id_cached = self.find(fetched[i].0.as_str()).is_some();
            if !id_cached {
                let ghost single = seq![(fetched@[i as int].0, fetched@[i as int].1)];
                let pair = (fetched[i].0.clone(), fetched[i].1.clone());
                self.entries.push(pair);
                proof {
                    assert(self.entries@ =~= before + single);
                    assert(single.drop_first() =~= Seq::<(String, String)>::empty());
                    assert forall|s: Seq<char>| #[trigger] cache_find(before, s) is Some implies {
                        &&& cache_find(self.entries@, s) == cache_find(before, s)
                    } by {
                        lemma_cache_find_append(before, single, s);
                    }
                    assert(cache_find(self.entries@, id) == Some(fetched@[i as int].1@)) by {
                        lemma_cache_find_append(before, single, id);
                    }
                    assert forall|s: Seq<char>|
                        (cache_find(before, s) is None && #[trigger] cache_find(
                            self.entries@,
                            s,
                        ) is Some) implies s == id by {
                        lemma_cache_find_append(before, single, s);
                        assert(cache_find(single.drop_first(), s) is None);
                    }
                }
            }
            proof {
                assert forall|j: int| 0 <= j < i + 1 implies cache_find(
                    self.entries@,
                    (#[trigger] fetched@[j]).0@,
                ) is Some by {
                    if j == i && id_cached {
                        assert(cache_find(before, id) is Some);
                    }
                }
                assert forall|j: int|
                    (0 <= j < i + 1 && cache_find(old(self).entries@, (#[trigger] fetched@[j]).0@)
                        is None && (forall|t: int|
                        0 <= t < j ==> fetched@[t].0@ != fetched@[j].0@)) implies cache_find(
                    self.entries@,
                    fetched@[j].0@,
                ) == Some(fetched@[j].1@) by {
                    if j == i && id_cached {
                        assert(cache_find(before, id) is Some);
                        let t = choose|t: int|
                            0 <= t < i && (#[trigger] fetched@[t]).0@ == id;
                        assert(false);
                    }
                }
            }
            i += 1;
        }
    }

    /// The display names the cache holds for a list of ids, skipping ids it
    /// does not know, in input order.
    pub fn resolved_names(&self, ids: &Vec<String>) -> (r: Vec<String>)
        ensures
            crate::text::views_of(r@) == resolved_names_spec(self.entries@, ids@),
    {
        let mut out: Vec<String> = Vec::new();
        let mut i: usize = 0;
        proof {
            assert(ids@.take(0) =~= Seq::<String>::empty());
            assert(crate::text::views_of(out@) =~= resolved_names_spec(
                self.entries@,
                ids@.take(0),
            ));
        }
        while i < ids.len()
            invariant
                0 <= i <= ids@.len(),
                crate::text::views_of(out@) == resolved_names_spec(
                    self.entries@,
                    ids@.take(i as int),
                ),
            decreases ids@.len() - i,
        {
            let ghost before = out@;
            match self.find(ids[i].as_str()) {
                Some(name) => {
                    out.push(name);
                },
                None => {},
            }
            proof {
                let t = ids@.take(i + 1);
                assert(t.drop_last() =~= ids@.take(i as int));
                assert(t.last() == ids@[i as int]);
                assert(crate::text::views_of(out@) =~= resolved_names_spec(
                    self.entries@,
                    t,
                ));
            }
            i += 1;
        }
        proof {
            assert(ids@.take(ids@.len() as int) =~= ids@);
        }
        out
    }
}

/// The cached display names for a list of ids, unknown ids skipped.
pub open spec fn resolved_names_spec(entries: Seq<(String, String)>, ids: Seq<String>) -> Seq<
    Seq<char>,
>
    decreases ids.len(),
{
    if ids.len() == 0 {
        Seq::empty()
    } else {
        match cache_find(entries, ids.last()@) {
            Some(name) => resolved_names_spec(entries, ids.drop_last()).push(name),
            None => resolved_names_spec(entries, ids.drop_last()),
        }
    }
}

} // verus!
