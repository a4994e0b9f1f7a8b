//! Muscle-group tallies.
//!
//! A distribution is a list of `(group name, set count)` entries with
//! pairwise distinct names: an association list standing for a finite map
//! from group name to accumulated sets. Iteration order carries no meaning;
//! the contracts speak of the map the entries denote.

use vstd::prelude::*;

verus! {

/// One muscle group's accumulated set count.
#[derive(Clone, Debug)]
pub struct GroupSets {
    pub name: String,
    pub sets: u64,
}

/// The entries as a map from group name to set count.
pub open spec fn entries_map(s: Seq<GroupSets>) -> Map<Seq<char>, int>
    decreases s.len(),
{
    if s.len() == 0 {
        Map::empty()
    } else {
        entries_map(s.drop_last()).insert(s.last().name@, s.last().sets as int)
    }
}

/// No group name occurs twice among the entries.
pub open spec fn entries_unique(s: Seq<GroupSets>) -> bool {
    forall|i: int, j: int| 0 <= i < j < s.len() ==> s[i].name@ != s[j].name@
}

/// The sum of all set counts in the entries.
pub open spec fn entries_total(s: Seq<GroupSets>) -> int
    decreases s.len(),
{
    if s.len() == 0 {
        0
    } else {
        entries_total(s.drop_last()) + s.last().sets
    }
}

/// Adding `k` sets for group `g` to a tally map.
pub open spec fn tally_add(m: Map<Seq<char>, int>, g: Seq<char>, k: int) -> Map<Seq<char>, int> {
    if m.dom().contains(g) {
        m.insert(g, m[g] + k)
    } else {
        m.insert(g, k)
    }
}

/// Every entry's count is what the denoted map gives for its name.
pub proof fn lemma_entries_get(s: Seq<GroupSets>, i: int)
    requires
        entries_unique(s),
        0 <= i < s.len(),
    ensures
        entries_map(s).dom().contains(s[i].name@),
        entries_map(s)[s[i].name@] == s[i].sets as int,
    decreases s.len(),
{
    if i == s.len() - 1 {
    } else {
        assert(entries_unique(s.drop_last()));
        assert(s.drop_last()[i] == s[i]);
        lemma_entries_get(s.drop_last(), i);
        assert(s[i].name@ != s.last().name@);
    }
}

/// A name is in the denoted map exactly when some entry carries it.
pub proof fn lemma_entries_dom(s: Seq<GroupSets>, g: Seq<char>)
    ensures
        entries_map(s).dom().contains(g) <==> exists|i: int|
            0 <= i < s.len() && s[i].name@ == g,
    decreases s.len(),
{
    if s.len() == 0 {
    } else {
        lemma_entries_dom(s.drop_last(), g);
        if s.last().name@ == g {
            assert(s[s.len() - 1].name@ == g);
        } else {
            if entries_map(s).dom().contains(g) {
                let i = choose|i: int| 0 <= i < s.drop_last().len() && s.drop_last()[i].name@ == g;
                assert(s[i].name@ == g);
            }
            if exists|i: int| 0 <= i < s.len() && s[i].name@ == g {
                let i = choose|i: int| 0 <= i < s.len() && s[i].name@ == g;
                assert(i < s.len() - 1);
                assert(s.drop_last()[i].name@ == g);
            }
        }
    }
}

/// Set counts are nonnegative, so each entry is at most the total.
pub proof fn lemma_entry_le_total(s: Seq<GroupSets>, i: int)
    requires
        0 <= i < s.len(),
    ensures
        entries_total(s) >= 0,
        s[i].sets as int <= entries_total(s),
    decreases s.len(),
{
    lemma_total_nonneg(s);
    if i == s.len() - 1 {
        lemma_total_nonneg(s.drop_last());
    } else {
        assert(s.drop_last()[i] == s[i]);
        lemma_entry_le_total(s.drop_last(), i);
    }
}

/// The total of the entries is nonnegative.
pub proof fn lemma_total_nonneg(s: Seq<GroupSets>)
    ensures
        entries_total(s) >= 0,
    decreases s.len(),
{
    if s.len() > 0 {
        lemma_total_nonneg(s.drop_last());
    }
}

/// Replacing entry `i` by one with the same name and `k` more sets denotes
/// adding `k` under that name.
proof fn lemma_entries_update(s: Seq<GroupSets>, i: int, e: GroupSets, k: int)
    requires
        entries_unique(s),
        0 <= i < s.len(),
        e.name@ == s[i].name@,
        e.sets as int == s[i].sets as int + k,
    ensures
        entries_unique(s.update(i, e)),
        entries_map(s.update(i, e)) == tally_add(entries_map(s), s[i].name@, k),
        entries_total(s.update(i, e)) == entries_total(s) + k,
    decreases s.len(),
{
    let s2 = s.update(i, e);
    let g = s[i].name@;
    lemma_entries_get(s, i);
    if i == s.len() - 1 {
        assert(s2.drop_last() =~= s.drop_last());
        assert(s2.last() == e);
        assert(entries_map(s2) =~= tally_add(entries_map(s), g, k));
    } else {
        assert(s2.drop_last() =~= s.drop_last().update(i, e));
        assert(s.drop_last()[i] == s[i]);
        assert(entries_unique(s.drop_last()));
        lemma_entries_update(s.drop_last(), i, e, k);
        assert(s2.last() == s.last());
        // The updated name differs from the last entry's name, so the two
        // inserts commute.
        assert(g != s.last().name@);
        assert(entries_map(s2) =~= tally_add(entries_map(s), g, k));
    }
}

/// Appending an entry with a fresh name denotes inserting it.
proof fn lemma_entries_push(s: Seq<GroupSets>, e: GroupSets)
    requires
        entries_unique(s),
        forall|i: int| 0 <= i < s.len() ==> s[i].name@ != e.name@,
    ensures
        entries_unique(s.push(e)),
        entries_map(s.push(e)) == tally_add(entries_map(s), e.name@, e.sets as int),
        entries_total(s.push(e)) == entries_total(s) + e.sets,
{
    let s2 = s.push(e);
    assert(s2.drop_last() =~= s);
    assert(s2.last() == e);
    lemma_entries_dom(s, e.name@);
    assert(!entries_map(s).dom().contains(e.name@));
    assert(forall|i: int, j: int| 0 <= i < j < s2.len() ==> s2[i].name@ != s2[j].name@) by {
        assert(forall|i: int| 0 <= i < s.len() ==> s2[i] == s[i]);
    }
}

/// Add `k` sets for the named group to the tally, extending it if the name
/// is new.
pub fn bump(v: &mut Vec<GroupSets>, name: &String, k: u64)
    requires
        entries_unique(old(v)@),
        entries_total(old(v)@) + k <= u64::MAX,
    ensures
        entries_unique(final(v)@),
        entries_map(final(v)@) == tally_add(entries_map(old(v)@), name@, k as int),
        entries_total(final(v)@) == entries_total(old(v)@) + k,
{
    let ghost s0 = v@;
    let n = v.len();
    let mut i: usize = 0;
    while i < n
        invariant
            n == v@.len(),
            v@ == s0,
            s0 == old(v)@,
            entries_unique(s0),
            entries_total(s0) + k <= u64::MAX,
            forall|j: int| 0 <= j < i ==> s0[j].name@ != name@,
        decreases n - i,
    {
        if v[i].name == *name {
            proof {
                lemma_entry_le_total(s0, i as int);
            }
            let new_sets = v[i].sets + k;
            let entry = GroupSets { name: name.clone(), sets: new_sets };
            proof {
                lemma_entries_update(s0, i as int, entry, k as int);
            }
            v.set(i, entry);
            return ;
        }
        i += 1;
    }
    proof {
        lemma_total_nonneg(s0);
    }
    let entry = GroupSets { name: name.clone(), sets: k };
    proof {
        lemma_entries_push(s0, entry);
    }
    v.push(entry);
}

/// Look a group up in a tally, as a map lookup on what the entries denote.
pub fn lookup(v: &Vec<GroupSets>, name: &String) -> (r: Option<u64>)
    requires
        entries_unique(v@),
    ensures
        match r {
            Some(k) => entries_map(v@).dom().contains(name@) && entries_map(v@)[name@]
                == k as int,
            None => !entries_map(v@).dom().contains(name@),
        },
{
    let n = v.len();
    let mut i: usize = 0;
    while i < n
        invariant
            n == v@.len(),
            entries_unique(v@),
            forall|j: int| 0 <= j < i ==> v@[j].name@ != name@,
        decreases n - i,
    {
        if v[i].name == *name {
            proof {
                lemma_entries_get(v@, i as int);
            }
            return Some(v[i].sets);
        }
        i += 1;
    }
    proof {
        lemma_entries_dom(v@, name@);
    }
    None
}

} // verus!
