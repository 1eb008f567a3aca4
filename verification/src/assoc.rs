//! Lists of string-keyed entries without duplicate keys, read as finite
//! maps: the storage of the in-memory fact and I/O providers.
use vstd::prelude::*;

use crate::text::{copy_string, copy_strings, strings_view};

verus! {

/// No key occurs twice.
pub open spec fn keys_unique<V>(e: Seq<(String, V)>) -> bool {
    forall|i: int, j: int| 0 <= i < j < e.len() ==> e[i].0@ != e[j].0@
}

/// The map the entries describe; a later entry for a key wins.
pub open spec fn entry_map<V>(e: Seq<(String, V)>) -> Map<Seq<char>, V>
    decreases e.len(),
{
    if e.len() == 0 {
        Map::empty()
    } else {
        entry_map(e.drop_last()).insert(e.last().0@, e.last().1)
    }
}

pub proof fn lemma_entry_map_dom<V>(e: Seq<(String, V)>, k: Seq<char>)
    ensures
        entry_map(e).dom().contains(k) <==> exists|i: int| 0 <= i < e.len() && e[i].0@ == k,
    decreases e.len(),
{
    if e.len() > 0 {
        lemma_entry_map_dom(e.drop_last(), k);
        if entry_map(e).dom().contains(k) && e.last().0@ != k {
            let i = choose|i: int| 0 <= i < e.len() - 1 && e.drop_last()[i].0@ == k;
            assert(e[i].0@ == k);
        }
        if exists|i: int| 0 <= i < e.len() && e[i].0@ == k {
            let i = choose|i: int| 0 <= i < e.len() && e[i].0@ == k;
            if i < e.len() - 1 {
                assert(e.drop_last()[i].0@ == k);
            }
        }
    }
}

pub proof fn lemma_entry_map_at<V>(e: Seq<(String, V)>, i: int)
    requires
        keys_unique(e),
        0 <= i < e.len(),
    ensures
        entry_map(e).dom().contains(e[i].0@),
        entry_map(e)[e[i].0@] == e[i].1,
    decreases e.len(),
{
    if i < e.len() - 1 {
        let d = e.drop_last();
        assert(keys_unique(d));
        assert(d[i] == e[i]);
        lemma_entry_map_at(d, i);
        assert(e.last().0@ != e[i].0@);
    }
}

proof fn lemma_entry_map_update<V>(e: Seq<(String, V)>, i: int, key: String, v: V)
    requires
        keys_unique(e),
        0 <= i < e.len(),
        e[i].0@ == key@,
    ensures
        entry_map(e.update(i, (key, v))) =~= entry_map(e).insert(key@, v),
    decreases e.len(),
{
    let u = e.update(i, (key, v));
    if i == e.len() - 1 {
        assert(u.drop_last() =~= e.drop_last());
    } else {
        let d = e.drop_last();
        assert(keys_unique(d));
        assert(u.drop_last() =~= d.update(i, (key, v)));
        lemma_entry_map_update(d, i, key, v);
        assert(e.last().0@ != key@);
    }
}

/// The offset of the entry whose key is `key`.
pub fn find_entry<V>(e: &Vec<(String, V)>, key: &str) -> (r: Option<usize>)
    ensures
        match r {
            Some(i) => i < e.len() && e@[i as int].0@ == key@,
            None => forall|i: int| 0 <= i < e.len() ==> e@[i].0@ != key@,
        },
{
    let mut i: usize = 0;
    while i < e.len()
        invariant
            i <= e.len(),
            forall|j: int| 0 <= j < i ==> e@[j].0@ != key@,
        decreases e.len() - i,
    {
        if crate::text::str_eq(e[i].0.as_str(), key) {
            return Some(i);
        }
        i += 1;
    }
    None
}

/// Looks `key` up: the value the map holds for it.
pub fn lookup_entry<'a, V>(e: &'a Vec<(String, V)>, key: &str) -> (r: Option<&'a V>)
    requires
        keys_unique(e@),
    ensures
        match r {
            Some(v) => entry_map(e@).dom().contains(key@) && *v == entry_map(e@)[key@],
            None => !entry_map(e@).dom().contains(key@),
        },
{
    match find_entry(e, key) {
        Some(i) => {
            proof {
                lemma_entry_map_at(e@, i as int);
            }
            Some(&e[i].1)
        },
        None => {
            proof {
                lemma_entry_map_dom(e@, key@);
            }
            None
        },
    }
}

/// Sets the value of `key`, replacing the entry that has it.
pub fn put_entry<V>(e: &mut Vec<(String, V)>, key: String, value: V)
    requires
        keys_unique(old(e)@),
    ensures
        keys_unique(final(e)@),
        entry_map(final(e)@) == entry_map(old(e)@).insert(key@, value),
{
    let ghost k = key@;
    match find_entry(e, key.as_str()) {
        Some(i) => {
            let ghost before = e@;
            proof {
                lemma_entry_map_update(before, i as int, key, value);
            }
            e.set(i, (key, value));
            assert(keys_unique(e@)) by {
                assert forall|a: int, b: int| 0 <= a < b < e@.len() implies e@[a].0@ != e@[b].0@ by {
                    if a != i && b != i {
                        assert(before[a] == e@[a] && before[b] == e@[b]);
                    } else if a == i {
                        assert(before[b] == e@[b]);
                    } else {
                        assert(before[a] == e@[a]);
                    }
                }
            }
        },
        None => {
            let ghost before = e@;
            e.push((key, value));
            assert(e@.drop_last() =~= before);
        },
    }
}

/// Entries with the same keys and the same column names, as fresh strings.
pub fn copy_entries(e: &Vec<(String, Vec<String>)>) -> (r: Vec<(String, Vec<String>)>)
    requires
        keys_unique(e@),
    ensures
        keys_unique(r@),
        entry_map(r@).map_values(|v: Vec<String>| strings_view(v@)) == entry_map(e@).map_values(
            |v: Vec<String>| strings_view(v@),
        ),
{
    let mut out: Vec<(String, Vec<String>)> = Vec::new();
    let mut i: usize = 0;
    while i < e.len()
        invariant
            i <= e.len(),
            keys_unique(e@),
            out.len() == i,
            forall|k: int|
                0 <= k < i ==> (#[trigger] out@[k]).0@ == e@[k].0@ && strings_view(out@[k].1@)
                    == strings_view(e@[k].1@),
        decreases e.len() - i,
    {
        out.push((copy_string(&e[i].0), copy_strings(e[i].1.as_slice())));
        i += 1;
    }
    proof {
        assert(keys_unique(out@));
        lemma_entry_maps_agree(out@, e@);
    }
    out
}

proof fn lemma_entry_maps_agree(a: Seq<(String, Vec<String>)>, b: Seq<(String, Vec<String>)>)
    requires
        a.len() == b.len(),
        forall|k: int|
            0 <= k < a.len() ==> (#[trigger] a[k]).0@ == b[k].0@ && strings_view(a[k].1@) == strings_view(
                b[k].1@,
            ),
    ensures
        entry_map(a).map_values(|v: Vec<String>| strings_view(v@)) == entry_map(b).map_values(
            |v: Vec<String>| strings_view(v@),
        ),
    decreases a.len(),
{
    if a.len() > 0 {
        let (da, db) = (a.drop_last(), b.drop_last());
        assert forall|k: int| 0 <= k < da.len() implies (#[trigger] da[k]).0@ == db[k].0@ && strings_view(
            da[k].1@,
        ) == strings_view(db[k].1@) by {
            assert(da[k] == a[k] && db[k] == b[k]);
        }
        lemma_entry_maps_agree(da, db);
        let f = |v: Vec<String>| strings_view(v@);
        assert(entry_map(a).map_values(f) =~= entry_map(da).map_values(f).insert(
            a.last().0@,
            strings_view(a.last().1@),
        ));
        assert(entry_map(b).map_values(f) =~= entry_map(db).map_values(f).insert(
            b.last().0@,
            strings_view(b.last().1@),
        ));
        assert(a.last() == a[a.len() - 1]);
        assert(b.last() == b[b.len() - 1]);
    }
}

} // verus!
