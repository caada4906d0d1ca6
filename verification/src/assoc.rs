//! Association lists over `String` keys.
//!
//! The store keeps its string-keyed collections as vectors of key/value
//! pairs.  This module gives such a vector its mathematical reading -- the
//! finite `Map` its entries spell out -- together with the lemmas and the
//! executable helpers that the store's operations are proved against.

use vstd::prelude::*;

verus! {

/// The finite map an entry sequence spells out, later entries winning.
pub open spec fn entries_map<V>(s: Seq<(String, V)>) -> Map<Seq<char>, V>
    decreases s.len(),
{
    if s.len() == 0 {
        Map::empty()
    } else {
        entries_map(s.drop_last()).insert(s.last().0@, s.last().1)
    }
}

/// No two entries carry the same key, so each key names one entry.
pub open spec fn unique_keys<V>(s: Seq<(String, V)>) -> bool {
    forall|i: int, j: int| 0 <= i < j < s.len() ==> s[i].0@ != s[j].0@
}

/// A key lies in the map exactly when some entry carries it.
pub proof fn lemma_entries_map_contains<V>(s: Seq<(String, V)>, k: Seq<char>)
    ensures
        entries_map(s).contains_key(k) <==> exists|i: int| 0 <= i < s.len() && s[i].0@ == k,
    decreases s.len(),
{
    if s.len() > 0 {
        lemma_entries_map_contains(s.drop_last(), k);
        if s.last().0@ == k {
            assert(s[s.len() - 1].0@ == k);
        } else {
            if exists|i: int| 0 <= i < s.len() && s[i].0@ == k {
                let i = choose|i: int| 0 <= i < s.len() && s[i].0@ == k;
                assert(s.drop_last()[i].0@ == k);
            }
            if exists|i: int| 0 <= i < s.drop_last().len() && s.drop_last()[i].0@ == k {
                let i = choose|i: int| 0 <= i < s.drop_last().len() && s.drop_last()[i].0@ == k;
                assert(s[i].0@ == k);
            }
        }
    }
}

/// Dropping the last entry keeps the remaining keys distinct.
pub proof fn lemma_unique_keys_drop_last<V>(s: Seq<(String, V)>)
    requires
        unique_keys(s),
        s.len() > 0,
    ensures
        unique_keys(s.drop_last()),
{
    assert forall|i: int, j: int| 0 <= i < j < s.drop_last().len() implies s.drop_last()[i].0@
        != s.drop_last()[j].0@ by {
        assert(s.drop_last()[i] == s[i]);
        assert(s.drop_last()[j] == s[j]);
    }
}

/// Under distinct keys, the entry at position `i` is what its key maps to.
pub proof fn lemma_entries_map_index<V>(s: Seq<(String, V)>, i: int)
    requires
        unique_keys(s),
        0 <= i < s.len(),
    ensures
        entries_map(s).contains_key(s[i].0@),
        entries_map(s)[s[i].0@] == s[i].1,
    decreases s.len(),
{
    if i < s.len() - 1 {
        lemma_unique_keys_drop_last(s);
        lemma_entries_map_index(s.drop_last(), i);
        assert(s.drop_last()[i] == s[i]);
        assert(s[s.len() - 1].0@ != s[i].0@);
    }
}

/// Appending an entry inserts its key.
pub proof fn lemma_entries_map_push<V>(s: Seq<(String, V)>, p: (String, V))
    ensures
        entries_map(s.push(p)) == entries_map(s).insert(p.0@, p.1),
{
    assert(s.push(p).drop_last() =~= s);
    assert(s.push(p).last() == p);
}

/// Overwriting the entry that carries a key inserts the new value at that
/// key, and keeps the keys distinct.
pub proof fn lemma_entries_map_update<V>(s: Seq<(String, V)>, i: int, p: (String, V))
    requires
        unique_keys(s),
        0 <= i < s.len(),
        p.0@ == s[i].0@,
    ensures
        entries_map(s.update(i, p)) == entries_map(s).insert(p.0@, p.1),
        unique_keys(s.update(i, p)),
    decreases s.len(),
{
    let t = s.update(i, p);
    assert forall|x: int, y: int| 0 <= x < y < t.len() implies t[x].0@ != t[y].0@ by {
        assert(t[x].0@ == s[x].0@);
        assert(t[y].0@ == s[y].0@);
    }
    if i == s.len() - 1 {
        assert(t.drop_last() =~= s.drop_last());
        assert(t.last() == p);
        assert(entries_map(s.drop_last()).insert(s.last().0@, s.last().1).insert(p.0@, p.1)
            =~= entries_map(s.drop_last()).insert(p.0@, p.1));
        assert(entries_map(t) =~= entries_map(s).insert(p.0@, p.1));
    } else {
        lemma_unique_keys_drop_last(s);
        lemma_entries_map_update(s.drop_last(), i, p);
        assert(t.drop_last() =~= s.drop_last().update(i, p));
        assert(t.last() == s.last());
        assert(s[s.len() - 1].0@ != s[i].0@);
        assert(entries_map(s.drop_last()).insert(p.0@, p.1).insert(s.last().0@, s.last().1)
            =~= entries_map(s.drop_last()).insert(s.last().0@, s.last().1).insert(p.0@, p.1));
        assert(entries_map(t) =~= entries_map(s).insert(p.0@, p.1));
    }
}

/// Removing the entry that carries a key removes that key, and keeps the
/// remaining keys distinct.
pub proof fn lemma_entries_map_remove<V>(s: Seq<(String, V)>, i: int)
    requires
        unique_keys(s),
        0 <= i < s.len(),
    ensures
        entries_map(s.remove(i)) == entries_map(s).remove(s[i].0@),
        unique_keys(s.remove(i)),
    decreases s.len(),
{
    let k = s[i].0@;
    let t = s.remove(i);
    assert forall|x: int, y: int| 0 <= x < y < t.len() implies t[x].0@ != t[y].0@ by {
        if x < i {
            assert(t[x] == s[x]);
        } else {
            assert(t[x] == s[x + 1]);
        }
        if y < i {
            assert(t[y] == s[y]);
        } else {
            assert(t[y] == s[y + 1]);
        }
    }
    if i == s.len() - 1 {
        assert(t =~= s.drop_last());
        lemma_entries_map_contains(s.drop_last(), k);
        assert forall|j: int| 0 <= j < s.drop_last().len() implies s.drop_last()[j].0@ != k by {
            assert(s.drop_last()[j] == s[j]);
        }
        assert(!entries_map(s.drop_last()).contains_key(k));
        assert(entries_map(s.drop_last()).insert(k, s.last().1).remove(k) =~= entries_map(
            s.drop_last(),
        ));
        assert(entries_map(t) =~= entries_map(s).remove(k));
    } else {
        lemma_unique_keys_drop_last(s);
        lemma_entries_map_remove(s.drop_last(), i);
        assert(t.drop_last() =~= s.drop_last().remove(i));
        assert(t.last() == s.last());
        assert(s[s.len() - 1].0@ != k);
        assert(entries_map(s.drop_last()).remove(k).insert(s.last().0@, s.last().1)
            =~= entries_map(s.drop_last()).insert(s.last().0@, s.last().1).remove(k));
        assert(entries_map(t) =~= entries_map(s).remove(k));
    }
}

/// The position of the entry carrying `key`, if one does.
pub fn entries_position<V>(list: &Vec<(String, V)>, key: &str) -> (r: Option<usize>)
    ensures
        match r {
            Some(i) => i < list@.len() && list@[i as int].0@ == key@,
            None => forall|j: int| 0 <= j < list@.len() ==> list@[j].0@ != key@,
        },
{
    let wanted: String = key.to_owned();
    let mut i: usize = 0;
    while i < list.len()
        invariant
            i <= list@.len(),
            wanted@ == key@,
            forall|j: int| 0 <= j < i ==> list@[j].0@ != key@,
        decreases list@.len() - i,
    {
        if list[i].0 == wanted {
            return Some(i);
        }
        i = i + 1;
    }
    None
}

/// Looks a key up, returning a reference to the value its entry carries.
pub fn entries_get<'a, V>(list: &'a Vec<(String, V)>, key: &str) -> (r: Option<&'a V>)
    requires
        unique_keys(list@),
    ensures
        match r {
            Some(v) => entries_map(list@).contains_key(key@) && *v == entries_map(list@)[key@],
            None => !entries_map(list@).contains_key(key@),
        },
{
    match entries_position(list, key) {
        Some(i) => {
            proof {
                lemma_entries_map_index(list@, i as int);
            }
            Some(&list[i].1)
        },
        None => {
            proof {
                lemma_entries_map_contains(list@, key@);
            }
            None
        },
    }
}

/// Inserts a value at a key: overwrites the entry already carrying the key,
/// or appends a fresh entry.
pub fn entries_upsert<V>(list: &mut Vec<(String, V)>, key: String, value: V)
    requires
        unique_keys(old(list)@),
    ensures
        unique_keys(final(list)@),
        entries_map(final(list)@) == entries_map(old(list)@).insert(key@, value),
{
    match entries_position(list, key.as_str()) {
        Some(i) => {
            proof {
                lemma_entries_map_update(list@, i as int, (key, value));
            }
            list.set(i, (key, value));
        },
        None => {
            proof {
                lemma_entries_map_push(list@, (key, value));
            }
            let ghost pre = list@;
            list.push((key, value));
            assert forall|x: int, y: int| 0 <= x < y < list@.len() implies list@[x].0@
                != list@[y].0@ by {
                if y < pre.len() {
                    assert(list@[x] == pre[x]);
                    assert(list@[y] == pre[y]);
                } else {
                    assert(list@[x] == pre[x]);
                }
            }
        },
    }
}

/// Removes the entry carrying a key, returning the value it carried.
pub fn entries_remove<V>(list: &mut Vec<(String, V)>, key: &str) -> (r: Option<V>)
    requires
        unique_keys(old(list)@),
    ensures
        unique_keys(final(list)@),
        match r {
            Some(v) => entries_map(old(list)@).contains_key(key@) && v == entries_map(
                old(list)@,
            ).index(key@) && entries_map(final(list)@) == entries_map(old(list)@).remove(key@),
            None => !entries_map(old(list)@).contains_key(key@) && final(list)@ == old(list)@,
        },
{
    match entries_position(list, key) {
        Some(i) => {
            proof {
                lemma_entries_map_index(list@, i as int);
                lemma_entries_map_remove(list@, i as int);
            }
            let p = list.remove(i);
            Some(p.1)
        },
        None => {
            proof {
                lemma_entries_map_contains(list@, key@);
            }
            None
        },
    }
}

} // verus!
