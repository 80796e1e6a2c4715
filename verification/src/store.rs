use std::collections::VecDeque;
use vstd::prelude::*;

use crate::model::cluster_set;
use crate::text::push_char;

verus! {

/// The character sequences of a sequence of strings, elementwise.
pub open spec fn views_of(s: Seq<String>) -> Seq<Seq<char>> {
    Seq::new(s.len(), |i: int| s[i]@)
}

/// The set of names a switch list holds.
pub open spec fn strs_set(s: Seq<String>) -> Set<Seq<char>> {
    Set::new(|k: Seq<char>| exists|i: int| 0 <= i < s.len() && #[trigger] s[i]@ == k)
}

/// No two entries of the list spell the same name.
pub open spec fn unique_strs(s: Seq<String>) -> bool {
    forall|i: int, j: int| 0 <= i < j < s.len() ==> s[i]@ != s[j]@
}

/// One flag entry: the name and its queued values in arrival order.
pub type FlagEntry = (String, VecDeque<String>);

/// No two flag entries carry the same name.
pub open spec fn flag_keys_unique(fs: Seq<FlagEntry>) -> bool {
    forall|i: int, j: int| 0 <= i < j < fs.len() ==> fs[i].0@ != fs[j].0@
}

/// The map a flag list denotes.
pub open spec fn flags_map(fs: Seq<FlagEntry>) -> Map<Seq<char>, Seq<Seq<char>>>
    decreases fs.len(),
{
    if fs.len() == 0 {
        Map::empty()
    } else {
        flags_map(fs.drop_last()).insert(fs.last().0@, views_of(fs.last().1@))
    }
}

pub proof fn lemma_views_of_push(s: Seq<String>, x: String)
    ensures
        views_of(s.push(x)) == views_of(s).push(x@),
{
    assert(views_of(s.push(x)) =~= views_of(s).push(x@));
}

pub proof fn lemma_views_of_drop_first(s: Seq<String>)
    requires
        s.len() > 0,
    ensures
        views_of(s.subrange(1, s.len() as int)) == views_of(s).drop_first(),
{
    assert(views_of(s.subrange(1, s.len() as int)) =~= views_of(s).drop_first());
}

/// The map holds a key exactly when some entry spells it.
pub proof fn lemma_flags_map_key(fs: Seq<FlagEntry>, k: Seq<char>)
    ensures
        flags_map(fs).contains_key(k) <==> exists|i: int|
            0 <= i < fs.len() && #[trigger] fs[i].0@ == k,
    decreases fs.len(),
{
    if fs.len() > 0 {
        lemma_flags_map_key(fs.drop_last(), k);
        if fs.last().0@ == k {
            assert(fs[fs.len() - 1].0@ == k);
        } else {
            assert(flags_map(fs).contains_key(k) == flags_map(fs.drop_last()).contains_key(k));
            if exists|i: int| 0 <= i < fs.len() && #[trigger] fs[i].0@ == k {
                let i = choose|i: int| 0 <= i < fs.len() && #[trigger] fs[i].0@ == k;
                assert(i < fs.len() - 1);
                assert(fs.drop_last()[i].0@ == k);
            }
            if exists|i: int| 0 <= i < fs.drop_last().len() && #[trigger] fs.drop_last()[i].0@ == k {
                let i = choose|i: int|
                    0 <= i < fs.drop_last().len() && #[trigger] fs.drop_last()[i].0@ == k;
                assert(fs[i].0@ == k);
            }
        }
    }
}

/// With unique keys, the map sends each entry's name to that entry's values.
pub proof fn lemma_flags_map_at(fs: Seq<FlagEntry>, i: int)
    requires
        flag_keys_unique(fs),
        0 <= i < fs.len(),
    ensures
        flags_map(fs).contains_key(fs[i].0@),
        flags_map(fs)[fs[i].0@] == views_of(fs[i].1@),
    decreases fs.len(),
{
    if i == fs.len() - 1 {
    } else {
        assert(flag_keys_unique(fs.drop_last()));
        assert(fs.drop_last()[i] == fs[i]);
        lemma_flags_map_at(fs.drop_last(), i);
        assert(fs[i].0@ != fs.last().0@);
    }
}

/// With unique keys, removing an entry removes exactly its name.
pub proof fn lemma_flags_map_remove(fs: Seq<FlagEntry>, i: int)
    requires
        flag_keys_unique(fs),
        0 <= i < fs.len(),
    ensures
        flags_map(fs.remove(i)) == flags_map(fs).remove(fs[i].0@),
    decreases fs.len(),
{
    let k = fs[i].0@;
    if i == fs.len() - 1 {
        assert(fs.remove(i) =~= fs.drop_last());
        lemma_flags_map_key(fs.drop_last(), k);
        assert(forall|j: int|
            0 <= j < fs.drop_last().len() ==> #[trigger] fs.drop_last()[j].0@ != k);
        assert(!flags_map(fs.drop_last()).contains_key(k));
        assert(flags_map(fs.drop_last()).insert(k, views_of(fs.last().1@)).remove(k) =~= flags_map(
            fs.drop_last(),
        ));
    } else {
        let d = fs.drop_last();
        assert(flag_keys_unique(d));
        assert(d[i] == fs[i]);
        lemma_flags_map_remove(d, i);
        let g = fs.remove(i);
        assert(g.drop_last() =~= d.remove(i));
        assert(g.last() == fs.last());
        let lk = fs.last().0@;
        let lv = views_of(fs.last().1@);
        assert(lk != k);
        assert(flags_map(g) == flags_map(d).remove(k).insert(lk, lv));
        assert(flags_map(d).remove(k).insert(lk, lv) =~= flags_map(d).insert(lk, lv).remove(k));
    }
}

/// Appending an entry inserts its name.
pub proof fn lemma_flags_map_push(fs: Seq<FlagEntry>, e: FlagEntry)
    ensures
        flags_map(fs.push(e)) == flags_map(fs).insert(e.0@, views_of(e.1@)),
{
    assert(fs.push(e).drop_last() =~= fs);
    assert(fs.push(e).last() == e);
}

/// Finds the entry spelling `name`, if any.
pub(crate) fn flags_find(fs: &Vec<FlagEntry>, name: &String) -> (r: Option<usize>)
    ensures
        match r {
            Some(i) => i < fs@.len() && fs@[i as int].0@ == name@,
            None => forall|i: int| 0 <= i < fs@.len() ==> #[trigger] fs@[i].0@ != name@,
        },
{
    let mut i: usize = 0;
    while i < fs.len()
        invariant
            i <= fs@.len(),
            forall|j: int| 0 <= j < i ==> #[trigger] fs@[j].0@ != name@,
        decreases fs@.len() - i,
    {
        if fs[i].0 == *name {
            return Some(i);
        }
        i = i + 1;
    }
    None
}

/// Appends `value` at the end of the queue of `name`, starting a fresh
/// queue when `name` is new.
pub(crate) fn flags_append(fs: &mut Vec<FlagEntry>, name: String, value: String)
    requires
        flag_keys_unique(old(fs)@),
    ensures
        flag_keys_unique(final(fs)@),
        flags_map(final(fs)@) == flags_map(old(fs)@).insert(
            name@,
            (if flags_map(old(fs)@).contains_key(name@) {
                flags_map(old(fs)@)[name@]
            } else {
                Seq::<Seq<char>>::empty()
            }).push(value@),
        ),
{
    let ghost fs0 = fs@;
    match flags_find(fs, &name) {
        Some(i) => {
            proof {
                lemma_flags_map_at(fs0, i as int);
                lemma_flags_map_remove(fs0, i as int);
            }
            let mut entry = fs.remove(i);
            let ghost q0 = entry.1@;
            entry.1.push_back(value);
            let ghost fs1 = fs@;
            let ghost e = entry;
            fs.push(entry);
            proof {
                lemma_views_of_push(q0, value);
                assert(fs@ == fs1.push(e));
                lemma_flags_map_push(fs1, e);
                assert(e.0@ == name@);
                assert(views_of(e.1@) == views_of(q0).push(value@));
                assert(flags_map(fs@) =~= flags_map(fs0).insert(
                    name@,
                    flags_map(fs0)[name@].push(value@),
                ));
                assert(forall|j: int| 0 <= j < fs1.len() ==> fs1[j] == if j < i {
                    fs0[j]
                } else {
                    fs0[j + 1]
                });
                assert(flag_keys_unique(fs1));
                assert(forall|j: int| 0 <= j < fs1.len() ==> #[trigger] fs1[j].0@ != name@);
                assert(flag_keys_unique(fs@));
            }
        }
        None => {
            proof {
                lemma_flags_map_key(fs0, name@);
                assert(!flags_map(fs0).contains_key(name@));
            }
            let mut q: VecDeque<String> = VecDeque::new();
            q.push_back(value);
            proof {
                assert(views_of(q@) =~= Seq::<Seq<char>>::empty().push(value@));
                lemma_flags_map_push(fs0, (name, q));
            }
            fs.push((name, q));
        }
    }
}

/// Removes and returns the first queued value of `name`; the name keeps its
/// (possibly empty) queue. `None` when the name is absent or drained.
pub(crate) fn flags_pop_front(fs: &mut Vec<FlagEntry>, name: &String) -> (r: Option<String>)
    requires
        flag_keys_unique(old(fs)@),
    ensures
        flag_keys_unique(final(fs)@),
        match r {
            Some(v) => {
                let m = flags_map(old(fs)@);
                m.contains_key(name@) && m[name@].len() > 0 && v@ == m[name@][0] && flags_map(
                    final(fs)@,
                ) == m.insert(name@, m[name@].drop_first())
            },
            None => (!flags_map(old(fs)@).contains_key(name@) || flags_map(old(fs)@)[name@].len()
                == 0) && flags_map(final(fs)@) == flags_map(old(fs)@),
        },
{
    let ghost fs0 = fs@;
    match flags_find(fs, name) {
        Some(i) => {
            proof {
                lemma_flags_map_at(fs0, i as int);
                lemma_flags_map_remove(fs0, i as int);
            }
            let mut entry = fs.remove(i);
            let ghost q0 = entry.1@;
            let popped = entry.1.pop_front();
            let ghost fs1 = fs@;
            let ghost e = entry;
            let ghost m = flags_map(fs0);
            let had = popped.is_some();
            fs.push(entry);
            proof {
                assert(fs@ == fs1.push(e));
                lemma_flags_map_push(fs1, e);
                assert(e.0@ == name@);
                assert(forall|j: int| 0 <= j < fs1.len() ==> fs1[j] == if j < i {
                    fs0[j]
                } else {
                    fs0[j + 1]
                });
                assert(flag_keys_unique(fs1));
                assert(forall|j: int| 0 <= j < fs1.len() ==> #[trigger] fs1[j].0@ != name@);
                assert(flag_keys_unique(fs@));
                if had {
                    lemma_views_of_drop_first(q0);
                    assert(views_of(e.1@) == views_of(q0).drop_first());
                    assert(flags_map(fs@) =~= m.insert(name@, m[name@].drop_first()));
                } else {
                    assert(e.1@ == q0);
                    assert(flags_map(fs@) =~= m);
                    assert(m[name@].len() == 0);
                }
            }
            match popped {
                Some(v) => {
                    proof {
                        assert(views_of(q0)[0] == q0[0]@);
                    }
                    Some(v)
                }
                None => None,
            }
        }
        None => {
            proof {
                lemma_flags_map_key(fs0, name@);
            }
            None
        }
    }
}

/// Removes the whole entry of `name`, returning its queue.
pub(crate) fn flags_take(fs: &mut Vec<FlagEntry>, name: &String) -> (r: Option<VecDeque<String>>)
    requires
        flag_keys_unique(old(fs)@),
    ensures
        flag_keys_unique(final(fs)@),
        match r {
            Some(q) => flags_map(old(fs)@).contains_key(name@) && views_of(q@) == flags_map(
                old(fs)@,
            )[name@] && flags_map(final(fs)@) == flags_map(old(fs)@).remove(name@),
            None => !flags_map(old(fs)@).contains_key(name@) && flags_map(final(fs)@) == flags_map(
                old(fs)@,
            ),
        },
{
    let ghost fs0 = fs@;
    match flags_find(fs, name) {
        Some(i) => {
            proof {
                lemma_flags_map_at(fs0, i as int);
                lemma_flags_map_remove(fs0, i as int);
            }
            let entry = fs.remove(i);
            proof {
                assert(flag_keys_unique(fs@)) by {
                    assert(forall|a: int, b: int|
                        0 <= a < b < fs@.len() ==> fs@[a].0@ != fs@[b].0@);
                }
            }
            Some(entry.1)
        }
        None => {
            proof {
                lemma_flags_map_key(fs0, name@);
            }
            None
        }
    }
}

/// Finds the position of `key`, if present.
pub(crate) fn strs_find(v: &Vec<String>, key: &String) -> (r: Option<usize>)
    ensures
        match r {
            Some(i) => i < v@.len() && v@[i as int]@ == key@,
            None => forall|i: int| 0 <= i < v@.len() ==> #[trigger] v@[i]@ != key@,
        },
{
    let mut i: usize = 0;
    while i < v.len()
        invariant
            i <= v@.len(),
            forall|j: int| 0 <= j < i ==> #[trigger] v@[j]@ != key@,
        decreases v@.len() - i,
    {
        if v[i] == *key {
            return Some(i);
        }
        i = i + 1;
    }
    None
}

/// Whether `key` is present.
pub(crate) fn strs_contains(v: &Vec<String>, key: &String) -> (r: bool)
    ensures
        r == strs_set(v@).contains(key@),
{
    match strs_find(v, key) {
        Some(i) => {
            proof {
                assert(v@[i as int]@ == key@);
            }
            true
        }
        None => {
            proof {
                assert(!strs_set(v@).contains(key@));
            }
            false
        }
    }
}

/// Adds `key` to the name list; a name already present stays single.
pub(crate) fn strs_insert(v: &mut Vec<String>, key: String)
    requires
        unique_strs(old(v)@),
    ensures
        unique_strs(final(v)@),
        strs_set(final(v)@) == strs_set(old(v)@).insert(key@),
{
    let ghost v0 = v@;
    match strs_find(v, &key) {
        Some(_) => {
            proof {
                assert(strs_set(v0).contains(key@));
                assert(strs_set(v0) =~= strs_set(v0).insert(key@));
            }
        }
        None => {
            v.push(key);
            proof {
                assert(strs_set(v@) =~= strs_set(v0).insert(key@)) by {
                    assert(forall|k: Seq<char>|
                        strs_set(v@).contains(k) == strs_set(v0).insert(key@).contains(k)) by {
                        assert(forall|k: Seq<char>|
                            #[trigger] strs_set(v0).insert(key@).contains(k)
                                ==> strs_set(v@).contains(k)) by {
                            assert(forall|i: int|
                                0 <= i < v0.len() ==> v@[i] == v0[i]);
                            assert(v@[v0.len() as int]@ == key@);
                        }
                        assert(forall|k: Seq<char>|
                            #[trigger] strs_set(v@).contains(k) ==> strs_set(v0).insert(
                                key@,
                            ).contains(k)) by {
                            assert(forall|i: int|
                                0 <= i < v@.len() ==> v@[i] == if i < v0.len() {
                                    v0[i]
                                } else {
                                    v@[v0.len() as int]
                                });
                        }
                    }
                }
            }
        }
    }
}

/// Adds one single-character switch per letter of the first `n` letters of
/// `name`.
pub(crate) fn cluster_insert(v: &mut Vec<String>, name: &Vec<char>, n: usize)
    requires
        unique_strs(old(v)@),
        n <= name@.len(),
    ensures
        unique_strs(final(v)@),
        strs_set(final(v)@) == strs_set(old(v)@).union(cluster_set(name@.take(n as int))),
{
    let ghost v0 = v@;
    proof {
        assert(name@.take(0int) =~= Seq::<char>::empty());
        assert(strs_set(v0).union(cluster_set(name@.take(0int))) =~= strs_set(v0));
    }
    let mut k: usize = 0;
    while k < n
        invariant
            unique_strs(v@),
            k <= n <= name@.len(),
            strs_set(v@) == strs_set(v0).union(cluster_set(name@.take(k as int))),
        decreases n - k,
    {
        let mut s = String::new();
        push_char(&mut s, name[k]);
        proof {
            assert(s@ =~= seq![name@[k as int]]);
        }
        strs_insert(v, s);
        proof {
            assert(name@.take(k as int + 1).drop_last() =~= name@.take(k as int));
            assert(name@.take(k as int + 1).last() == name@[k as int]);
            assert(cluster_set(name@.take(k as int + 1)) == cluster_set(
                name@.take(k as int),
            ).insert(seq![name@[k as int]]));
            assert(strs_set(v0).union(cluster_set(name@.take(k as int))).insert(
                seq![name@[k as int]],
            ) =~= strs_set(v0).union(cluster_set(name@.take(k as int + 1))));
        }
        k = k + 1;
    }
}

/// Removes `key` if present; reports whether it was.
pub(crate) fn strs_remove(v: &mut Vec<String>, key: &String) -> (r: bool)
    requires
        unique_strs(old(v)@),
    ensures
        unique_strs(final(v)@),
        r == strs_set(old(v)@).contains(key@),
        strs_set(final(v)@) == strs_set(old(v)@).remove(key@),
{
    let ghost v0 = v@;
    match strs_find(v, key) {
        Some(i) => {
            v.remove(i);
            proof {
                assert(forall|j: int| 0 <= j < v@.len() ==> v@[j] == if j < i {
                    v0[j]
                } else {
                    v0[j + 1]
                });
                assert(unique_strs(v@));
                assert(strs_set(v0).contains(key@));
                assert forall|k: Seq<char>| #[trigger]
                    strs_set(v@).contains(k) implies strs_set(v0).remove(key@).contains(k) by {
                    let j = choose|j: int| 0 <= j < v@.len() && #[trigger] v@[j]@ == k;
                    let j0: int = if j < i { j } else { j + 1 };
                    assert(v0[j0]@ == k);
                    assert(j0 != i);
                    assert(k != key@);
                }
                assert forall|k: Seq<char>| #[trigger]
                    strs_set(v0).remove(key@).contains(k) implies strs_set(v@).contains(k) by {
                    let j0 = choose|j0: int| 0 <= j0 < v0.len() && #[trigger] v0[j0]@ == k;
                    assert(j0 != i);
                    let j: int = if j0 < i { j0 } else { j0 - 1 };
                    assert(v@[j]@ == k);
                }
                assert(strs_set(v@) =~= strs_set(v0).remove(key@));
            }
            true
        }
        None => {
            proof {
                assert(!strs_set(v0).contains(key@));
                assert(strs_set(v@) =~= strs_set(v0).remove(key@));
            }
            false
        }
    }
}

} // verus!
