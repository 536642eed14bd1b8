//! Association lists keyed by `u64`, the map primitive behind the
//! dispatcher's registry and the canister storage.
//!
//! The executable representation is a `Vec` of entries scanned from the
//! front; the specification-level reading is [`lookup`], the value under
//! the first entry with a matching key. All users keep their lists free of
//! duplicate keys ([`keys_distinct`]), which makes that first entry the
//! only one.

use vstd::prelude::*;

verus! {

/// One key/value pair of an association list.
#[derive(Clone, PartialEq, Eq, Debug)]
pub struct Entry<V> {
    pub key: u64,
    pub val: V,
}

/// The value stored under `key`: the first entry with that key wins.
pub open spec fn lookup<V>(s: Seq<Entry<V>>, key: u64) -> Option<V>
    decreases s.len(),
{
    if s.len() == 0 {
        None
    } else if s.first().key == key {
        Some(s.first().val)
    } else {
        lookup(s.drop_first(), key)
    }
}

/// No two entries share a key.
pub open spec fn keys_distinct<V>(s: Seq<Entry<V>>) -> bool {
    forall|i: int, j: int| 0 <= i < j < s.len() ==> s[i].key != s[j].key
}

/// `lookup` misses exactly when no entry has the key.
pub proof fn lemma_lookup_none<V>(s: Seq<Entry<V>>, key: u64)
    ensures
        (lookup(s, key) is None) <==> (forall|i: int| 0 <= i < s.len() ==> s[i].key != key),
    decreases s.len(),
{
    if s.len() == 0 {
    } else if s.first().key == key {
        assert(s[0].key == key);
    } else {
        lemma_lookup_none(s.drop_first(), key);
        if lookup(s, key) is None {
            assert forall|i: int| 0 <= i < s.len() implies s[i].key != key by {
                if i > 0 {
                    assert(s.drop_first()[i - 1] == s[i]);
                }
            }
        } else {
            assert(exists|i: int|
                0 <= i < s.drop_first().len() && s.drop_first()[i].key == key);
            let w = choose|i: int| 0 <= i < s.drop_first().len() && s.drop_first()[i].key == key;
            assert(s[w + 1].key == key);
        }
    }
}

/// The first entry with a matching key is the one `lookup` returns.
pub proof fn lemma_lookup_first_match<V>(s: Seq<Entry<V>>, key: u64, i: int)
    requires
        0 <= i < s.len(),
        s[i].key == key,
        forall|j: int| 0 <= j < i ==> s[j].key != key,
    ensures
        lookup(s, key) == Some(s[i].val),
    decreases i,
{
    if i > 0 {
        assert(forall|j: int| 0 <= j < i - 1 ==> s.drop_first()[j] == s[j + 1]);
        lemma_lookup_first_match(s.drop_first(), key, i - 1);
    }
}

/// Appending a fresh entry leaves every present key alone and makes the new
/// key found.
pub proof fn lemma_lookup_push<V>(s: Seq<Entry<V>>, e: Entry<V>, key: u64)
    ensures
        lookup(s.push(e), key) == if lookup(s, key) is Some {
            lookup(s, key)
        } else if key == e.key {
            Some(e.val)
        } else {
            None
        },
    decreases s.len(),
{
    if s.len() == 0 {
        assert(s.push(e).first() == e);
        assert(s.push(e).drop_first() =~= s);
    } else {
        assert(s.push(e).first() == s.first());
        assert(s.push(e).drop_first() =~= s.drop_first().push(e));
        lemma_lookup_push(s.drop_first(), e, key);
        if s.first().key == key {
            assert(lookup(s.push(e), key) == Some(s.first().val));
            assert(lookup(s, key) == Some(s.first().val));
        } else {
            assert(lookup(s.push(e), key) == lookup(s.drop_first().push(e), key));
            assert(lookup(s, key) == lookup(s.drop_first(), key));
        }
    }
}

/// Replacing the first entry that holds `e.key` moves `lookup` of that key
/// to the new value and leaves every other key alone.
pub proof fn lemma_lookup_update<V>(s: Seq<Entry<V>>, i: int, e: Entry<V>, key: u64)
    requires
        0 <= i < s.len(),
        s[i].key == e.key,
        forall|j: int| 0 <= j < i ==> s[j].key != e.key,
    ensures
        lookup(s.update(i, e), key) == if key == e.key {
            Some(e.val)
        } else {
            lookup(s, key)
        },
    decreases i,
{
    if i == 0 {
        assert(s.update(0, e).first() == e);
        assert(s.update(0, e).drop_first() =~= s.drop_first());
    } else {
        assert(s.update(i, e).first() == s.first());
        assert(s.update(i, e).drop_first() =~= s.drop_first().update(i - 1, e));
        assert(forall|j: int| 0 <= j < i - 1 ==> s.drop_first()[j] == s[j + 1]);
        lemma_lookup_update(s.drop_first(), i - 1, e, key);
    }
}

/// Distinct keys survive appending a key that is not yet present.
pub proof fn lemma_distinct_push<V>(s: Seq<Entry<V>>, e: Entry<V>)
    requires
        keys_distinct(s),
        lookup(s, e.key) is None,
    ensures
        keys_distinct(s.push(e)),
{
    lemma_lookup_none(s, e.key);
}

/// Distinct keys survive replacing an entry with one that keeps its key.
pub proof fn lemma_distinct_update<V>(s: Seq<Entry<V>>, i: int, e: Entry<V>)
    requires
        keys_distinct(s),
        0 <= i < s.len(),
        s[i].key == e.key,
    ensures
        keys_distinct(s.update(i, e)),
{
}

/// With distinct keys, removing the entry at `i` makes its key absent and
/// leaves every other key alone.
pub proof fn lemma_lookup_remove<V>(s: Seq<Entry<V>>, i: int, key: u64)
    requires
        keys_distinct(s),
        0 <= i < s.len(),
    ensures
        lookup(s.remove(i), key) == if key == s[i].key {
            None::<V>
        } else {
            lookup(s, key)
        },
    decreases i,
{
    if i == 0 {
        assert(s.remove(0) =~= s.drop_first());
        if key == s[0].key {
            lemma_lookup_none(s.drop_first(), key);
            assert forall|j: int| 0 <= j < s.drop_first().len() implies s.drop_first()[j].key
                != key by {
                assert(s.drop_first()[j] == s[j + 1]);
            }
        }
    } else {
        assert(s.remove(i).first() == s.first());
        assert(s.remove(i).drop_first() =~= s.drop_first().remove(i - 1));
        assert(forall|a: int, b: int|
            0 <= a < b < s.drop_first().len() ==> s.drop_first()[a].key != s.drop_first()[b].key);
        lemma_lookup_remove(s.drop_first(), i - 1, key);
        if s.first().key == key {
            assert(s[i].key != key);
        }
    }
}

/// Distinct keys survive removing an entry.
pub proof fn lemma_distinct_remove<V>(s: Seq<Entry<V>>, i: int)
    requires
        keys_distinct(s),
        0 <= i < s.len(),
    ensures
        keys_distinct(s.remove(i)),
{
    s.remove_ensures(i);
    let t = s.remove(i);
    assert forall|a: int, b: int| 0 <= a < b < t.len() implies t[a].key != t[b].key by {
        let oa: int = if a < i { a } else { a + 1 };
        let ob: int = if b < i { b } else { b + 1 };
        assert(t[a] == s[oa]);
        assert(t[b] == s[ob]);
    }
}

/// The index of the first entry holding `key`, if the key is present.
pub fn find_index<V>(v: &Vec<Entry<V>>, key: u64) -> (r: Option<usize>)
    ensures
        match r {
            Some(i) => {
                &&& i < v.len()
                &&& v@[i as int].key == key
                &&& forall|j: int| 0 <= j < i ==> v@[j].key != key
                &&& lookup(v@, key) == Some(v@[i as int].val)
            },
            None => lookup(v@, key) is None,
        },
{
    let n = v.len();
    let mut i: usize = 0;
    while i < n
        invariant
            i <= n,
            n == v.len(),
            forall|j: int| 0 <= j < i ==> v@[j].key != key,
        decreases n - i,
    {
        if v[i].key == key {
            proof {
                lemma_lookup_first_match(v@, key, i as int);
            }
            return Some(i);
        }
        i = i + 1;
    }
    proof {
        lemma_lookup_none(v@, key);
    }
    None
}

} // verus!
