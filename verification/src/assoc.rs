//! Association lists: a `Vec` of key/value pairs with distinct keys, read as a
//! finite map. The counters of the traffic recorder are kept this way.

use vstd::prelude::*;

verus! {

/// No key occurs twice.
pub open spec fn keys_unique<K, V>(s: Seq<(K, V)>) -> bool {
    forall|i: int, j: int| 0 <= i < s.len() && 0 <= j < s.len() && i != j ==> s[i].0 != s[j].0
}

/// The map an association list stands for.
pub open spec fn assoc<K, V>(s: Seq<(K, V)>) -> Map<K, V>
    decreases s.len(),
{
    if s.len() == 0 {
        Map::empty()
    } else {
        assoc(s.drop_last()).insert(s.last().0, s.last().1)
    }
}

/// The value of `k`, or zero when absent.
pub open spec fn count_or_zero<K>(m: Map<K, u64>, k: K) -> u64 {
    if m.contains_key(k) {
        m[k]
    } else {
        0
    }
}

/// One more, stopping at the top.
pub open spec fn sat_inc(x: u64) -> u64 {
    if x == u64::MAX {
        x
    } else {
        (x + 1) as u64
    }
}

/// The map with the count of `k` raised by one.
pub open spec fn bump<K>(m: Map<K, u64>, k: K) -> Map<K, u64> {
    m.insert(k, sat_inc(count_or_zero(m, k)))
}

pub proof fn lemma_assoc_dom<K, V>(s: Seq<(K, V)>, k: K)
    ensures
        assoc(s).dom().contains(k) <==> exists|i: int| 0 <= i < s.len() && s[i].0 == k,
    decreases s.len(),
{
    if s.len() > 0 {
        lemma_assoc_dom(s.drop_last(), k);
        if assoc(s).dom().contains(k) {
            if k != s.last().0 {
                let i = choose|i: int| 0 <= i < s.drop_last().len() && s.drop_last()[i].0 == k;
                assert(s[i].0 == k);
            }
        }
        if exists|i: int| 0 <= i < s.len() && s[i].0 == k {
            let i = choose|i: int| 0 <= i < s.len() && s[i].0 == k;
            if i < s.len() - 1 {
                assert(s.drop_last()[i].0 == k);
            }
        }
    }
}

pub proof fn lemma_assoc_index<K, V>(s: Seq<(K, V)>, i: int)
    requires
        keys_unique(s),
        0 <= i < s.len(),
    ensures
        assoc(s).contains_key(s[i].0),
        assoc(s)[s[i].0] == s[i].1,
    decreases s.len(),
{
    if i < s.len() - 1 {
        let t = s.drop_last();
        assert(keys_unique(t));
        lemma_assoc_index(t, i);
        assert(t[i] == s[i]);
        assert(s.last().0 != s[i].0);
    }
}

pub proof fn lemma_assoc_finite_len<K, V>(s: Seq<(K, V)>)
    requires
        keys_unique(s),
    ensures
        assoc(s).dom().finite(),
        assoc(s).dom().len() == s.len(),
    decreases s.len(),
{
    if s.len() > 0 {
        let t = s.drop_last();
        assert(keys_unique(t));
        lemma_assoc_finite_len(t);
        lemma_assoc_dom(t, s.last().0);
        if assoc(t).dom().contains(s.last().0) {
            let i = choose|i: int| 0 <= i < t.len() && t[i].0 == s.last().0;
            assert(s[i].0 == s[s.len() - 1].0);
        }
    }
}

pub proof fn lemma_assoc_update<K, V>(s: Seq<(K, V)>, i: int, v: V)
    requires
        keys_unique(s),
        0 <= i < s.len(),
    ensures
        keys_unique(s.update(i, (s[i].0, v))),
        assoc(s.update(i, (s[i].0, v))) == assoc(s).insert(s[i].0, v),
    decreases s.len(),
{
    let u = s.update(i, (s[i].0, v));
    assert(keys_unique(u));
    if i == s.len() - 1 {
        assert(u.drop_last() =~= s.drop_last());
        assert(assoc(u) =~= assoc(s).insert(s[i].0, v));
    } else {
        let t = s.drop_last();
        assert(keys_unique(t));
        lemma_assoc_update(t, i, v);
        assert(u.drop_last() =~= t.update(i, (t[i].0, v)));
        assert(s.last().0 != s[i].0);
        assert(assoc(u) =~= assoc(s).insert(s[i].0, v));
    }
}

pub proof fn lemma_assoc_push<K, V>(s: Seq<(K, V)>, k: K, v: V)
    requires
        keys_unique(s),
        !assoc(s).contains_key(k),
    ensures
        keys_unique(s.push((k, v))),
        assoc(s.push((k, v))) == assoc(s).insert(k, v),
{
    let u = s.push((k, v));
    assert(u.drop_last() =~= s);
    assert forall|i: int, j: int| 0 <= i < u.len() && 0 <= j < u.len() && i != j implies u[i].0
        != u[j].0 by {
        if i == s.len() {
            lemma_assoc_dom(s, k);
            assert(u[j] == s[j]);
        } else if j == s.len() {
            lemma_assoc_dom(s, k);
            assert(u[i] == s[i]);
        } else {
            assert(u[i] == s[i] && u[j] == s[j]);
        }
    }
}

/// The position of `k` in a `u16`-keyed list, if present.
pub fn find_u16(v: &Vec<(u16, u64)>, k: u16) -> (r: Option<usize>)
    ensures
        match r {
            Some(i) => i < v@.len() && v@[i as int].0 == k,
            None => forall|i: int| 0 <= i < v@.len() ==> v@[i].0 != k,
        },
{
    let mut i: usize = 0;
    while i < v.len()
        invariant
            i <= v.len(),
            forall|j: int| 0 <= j < i ==> v@[j].0 != k,
        decreases v.len() - i,
    {
        if v[i].0 == k {
            return Some(i);
        }
        i += 1;
    }
    None
}

/// Raises the count of `k` by one, saturating, adding it at one when absent.
pub fn bump_u16(v: &mut Vec<(u16, u64)>, k: u16)
    requires
        keys_unique(old(v)@),
    ensures
        keys_unique(final(v)@),
        assoc(final(v)@) == bump(assoc(old(v)@), k),
{
    match find_u16(v, k) {
        Some(i) => {
            let c = v[i].1;
            proof {
                lemma_assoc_index(v@, i as int);
                lemma_assoc_update(v@, i as int, c.saturating_add(1));
            }
            v.set(i, (k, c.saturating_add(1)));
        },
        None => {
            proof {
                lemma_assoc_dom(v@, k);
                lemma_assoc_push(v@, k, 1u64);
            }
            v.push((k, 1));
        },
    }
}

/// The count held for `k`, if any.
pub fn get_u16(v: &Vec<(u16, u64)>, k: u16) -> (r: Option<u64>)
    requires
        keys_unique(v@),
    ensures
        r == (if assoc(v@).contains_key(k) {
            Some(assoc(v@)[k])
        } else {
            None::<u64>
        }),
{
    proof {
        lemma_assoc_dom(v@, k);
    }
    match find_u16(v, k) {
        Some(i) => {
            proof {
                lemma_assoc_index(v@, i as int);
            }
            Some(v[i].1)
        },
        None => None,
    }
}

/// A copy of a `u16`-keyed list.
pub fn clone_u16_list(v: &Vec<(u16, u64)>) -> (r: Vec<(u16, u64)>)
    ensures
        r@ == v@,
{
    let mut out: Vec<(u16, u64)> = Vec::new();
    let mut i: usize = 0;
    while i < v.len()
        invariant
            i <= v.len(),
            out@ == v@.take(i as int),
        decreases v.len() - i,
    {
        out.push(v[i]);
        assert(v@.take(i + 1) == v@.take(i as int).push(v@[i as int]));
        i += 1;
    }
    assert(v@.take(v.len() as int) == v@);
    out
}

} // verus!
