use vstd::prelude::*;

verus! {

/// No key appears twice.
pub open spec fn no_dups<K>(s: Seq<K>) -> bool {
    forall|i: int, j: int| 0 <= i < j < s.len() ==> s[i] != s[j]
}

/// `s` lists the keys of `m`, each once.
pub open spec fn lists_keys<K, V>(s: Seq<K>, m: Map<K, V>) -> bool {
    &&& no_dups(s)
    &&& forall|i: int| 0 <= i < s.len() ==> m.contains_key(#[trigger] s[i])
    &&& forall|k: K| m.contains_key(k) ==> s.contains(k)
    &&& s.len() == m.dom().len()
    &&& m.dom().finite()
}

pub proof fn lemma_lists_keys_insert_new<K, V>(s: Seq<K>, m: Map<K, V>, k: K, v: V)
    requires
        lists_keys(s, m),
        !m.contains_key(k),
    ensures
        lists_keys(s.push(k), m.insert(k, v)),
{
    let s2 = s.push(k);
    let m2 = m.insert(k, v);
    assert forall|i: int| 0 <= i < s2.len() implies m2.contains_key(#[trigger] s2[i]) by {
        if i < s.len() {
            assert(m.contains_key(s[i]));
        }
    }
    assert forall|kk: K| m2.contains_key(kk) implies s2.contains(kk) by {
        if kk == k {
            assert(s2[s.len() as int] == k);
        } else {
            assert(s.contains(kk));
            let j = choose|j: int| 0 <= j < s.len() && s[j] == kk;
            assert(s2[j] == kk);
        }
    }
    assert forall|i: int, j: int| 0 <= i < j < s2.len() implies s2[i] != s2[j] by {
        if j == s.len() {
            assert(m.contains_key(s[i]));
        }
    }
    assert(m2.dom() =~= m.dom().insert(k));
}

pub proof fn lemma_lists_keys_update<K, V>(s: Seq<K>, m: Map<K, V>, k: K, v: V)
    requires
        lists_keys(s, m),
        m.contains_key(k),
    ensures
        lists_keys(s, m.insert(k, v)),
{
    assert(m.insert(k, v).dom() =~= m.dom());
}

pub proof fn lemma_lists_keys_remove<K, V>(s: Seq<K>, m: Map<K, V>, i: int)
    requires
        lists_keys(s, m),
        0 <= i < s.len(),
    ensures
        lists_keys(s.remove(i), m.remove(s[i])),
{
    let k = s[i];
    let s2 = s.remove(i);
    let m2 = m.remove(k);
    assert forall|a: int| 0 <= a < s2.len() implies m2.contains_key(#[trigger] s2[a]) by {
        if a < i {
            assert(s2[a] == s[a]);
            assert(m.contains_key(s[a]));
        } else {
            assert(s2[a] == s[a + 1]);
            assert(m.contains_key(s[a + 1]));
        }
    }
    assert forall|kk: K| m2.contains_key(kk) implies s2.contains(kk) by {
        assert(s.contains(kk));
        let j = choose|j: int| 0 <= j < s.len() && s[j] == kk;
        assert(j != i);
        if j < i {
            assert(s2[j] == kk);
        } else {
            assert(s2[j - 1] == kk);
        }
    }
    assert forall|a: int, b: int| 0 <= a < b < s2.len() implies s2[a] != s2[b] by {
        let a1 = if a < i { a } else { a + 1 };
        let b1 = if b < i { b } else { b + 1 };
        assert(s2[a] == s[a1]);
        assert(s2[b] == s[b1]);
    }
    assert(m2.dom() =~= m.dom().remove(k));
}

pub proof fn lemma_lists_keys_index_of<K, V>(s: Seq<K>, m: Map<K, V>, k: K) -> (i: int)
    requires
        lists_keys(s, m),
        m.contains_key(k),
    ensures
        0 <= i < s.len(),
        s[i] == k,
{
    assert(s.contains(k));
    choose|j: int| 0 <= j < s.len() && s[j] == k
}

/// The position of `x` in `v`, which holds it.
pub fn index_of_u128(v: &Vec<u128>, x: u128) -> (r: usize)
    requires
        v@.contains(x),
    ensures
        r < v@.len(),
        v@[r as int] == x,
{
    let mut i: usize = 0;
    while i < v.len()
        invariant
            i <= v.len(),
            v@.contains(x),
            forall|j: int| 0 <= j < i ==> v@[j] != x,
        decreases v.len() - i,
    {
        if v[i] == x {
            return i;
        }
        i = i + 1;
    }
    proof {
        let j = choose|j: int| 0 <= j < v@.len() && v@[j] == x;
    }
    0
}

/// The position of `x` in `v`, which holds it.
pub fn index_of_u32(v: &Vec<u32>, x: u32) -> (r: usize)
    requires
        v@.contains(x),
    ensures
        r < v@.len(),
        v@[r as int] == x,
{
    let mut i: usize = 0;
    while i < v.len()
        invariant
            i <= v.len(),
            v@.contains(x),
            forall|j: int| 0 <= j < i ==> v@[j] != x,
        decreases v.len() - i,
    {
        if v[i] == x {
            return i;
        }
        i = i + 1;
    }
    proof {
        let j = choose|j: int| 0 <= j < v@.len() && v@[j] == x;
    }
    0
}

pub fn contains_u32(v: &Vec<u32>, x: u32) -> (r: bool)
    ensures
        r == v@.contains(x),
{
    let mut i: usize = 0;
    while i < v.len()
        invariant
            i <= v.len(),
            forall|j: int| 0 <= j < i ==> v@[j] != x,
        decreases v.len() - i,
    {
        if v[i] == x {
            return true;
        }
        i = i + 1;
    }
    false
}

} // verus!
