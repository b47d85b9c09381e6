use crate::address::bytes32_eq;
use crate::escrow_types::Vault;
use vstd::prelude::*;

verus! {

/// The vaults as stored: commitment and vault, one entry per commitment.
pub open spec fn keys_distinct(v: Seq<([u8; 32], Vault)>) -> bool {
    forall|i: int, j: int|
        #![trigger v[i], v[j]]
        0 <= i < j < v.len() ==> v[i].0@ != v[j].0@
}

/// Whether some entry of `v` has the commitment `k`.
pub open spec fn has_key(v: Seq<([u8; 32], Vault)>, k: Seq<u8>) -> bool {
    exists|i: int| #![trigger v[i]] 0 <= i < v.len() && v[i].0@ == k
}

/// The vaults of `v` keyed by the bytes of their commitments.
pub open spec fn vault_map(v: Seq<([u8; 32], Vault)>) -> Map<Seq<u8>, Vault> {
    Map::new(
        |k: Seq<u8>| has_key(v, k),
        |k: Seq<u8>| v[choose|i: int| #![trigger v[i]] 0 <= i < v.len() && v[i].0@ == k].1,
    )
}

pub proof fn lemma_lookup(v: Seq<([u8; 32], Vault)>, i: int)
    requires
        keys_distinct(v),
        0 <= i < v.len(),
    ensures
        vault_map(v).contains_key(v[i].0@),
        vault_map(v)[v[i].0@] == v[i].1,
{
    let k = v[i].0@;
    assert(has_key(v, k));
    let j = choose|j: int| #![trigger v[j]] 0 <= j < v.len() && v[j].0@ == k;
    if j < i {
        assert(v[j].0@ != v[i].0@);
    } else if i < j {
        assert(v[i].0@ != v[j].0@);
    }
}

pub proof fn lemma_absent(v: Seq<([u8; 32], Vault)>, k: Seq<u8>)
    requires
        forall|j: int| 0 <= j < v.len() ==> v[j].0@ != k,
    ensures
        !vault_map(v).contains_key(k),
{
}

pub proof fn lemma_update(v: Seq<([u8; 32], Vault)>, i: int, nv: Vault)
    requires
        keys_distinct(v),
        0 <= i < v.len(),
    ensures
        keys_distinct(v.update(i, (v[i].0, nv))),
        vault_map(v.update(i, (v[i].0, nv))) == vault_map(v).insert(v[i].0@, nv),
{
    let w = v.update(i, (v[i].0, nv));
    assert forall|a: int, b: int| #![trigger w[a], w[b]] 0 <= a < b < w.len() implies w[a].0@
        != w[b].0@ by {
        assert(w[a].0 == v[a].0);
        assert(w[b].0 == v[b].0);
        assert(v[a].0@ != v[b].0@);
    }
    let m = vault_map(v).insert(v[i].0@, nv);
    assert forall|k: Seq<u8>| #[trigger] vault_map(w).contains_key(k) <==> m.contains_key(k) by {
        if has_key(w, k) {
            let j = choose|j: int| #![trigger w[j]] 0 <= j < w.len() && w[j].0@ == k;
            assert(v[j].0 == w[j].0);
            assert(has_key(v, k));
        }
        if has_key(v, k) {
            let j = choose|j: int| #![trigger v[j]] 0 <= j < v.len() && v[j].0@ == k;
            assert(v[j].0 == w[j].0);
            assert(has_key(w, k));
        }
        if k == v[i].0@ {
            assert(w[i].0 == v[i].0);
            assert(has_key(w, k));
        }
    }
    assert forall|k: Seq<u8>| #[trigger] vault_map(w).contains_key(k) implies vault_map(w)[k]
        == m[k] by {
        let j = choose|j: int| #![trigger w[j]] 0 <= j < w.len() && w[j].0@ == k;
        assert(v[j].0 == w[j].0);
        lemma_lookup(v, j);
        if j == i {
        } else {
            assert(w[j] == v[j]);
            assert(k != v[i].0@) by {
                if j < i {
                    assert(v[j].0@ != v[i].0@);
                } else {
                    assert(v[i].0@ != v[j].0@);
                }
            }
        }
        lemma_lookup(w, j);
    }
    assert(vault_map(w) =~= m);
}

pub proof fn lemma_push(v: Seq<([u8; 32], Vault)>, key: [u8; 32], nv: Vault)
    requires
        keys_distinct(v),
        forall|j: int| 0 <= j < v.len() ==> v[j].0@ != key@,
    ensures
        keys_distinct(v.push((key, nv))),
        vault_map(v.push((key, nv))) == vault_map(v).insert(key@, nv),
{
    let w = v.push((key, nv));
    assert forall|a: int, b: int| #![trigger w[a], w[b]] 0 <= a < b < w.len() implies w[a].0@
        != w[b].0@ by {
        assert(w[a] == v[a]);
        if b < v.len() {
            assert(w[b] == v[b]);
        }
    }
    let m = vault_map(v).insert(key@, nv);
    assert forall|k: Seq<u8>| #[trigger] vault_map(w).contains_key(k) <==> m.contains_key(k) by {
        if has_key(w, k) {
            let j = choose|j: int| #![trigger w[j]] 0 <= j < w.len() && w[j].0@ == k;
            if j < v.len() {
                assert(w[j] == v[j]);
                assert(has_key(v, k));
            }
        }
        if has_key(v, k) {
            let j = choose|j: int| #![trigger v[j]] 0 <= j < v.len() && v[j].0@ == k;
            assert(w[j] == v[j]);
            assert(has_key(w, k));
        }
        if k == key@ {
            assert(w[v.len() as int].0 == key);
            assert(has_key(w, k));
        }
    }
    assert forall|k: Seq<u8>| #[trigger] vault_map(w).contains_key(k) implies vault_map(w)[k]
        == m[k] by {
        let j = choose|j: int| #![trigger w[j]] 0 <= j < w.len() && w[j].0@ == k;
        lemma_lookup(w, j);
        if j < v.len() {
            assert(w[j] == v[j]);
            lemma_lookup(v, j);
        }
    }
    assert(vault_map(w) =~= m);
}

/// Finds the entry of `v` whose commitment is `key`.
pub fn find_vault(v: &Vec<([u8; 32], Vault)>, key: &[u8; 32]) -> (r: Option<usize>)
    ensures
        match r {
            Some(i) => i < v.len() && v@[i as int].0@ == key@,
            None => forall|j: int| 0 <= j < v.len() ==> v@[j].0@ != key@,
        },
{
    let mut i: usize = 0;
    while i < v.len()
        invariant
            0 <= i <= v.len(),
            forall|j: int| 0 <= j < i ==> v@[j].0@ != key@,
        decreases v.len() - i,
    {
        if bytes32_eq(&v[i].0, key) {
            return Some(i);
        }
        i = i + 1;
    }
    None
}

} // verus!
