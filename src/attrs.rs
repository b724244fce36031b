//! Attribute maps, held as sequences of key-value pairs with distinct keys.
use vstd::prelude::*;

use crate::errors::StoreError;

verus! {

/// The pairs of `v` as text.
pub open spec fn pairs_view(v: Seq<(String, String)>) -> Seq<(Seq<char>, Seq<char>)> {
    v.map_values(|p: (String, String)| (p.0@, p.1@))
}

/// Whether some pair of `s` has key `k`.
pub open spec fn has_key(s: Seq<(Seq<char>, Seq<char>)>, k: Seq<char>) -> bool {
    exists|i: int| 0 <= i < s.len() && #[trigger] s[i].0 == k
}

/// Whether `s` holds the pair `(k, v)`.
pub open spec fn has_pair(s: Seq<(Seq<char>, Seq<char>)>, k: Seq<char>, v: Seq<char>) -> bool {
    exists|i: int| 0 <= i < s.len() && #[trigger] s[i] == (k, v)
}

/// No key occurs twice in `s`: `s` is a map.
pub open spec fn keys_distinct(s: Seq<(Seq<char>, Seq<char>)>) -> bool {
    forall|i: int, j: int| 0 <= i < j < s.len() ==> #[trigger] s[i].0 != #[trigger] s[j].0
}

/// The value of key `k` in the map `s`, if it has one.
pub open spec fn value_of(s: Seq<(Seq<char>, Seq<char>)>, k: Seq<char>) -> Option<Seq<char>> {
    if has_key(s, k) {
        Some(s[choose|i: int| 0 <= i < s.len() && #[trigger] s[i].0 == k].1)
    } else {
        None
    }
}

/// Whether `x` is among the first `n` pairs of `s`.
pub open spec fn in_prefix(s: Seq<(Seq<char>, Seq<char>)>, n: int, x: (Seq<char>, Seq<char>)) -> bool {
    exists|j: int| 0 <= j < n && #[trigger] s[j] == x
}

/// The keys that only the store itself sets on an item.
pub open spec fn is_protected(k: Seq<char>) -> bool {
    k == "target"@ || k == "service"@ || k == "username"@
}

/// In a map, the value of a key is the one of any pair that holds it.
pub proof fn lemma_value_of_pair(s: Seq<(Seq<char>, Seq<char>)>, i: int)
    requires
        keys_distinct(s),
        0 <= i < s.len(),
    ensures
        value_of(s, s[i].0) == Some(s[i].1),
{
    let k = s[i].0;
    assert(has_key(s, k));
    let j = choose|j: int| 0 <= j < s.len() && #[trigger] s[j].0 == k;
    assert(value_of(s, k) == Some(s[j].1));
    if j < i {
        assert(s[j].0 != s[i].0);
    } else if i < j {
        assert(s[i].0 != s[j].0);
    }
}

/// Two maps that hold the same pairs give every key the same value.
pub proof fn lemma_same_pairs_same_value(a: Seq<(Seq<char>, Seq<char>)>, b: Seq<(Seq<char>, Seq<char>)>, k: Seq<char>)
    requires
        keys_distinct(a),
        keys_distinct(b),
        forall|x: Seq<char>, y: Seq<char>| #[trigger] has_pair(a, x, y) <==> has_pair(b, x, y),
    ensures
        value_of(a, k) == value_of(b, k),
{
    if has_key(a, k) {
        let i = choose|i: int| 0 <= i < a.len() && #[trigger] a[i].0 == k;
        assert(has_pair(a, k, a[i].1));
        assert(has_pair(b, k, a[i].1));
        let j = choose|j: int| 0 <= j < b.len() && #[trigger] b[j] == (k, a[i].1);
        lemma_value_of_pair(a, i);
        lemma_value_of_pair(b, j);
    } else if has_key(b, k) {
        let j = choose|j: int| 0 <= j < b.len() && #[trigger] b[j].0 == k;
        assert(has_pair(b, k, b[j].1));
        assert(has_pair(a, k, b[j].1));
        let i = choose|i: int| 0 <= i < a.len() && #[trigger] a[i] == (k, b[j].1);
        assert(a[i].0 == k);
    }
}

/// Whether an item with attributes `item` is found by a search for the
/// attributes `query`: the item holds every pair that is searched for.
pub open spec fn found_by(query: Seq<(Seq<char>, Seq<char>)>, item: Seq<(Seq<char>, Seq<char>)>) -> bool {
    forall|i: int| 0 <= i < query.len() ==> has_pair(item, #[trigger] query[i].0, query[i].1)
}

/// Whether `r` is what updating the attributes `e` with `u` gives: every
/// pair of `u`, and every pair of `e` whose key `u` does not set.
pub open spec fn is_merge(e: Seq<(Seq<char>, Seq<char>)>, u: Seq<(Seq<char>, Seq<char>)>, r: Seq<(Seq<char>, Seq<char>)>) -> bool {
    &&& keys_distinct(r)
    &&& forall|k: Seq<char>, v: Seq<char>| #[trigger] has_pair(r, k, v) <==> (
        has_pair(u, k, v) || (has_pair(e, k, v) && !has_key(u, k)))
}

/// An update that passes the check on protected keys leaves the item's
/// `service`, `username` and `target` as they were, and sets every pair it
/// asks for.
pub proof fn lemma_update_keeps_identity(
    e: Seq<(Seq<char>, Seq<char>)>,
    u: Seq<(Seq<char>, Seq<char>)>,
    r: Seq<(Seq<char>, Seq<char>)>,
)
    requires
        forall|i: int| 0 <= i < u.len() ==> !is_protected(#[trigger] u[i].0),
        is_merge(e, u, r),
    ensures
        forall|k: Seq<char>, v: Seq<char>| is_protected(k) ==> (#[trigger] has_pair(r, k, v) <==> has_pair(e, k, v)),
        forall|k: Seq<char>, v: Seq<char>| #[trigger] has_pair(u, k, v) ==> has_pair(r, k, v),
{
    assert forall|k: Seq<char>, v: Seq<char>| is_protected(k) implies (#[trigger] has_pair(r, k, v) <==> has_pair(e, k, v)) by {
        if has_key(u, k) {
            let i = choose|i: int| 0 <= i < u.len() && #[trigger] u[i].0 == k;
            assert(!is_protected(u[i].0));
        }
        if has_pair(u, k, v) {
            let i = choose|i: int| 0 <= i < u.len() && #[trigger] u[i] == (k, v);
            assert(!is_protected(u[i].0));
        }
    }
}

/// The index of the pair with key `k` in `a`, if there is one.
pub fn find_key(a: &Vec<(String, String)>, k: &str) -> (r: Option<usize>)
    ensures
        r is None <==> !has_key(pairs_view(a@), k@),
        r matches Some(i) ==> i < a@.len() && a@[i as int].0@ == k@,
{
    let key = k.to_owned();
    let mut i: usize = 0;
    while i < a.len()
        invariant
            i <= a@.len(),
            key@ == k@,
            forall|j: int| 0 <= j < i ==> a@[j].0@ != k@,
        decreases a@.len() - i,
    {
        if a[i].0 == key {
            assert(pairs_view(a@)[i as int].0 == k@);
            return Some(i);
        }
        i = i + 1;
    }
    assert forall|j: int| 0 <= j < a@.len() implies #[trigger] pairs_view(a@)[j].0 != k@ by {
        assert(a@[j].0@ != k@);
    }
    None
}

/// The value of key `k` in the map `a`.
pub fn get_value(a: &Vec<(String, String)>, k: &str) -> (r: Option<String>)
    requires
        keys_distinct(pairs_view(a@)),
    ensures
        r matches Some(v) ==> value_of(pairs_view(a@), k@) == Some(v@),
        r is None ==> value_of(pairs_view(a@), k@) is None,
{
    match find_key(a, k) {
        Some(i) => {
            proof {
                lemma_value_of_pair(pairs_view(a@), i as int);
            }
            Some(a[i].1.clone())
        },
        None => None,
    }
}

/// Whether `k` is one of the keys that only the store sets.
pub fn protected_key(k: &String) -> (r: bool)
    ensures
        r == is_protected(k@),
{
    let target = "target".to_owned();
    let service = "service".to_owned();
    let username = "username".to_owned();
    *k == target || *k == service || *k == username
}

/// Refuse an attribute update that touches a key the store controls.
pub fn check_updatable(updates: &Vec<(String, String)>) -> (r: Result<(), StoreError>)
    ensures
        r is Ok <==> forall|i: int| 0 <= i < updates@.len() ==> !is_protected(#[trigger] updates@[i].0@),
        r matches Err(e) ==> (e matches StoreError::Invalid(k, m) && is_protected(k@)
            && has_key(pairs_view(updates@), k@) && m@ == "cannot be updated"@),
{
    let mut i: usize = 0;
    while i < updates.len()
        invariant
            i <= updates@.len(),
            forall|j: int| 0 <= j < i ==> !is_protected(#[trigger] updates@[j].0@),
        decreases updates@.len() - i,
    {
        if protected_key(&updates[i].0) {
            assert(pairs_view(updates@)[i as int].0 == updates@[i as int].0@);
            return Err(StoreError::Invalid(updates[i].0.clone(), "cannot be updated".to_owned()));
        }
        i = i + 1;
    }
    Ok(())
}

/// The attributes of an item after an update: every pair of `updates`, and
/// every pair of `existing` whose key `updates` does not set.
pub fn merge_attributes(existing: &Vec<(String, String)>, updates: &Vec<(String, String)>) -> (r: Vec<(String, String)>)
    requires
        keys_distinct(pairs_view(existing@)),
        keys_distinct(pairs_view(updates@)),
    ensures
        is_merge(pairs_view(existing@), pairs_view(updates@), pairs_view(r@)),
{
    let ghost e = pairs_view(existing@);
    let ghost u = pairs_view(updates@);
    let mut r: Vec<(String, String)> = Vec::new();
    let mut i: usize = 0;
    while i < existing.len()
        invariant
            i <= existing@.len(),
            e == pairs_view(existing@),
            u == pairs_view(updates@),
            keys_distinct(e),
            keys_distinct(pairs_view(r@)),
            forall|m: int| 0 <= m < r@.len() ==> !has_key(u, #[trigger] pairs_view(r@)[m].0),
            forall|m: int| 0 <= m < r@.len() ==> in_prefix(e, i as int, #[trigger] pairs_view(r@)[m]),
            forall|j: int| 0 <= j < i && !has_key(u, #[trigger] e[j].0) ==> has_pair(pairs_view(r@), e[j].0, e[j].1),
        decreases existing@.len() - i,
    {
        let ghost old_r = pairs_view(r@);
        if find_key(updates, existing[i].0.as_str()).is_none() {
            let pair = (existing[i].0.clone(), existing[i].1.clone());
            r.push(pair);
            proof {
                let nr = pairs_view(r@);
                assert(nr =~= old_r.push(e[i as int]));
                assert forall|a: int, b: int| 0 <= a < b < nr.len() implies #[trigger] nr[a].0 != #[trigger] nr[b].0 by {
                    if b == nr.len() - 1 {
                        assert(in_prefix(e, i as int, old_r[a]));
                        let j = choose|j: int| 0 <= j < i && #[trigger] e[j] == old_r[a];
                        assert(e[j].0 != e[i as int].0);
                    } else {
                        assert(old_r[a].0 != old_r[b].0);
                    }
                }
                assert forall|m: int| 0 <= m < nr.len() implies in_prefix(e, i + 1, #[trigger] nr[m]) by {
                    if m == nr.len() - 1 {
                        assert(e[i as int] == nr[m]);
                    } else {
                        assert(old_r[m] == nr[m]);
                        assert(in_prefix(e, i as int, old_r[m]));
                        let j = choose|j: int| 0 <= j < i && #[trigger] e[j] == old_r[m];
                        assert(e[j] == nr[m]);
                    }
                }
                assert forall|j: int| 0 <= j < i + 1 && !has_key(u, #[trigger] e[j].0) implies has_pair(nr, e[j].0, e[j].1) by {
                    if j == i {
                        assert(nr[nr.len() - 1] == (e[j].0, e[j].1));
                    } else {
                        let m = choose|m: int| 0 <= m < old_r.len() && #[trigger] old_r[m] == (e[j].0, e[j].1);
                        assert(nr[m] == old_r[m]);
                    }
                }
            }
        }
        i = i + 1;
    }
    let ghost kept = pairs_view(r@);
    let mut j: usize = 0;
    while j < updates.len()
        invariant
            j <= updates@.len(),
            e == pairs_view(existing@),
            u == pairs_view(updates@),
            keys_distinct(u),
            keys_distinct(kept),
            pairs_view(r@) =~= kept + u.subrange(0, j as int),
            forall|m: int| 0 <= m < kept.len() ==> !has_key(u, #[trigger] kept[m].0),
        decreases updates@.len() - j,
    {
        let ghost before = pairs_view(r@);
        let pair = (updates[j].0.clone(), updates[j].1.clone());
        r.push(pair);
        proof {
            assert(pairs_view(r@) =~= before.push(u[j as int]));
            assert(kept + u.subrange(0, j + 1) =~= (kept + u.subrange(0, j as int)).push(u[j as int]));
        }
        j = j + 1;
    }
    proof {
        let nr = pairs_view(r@);
        assert(nr =~= kept + u);
        assert forall|a: int, b: int| 0 <= a < b < nr.len() implies #[trigger] nr[a].0 != #[trigger] nr[b].0 by {
            if b >= kept.len() && a < kept.len() {
                assert(u[b - kept.len()].0 == nr[b].0);
                if nr[a].0 == nr[b].0 {
                    assert(has_key(u, kept[a].0));
                }
            } else if a >= kept.len() {
                assert(u[a - kept.len()].0 != u[b - kept.len()].0);
            } else {
                assert(kept[a].0 != kept[b].0);
            }
        }
        assert forall|k: Seq<char>, v: Seq<char>| #[trigger] has_pair(nr, k, v) <==> (
            has_pair(u, k, v) || (has_pair(e, k, v) && !has_key(u, k))) by {
            if has_pair(nr, k, v) {
                let m = choose|m: int| 0 <= m < nr.len() && #[trigger] nr[m] == (k, v);
                if m >= kept.len() {
                    assert(u[m - kept.len()] == (k, v));
                } else {
                    assert(kept[m] == (k, v));
                    assert(!has_key(u, kept[m].0));
                    assert(in_prefix(e, e.len() as int, kept[m]));
                    let jj = choose|jj: int| 0 <= jj < e.len() && #[trigger] e[jj] == kept[m];
                    assert(e[jj] == (k, v));
                }
            }
            if has_pair(u, k, v) {
                let m = choose|m: int| 0 <= m < u.len() && #[trigger] u[m] == (k, v);
                assert(nr[kept.len() + m] == (k, v));
            }
            if has_pair(e, k, v) && !has_key(u, k) {
                let jj = choose|jj: int| 0 <= jj < e.len() && #[trigger] e[jj] == (k, v);
                assert(!has_key(u, e[jj].0));
                assert(has_pair(kept, k, v));
                let m = choose|m: int| 0 <= m < kept.len() && #[trigger] kept[m] == (k, v);
                assert(nr[m] == (k, v));
            }
        }
    }
    r
}

} // verus!
