//! Records kept in a `Vec` and found by the account they belong to.
//!
//! Each contract stores at most one record per account; the records are kept
//! in a vector and seen, in contracts, as a map from account to record.

use vstd::prelude::*;

use crate::account::AccountId;

verus! {

/// A record that belongs to one account.
pub trait Keyed {
    /// The account the record belongs to.
    spec fn key_of(&self) -> AccountId;

    /// Returns the account the record belongs to.
    fn key(&self) -> (r: AccountId)
        ensures
            r == self.key_of(),
    ;
}

/// No two records of `s` belong to the same account.
pub open spec fn unique_keys<T: Keyed>(s: Seq<T>) -> bool {
    forall|i: int, j: int|
        0 <= i < s.len() && 0 <= j < s.len() && i != j ==> #[trigger] s[i].key_of()
            != #[trigger] s[j].key_of()
}

/// Some record of `s` belongs to `a`.
pub open spec fn has_key<T: Keyed>(s: Seq<T>, a: AccountId) -> bool {
    exists|i: int| 0 <= i < s.len() && #[trigger] s[i].key_of() == a
}

/// The position of a record of `s` that belongs to `a`.
pub open spec fn index_of<T: Keyed>(s: Seq<T>, a: AccountId) -> int {
    choose|i: int| 0 <= i < s.len() && #[trigger] s[i].key_of() == a
}

/// The records of `s` seen as a map from account to record.
pub open spec fn keyed_map<T: Keyed>(s: Seq<T>) -> Map<AccountId, T> {
    Map::new(|a: AccountId| has_key(s, a), |a: AccountId| s[index_of(s, a)])
}

/// Where the keys are unique, the map holds at `s[i].key_of()` exactly `s[i]`.
pub proof fn lemma_keyed_map_at<T: Keyed>(s: Seq<T>, i: int)
    requires
        unique_keys(s),
        0 <= i < s.len(),
    ensures
        keyed_map(s).contains_key(s[i].key_of()),
        keyed_map(s)[s[i].key_of()] == s[i],
{
    let a = s[i].key_of();
    assert(has_key(s, a));
    let j = index_of(s, a);
    assert(s[j].key_of() == a);
}

/// Appending a record for a fresh account inserts it into the map.
pub proof fn lemma_keyed_map_push<T: Keyed>(s: Seq<T>, x: T)
    requires
        unique_keys(s),
        !has_key(s, x.key_of()),
    ensures
        unique_keys(s.push(x)),
        keyed_map(s.push(x)) == keyed_map(s).insert(x.key_of(), x),
{
    let t = s.push(x);
    assert forall|i: int, j: int|
        0 <= i < t.len() && 0 <= j < t.len() && i != j implies #[trigger] t[i].key_of()
        != #[trigger] t[j].key_of() by {
        if i < s.len() && j < s.len() {
            assert(s[i] == t[i] && s[j] == t[j]);
        } else if i < s.len() {
            assert(s[i] == t[i]);
        } else {
            assert(s[j] == t[j]);
        }
    }
    assert forall|a: AccountId| #[trigger] has_key(t, a) == (has_key(s, a) || a == x.key_of()) by {
        if has_key(s, a) {
            let k = index_of(s, a);
            assert(t[k] == s[k]);
        }
        if a == x.key_of() {
            assert(t[s.len() as int] == x);
        }
        if has_key(t, a) {
            let k = index_of(t, a);
            if k < s.len() {
                assert(t[k] == s[k]);
            }
        }
    }
    assert forall|a: AccountId| #[trigger] keyed_map(t).contains_key(a) implies keyed_map(t)[a]
        == keyed_map(s).insert(x.key_of(), x)[a] by {
        if a == x.key_of() {
            lemma_keyed_map_at(t, s.len() as int);
        } else {
            let k = index_of(s, a);
            assert(t[k] == s[k]);
            lemma_keyed_map_at(t, k);
            lemma_keyed_map_at(s, k);
        }
    }
    assert(keyed_map(t) =~= keyed_map(s).insert(x.key_of(), x));
}

/// Replacing the record at `i` by one for the same account updates that entry.
pub proof fn lemma_keyed_map_update<T: Keyed>(s: Seq<T>, i: int, x: T)
    requires
        unique_keys(s),
        0 <= i < s.len(),
        x.key_of() == s[i].key_of(),
    ensures
        unique_keys(s.update(i, x)),
        keyed_map(s.update(i, x)) == keyed_map(s).insert(x.key_of(), x),
{
    let t = s.update(i, x);
    assert forall|p: int, q: int|
        0 <= p < t.len() && 0 <= q < t.len() && p != q implies #[trigger] t[p].key_of()
        != #[trigger] t[q].key_of() by {
        assert(t[p].key_of() == s[p].key_of());
        assert(t[q].key_of() == s[q].key_of());
    }
    assert forall|a: AccountId| #[trigger] has_key(t, a) == has_key(s, a) by {
        if has_key(s, a) {
            let k = index_of(s, a);
            assert(t[k].key_of() == s[k].key_of());
        }
        if has_key(t, a) {
            let k = index_of(t, a);
            assert(t[k].key_of() == s[k].key_of());
        }
    }
    lemma_keyed_map_at(s, i);
    assert forall|a: AccountId| #[trigger] keyed_map(t).contains_key(a) implies keyed_map(t)[a]
        == keyed_map(s).insert(x.key_of(), x)[a] by {
        let k = index_of(t, a);
        lemma_keyed_map_at(t, k);
        if k != i {
            assert(t[k] == s[k]);
            lemma_keyed_map_at(s, k);
        }
    }
    assert(keyed_map(t) =~= keyed_map(s).insert(x.key_of(), x));
}

/// Removing the record at `i` removes its account from the map.
pub proof fn lemma_keyed_map_remove<T: Keyed>(s: Seq<T>, i: int)
    requires
        unique_keys(s),
        0 <= i < s.len(),
    ensures
        unique_keys(s.remove(i)),
        keyed_map(s.remove(i)) == keyed_map(s).remove(s[i].key_of()),
{
    let t = s.remove(i);
    let a0 = s[i].key_of();
    assert forall|p: int, q: int|
        0 <= p < t.len() && 0 <= q < t.len() && p != q implies #[trigger] t[p].key_of()
        != #[trigger] t[q].key_of() by {
        let pp = if p < i { p } else { p + 1 };
        let qq = if q < i { q } else { q + 1 };
        assert(t[p] == s[pp]);
        assert(t[q] == s[qq]);
    }
    assert forall|a: AccountId| #[trigger] has_key(t, a) == (has_key(s, a) && a != a0) by {
        if has_key(t, a) {
            let k = index_of(t, a);
            let kk = if k < i { k } else { k + 1 };
            assert(t[k] == s[kk]);
        }
        if has_key(s, a) && a != a0 {
            let k = index_of(s, a);
            if k < i {
                assert(t[k] == s[k]);
            } else {
                assert(k != i);
                assert(t[k - 1] == s[k]);
            }
        }
    }
    assert forall|a: AccountId| #[trigger] keyed_map(t).contains_key(a) implies keyed_map(t)[a]
        == keyed_map(s).remove(a0)[a] by {
        let k = index_of(t, a);
        let kk = if k < i { k } else { k + 1 };
        assert(t[k] == s[kk]);
        lemma_keyed_map_at(t, k);
        lemma_keyed_map_at(s, kk);
    }
    assert(keyed_map(t) =~= keyed_map(s).remove(a0));
}

/// Whether no two records of `v` belong to the same account.
pub fn keys_are_unique<T: Keyed>(v: &Vec<T>) -> (r: bool)
    ensures
        r == unique_keys(v@),
{
    let mut i: usize = 0;
    while i < v.len()
        invariant
            0 <= i <= v@.len(),
            forall|p: int, q: int|
                0 <= p < i && 0 <= q < v@.len() && p != q ==> #[trigger] v@[p].key_of()
                    != #[trigger] v@[q].key_of(),
        decreases v@.len() - i,
    {
        let ki = v[i].key();
        let mut j: usize = 0;
        while j < v.len()
            invariant
                0 <= i < v@.len(),
                0 <= j <= v@.len(),
                ki == v@[i as int].key_of(),
                forall|q: int| 0 <= q < j && q != i ==> v@[i as int].key_of() != #[trigger] v@[q].key_of(),
            decreases v@.len() - j,
        {
            if j != i {
                let kj = v[j].key();
                if ki.same_as(&kj) {
                    return false;
                }
            }
            j = j + 1;
        }
        i = i + 1;
    }
    true
}

/// Finds the position of the record that belongs to `a`, if there is one.
pub fn position_of<T: Keyed>(v: &Vec<T>, a: &AccountId) -> (r: Option<usize>)
    ensures
        match r {
            Some(i) => i < v@.len() && v@[i as int].key_of() == *a,
            None => !has_key(v@, *a),
        },
{
    let mut i: usize = 0;
    while i < v.len()
        invariant
            0 <= i <= v@.len(),
            forall|j: int| 0 <= j < i ==> #[trigger] v@[j].key_of() != *a,
        decreases v@.len() - i,
    {
        let k = v[i].key();
        if k.same_as(a) {
            return Some(i);
        }
        i = i + 1;
    }
    None
}

} // verus!
