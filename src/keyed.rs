use vstd::prelude::*;
use crate::msg::{FarmInfo, PotRecord, UserRecord};

verus! {

/// A ledger entry that belongs to one account.
pub trait Keyed {
    spec fn key(&self) -> Seq<char>;

    fn account_ref(&self) -> (r: &String)
        ensures
            r@ == self.key(),
    ;
}

impl Keyed for UserRecord {
    open spec fn key(&self) -> Seq<char> {
        self.account@
    }

    fn account_ref(&self) -> (r: &String) {
        &self.account
    }
}

impl Keyed for PotRecord {
    open spec fn key(&self) -> Seq<char> {
        self.account@
    }

    fn account_ref(&self) -> (r: &String) {
        &self.account
    }
}

impl Keyed for FarmInfo {
    open spec fn key(&self) -> Seq<char> {
        self.account@
    }

    fn account_ref(&self) -> (r: &String) {
        &self.account
    }
}

/// No two entries of `s` belong to the same account.
pub open spec fn keys_unique<T: Keyed>(s: Seq<T>) -> bool {
    forall|i: int, j: int|
        0 <= i < s.len() && 0 <= j < s.len() && i != j ==> #[trigger] s[i].key() != #[trigger] s[j].key()
}

/// Some entry of `s` belongs to account `k`.
pub open spec fn has_key<T: Keyed>(s: Seq<T>, k: Seq<char>) -> bool {
    exists|i: int| 0 <= i < s.len() && #[trigger] s[i].key() == k
}

/// Position of the entry of account `k` in `s`, where there is one.
pub open spec fn key_index<T: Keyed>(s: Seq<T>, k: Seq<char>) -> int {
    choose|i: int| 0 <= i < s.len() && #[trigger] s[i].key() == k
}

/// In a ledger with unique keys, the entry of an account is found at `key_index`.
pub proof fn lemma_key_index<T: Keyed>(s: Seq<T>, i: int)
    requires
        keys_unique(s),
        0 <= i < s.len(),
    ensures
        has_key(s, s[i].key()),
        key_index(s, s[i].key()) == i,
{
    let k = s[i].key();
    assert(s[i].key() == k);
    let j = key_index(s, k);
    assert(0 <= j < s.len() && s[j].key() == k);
}

/// Position of the entry of account `k`.
pub fn find_key<T: Keyed>(v: &Vec<T>, k: &String) -> (r: Option<usize>)
    requires
        keys_unique(v@),
    ensures
        match r {
            Some(i) => has_key(v@, k@) && i == key_index(v@, k@) && i < v@.len(),
            None => !has_key(v@, k@),
        },
{
    let mut i: usize = 0;
    while i < v.len()
        invariant
            i <= v.len(),
            keys_unique(v@),
            forall|j: int| 0 <= j < i ==> #[trigger] v@[j].key() != k@,
        decreases v.len() - i,
    {
        if *v[i].account_ref() == *k {
            proof {
                lemma_key_index(v@, i as int);
            }
            return Some(i);
        }
        i = i + 1;
    }
    None
}

/// Replacing an entry by one of the same account keeps the keys unique.
pub proof fn lemma_update_same_key<T: Keyed>(s: Seq<T>, i: int, x: T)
    requires
        keys_unique(s),
        0 <= i < s.len(),
        x.key() == s[i].key(),
    ensures
        keys_unique(s.update(i, x)),
        forall|k: Seq<char>| has_key(s.update(i, x), k) == has_key(s, k),
{
    let t = s.update(i, x);
    assert forall|k: Seq<char>| has_key(t, k) == has_key(s, k) by {
        if has_key(t, k) {
            let j = choose|j: int| 0 <= j < t.len() && #[trigger] t[j].key() == k;
            assert(s[j].key() == k);
        }
        if has_key(s, k) {
            let j = choose|j: int| 0 <= j < s.len() && #[trigger] s[j].key() == k;
            assert(t[j].key() == k);
        }
    }
}

/// Appending an entry of an account not yet present keeps the keys unique.
pub proof fn lemma_push_new_key<T: Keyed>(s: Seq<T>, x: T)
    requires
        keys_unique(s),
        !has_key(s, x.key()),
    ensures
        keys_unique(s.push(x)),
        has_key(s.push(x), x.key()),
        key_index(s.push(x), x.key()) == s.len(),
{
    let t = s.push(x);
    assert forall|i: int, j: int|
        0 <= i < t.len() && 0 <= j < t.len() && i != j implies #[trigger] t[i].key() != #[trigger] t[j].key() by {
        if i < s.len() && j < s.len() {
            assert(s[i].key() != s[j].key());
        } else if i < s.len() {
            assert(s[i].key() == t[i].key());
        } else {
            assert(s[j].key() == t[j].key());
        }
    }
    lemma_key_index(t, s.len() as int);
}

} // verus!
