use crate::state::LoginState;
use vstd::prelude::*;

verus! {

/// Why a value could not be taken out of a login-state store.
#[derive(Clone, Copy, Debug, PartialEq, Eq, Structural)]
pub enum StoreError {
    /// The key was never stored, was already taken, was evicted or has expired.
    NotFound,
}

/// One stored login state, with the instant after which it is gone.
#[derive(Clone, Debug)]
pub struct StoreEntry {
    pub key: String,
    pub value: LoginState,
    /// First instant (in the caller's clock unit) at which the entry is expired.
    pub expires_at: u64,
}

/// Index of the entry stored under `k`, or -1 where there is none (the last one if several).
pub open spec fn key_index(s: Seq<StoreEntry>, k: Seq<char>) -> int
    decreases s.len(),
{
    if s.len() == 0 {
        -1
    } else if s.last().key@ == k {
        s.len() - 1
    } else {
        key_index(s.drop_last(), k)
    }
}

pub open spec fn has_key(s: Seq<StoreEntry>, k: Seq<char>) -> bool {
    exists|i: int| 0 <= i < s.len() && (#[trigger] s[i]).key@ == k
}

pub open spec fn unique_keys(s: Seq<StoreEntry>) -> bool {
    forall|i: int, j: int|
        0 <= i < s.len() && 0 <= j < s.len() && i != j ==> (#[trigger] s[i]).key@ != (#[trigger] s[j]).key@
}

/// `now + ttl`, held at `u64::MAX` where it would not fit.
pub open spec fn expiry(now: u64, ttl: u64) -> u64 {
    if now + ttl > u64::MAX { u64::MAX } else { (now + ttl) as u64 }
}

/// What `set` leaves: the old entry under the key of `e` is dropped, `e` goes last, and the
/// oldest entries go where more than `cap` remain.
pub open spec fn set_spec(s: Seq<StoreEntry>, cap: nat, e: StoreEntry) -> Seq<StoreEntry> {
    let i = key_index(s, e.key@);
    let kept = if i >= 0 { s.remove(i) } else { s };
    let all = kept.push(e);
    if all.len() > cap { all.subrange(all.len() - cap, all.len() as int) } else { all }
}

/// What `get_and_remove` leaves and returns: the entry under `k` is always dropped, and its
/// value comes back only where it has not expired at `now`.
pub open spec fn take_spec(s: Seq<StoreEntry>, k: Seq<char>, now: u64) -> (Seq<StoreEntry>, Option<LoginState>) {
    let i = key_index(s, k);
    if i < 0 {
        (s, None)
    } else if now < s[i].expires_at {
        (s.remove(i), Some(s[i].value))
    } else {
        (s.remove(i), None)
    }
}


proof fn lemma_key_index(s: Seq<StoreEntry>, k: Seq<char>)
    ensures
        -1 <= key_index(s, k) < s.len(),
        key_index(s, k) >= 0 ==> s[key_index(s, k)].key@ == k,
        key_index(s, k) < 0 <==> !has_key(s, k),
    decreases s.len(),
{
    if s.len() > 0 && s.last().key@ != k {
        lemma_key_index(s.drop_last(), k);
        if has_key(s, k) {
            let j = choose|j: int| 0 <= j < s.len() && (#[trigger] s[j]).key@ == k;
            assert(s.drop_last()[j].key@ == k);
        }
        if has_key(s.drop_last(), k) {
            let j = choose|j: int| 0 <= j < s.drop_last().len() && (#[trigger] s.drop_last()[j]).key@ == k;
            assert(s[j].key@ == k);
        }
    }
}

proof fn lemma_remove_unique(s: Seq<StoreEntry>, i: int)
    requires
        unique_keys(s),
        0 <= i < s.len(),
    ensures
        unique_keys(s.remove(i)),
        !has_key(s.remove(i), s[i].key@),
        forall|k: Seq<char>| k != s[i].key@ ==> has_key(s.remove(i), k) == has_key(s, k),
{
    let r = s.remove(i);
    assert forall|a: int| 0 <= a < r.len() implies #[trigger] r[a] == s[if a < i { a } else { a + 1 }] by {}
    assert forall|k: Seq<char>| k != s[i].key@ && has_key(s, k) implies has_key(r, k) by {
        let j = choose|j: int| 0 <= j < s.len() && (#[trigger] s[j]).key@ == k;
        assert(r[if j < i { j } else { j - 1 }].key@ == k);
    }
}

proof fn lemma_subrange_unique(s: Seq<StoreEntry>, lo: int)
    requires
        unique_keys(s),
        0 <= lo <= s.len(),
    ensures
        unique_keys(s.subrange(lo, s.len() as int)),
        forall|k: Seq<char>| has_key(s.subrange(lo, s.len() as int), k) ==> has_key(s, k),
{
    let r = s.subrange(lo, s.len() as int);
    assert forall|a: int| 0 <= a < r.len() implies #[trigger] r[a] == s[a + lo] by {}
    assert forall|k: Seq<char>| has_key(r, k) implies has_key(s, k) by {
        let j = choose|j: int| 0 <= j < r.len() && (#[trigger] r[j]).key@ == k;
        assert(s[j + lo].key@ == k);
    }
}

/// After `set`, the keys stay unique and no more than `cap` entries remain.
pub proof fn lemma_set_keeps_bounds(s: Seq<StoreEntry>, cap: nat, e: StoreEntry)
    requires
        unique_keys(s),
        s.len() <= cap,
    ensures
        unique_keys(set_spec(s, cap, e)),
        set_spec(s, cap, e).len() <= cap,
        cap > 0 ==> set_spec(s, cap, e).last() == e,
{
    let i = key_index(s, e.key@);
    lemma_key_index(s, e.key@);
    let kept = if i >= 0 { s.remove(i) } else { s };
    if i >= 0 {
        lemma_remove_unique(s, i);
    }
    let all = kept.push(e);
    assert forall|a: int| 0 <= a < kept.len() implies (#[trigger] all[a]).key@ != e.key@ by {
        assert(all[a] == kept[a]);
    }
    assert(unique_keys(all));
    if all.len() > cap {
        lemma_subrange_unique(all, all.len() - cap);
    }
}

/// Taking a key leaves the keys unique and the key absent.
pub proof fn lemma_take_clears_key(s: Seq<StoreEntry>, k: Seq<char>, now: u64)
    requires
        unique_keys(s),
    ensures
        unique_keys(take_spec(s, k, now).0),
        !has_key(take_spec(s, k, now).0, k),
        take_spec(s, k, now).0.len() <= s.len(),
{
    lemma_key_index(s, k);
    let i = key_index(s, k);
    if i >= 0 {
        lemma_remove_unique(s, i);
    }
}

/// A read is destructive: once a key has been taken, taking it again finds nothing,
/// whether the first read found a live value or not.
pub proof fn lemma_take_twice(s: Seq<StoreEntry>, k: Seq<char>, first: u64, second: u64)
    requires
        unique_keys(s),
    ensures
        take_spec(take_spec(s, k, first).0, k, second).1 is None,
{
    lemma_take_clears_key(s, k, first);
    lemma_key_index(take_spec(s, k, first).0, k);
}

/// The number of the reads at the instants `nows`, one after another, that find a value.
pub open spec fn successes(s: Seq<StoreEntry>, k: Seq<char>, nows: Seq<u64>) -> nat
    decreases nows.len(),
{
    if nows.len() == 0 {
        0
    } else {
        let (rest, r) = take_spec(s, k, nows[0]);
        (if r is Some { 1nat } else { 0nat }) + successes(rest, k, nows.drop_first())
    }
}

proof fn lemma_no_successes_without_key(s: Seq<StoreEntry>, k: Seq<char>, nows: Seq<u64>)
    requires
        !has_key(s, k),
    ensures
        successes(s, k, nows) == 0,
    decreases nows.len(),
{
    lemma_key_index(s, k);
    if nows.len() > 0 {
        lemma_no_successes_without_key(s, k, nows.drop_first());
    }
}

/// Of any number of reads of one key, exactly one finds the value where the key holds one
/// that is live at the first read, and none otherwise.
pub proof fn lemma_single_success(s: Seq<StoreEntry>, k: Seq<char>, nows: Seq<u64>)
    requires
        unique_keys(s),
        nows.len() >= 1,
    ensures
        successes(s, k, nows) == (if take_spec(s, k, nows[0]).1 is Some { 1nat } else { 0nat }),
{
    lemma_take_clears_key(s, k, nows[0]);
    lemma_no_successes_without_key(take_spec(s, k, nows[0]).0, k, nows.drop_first());
}

/// A value set with a time-to-live of `ttl` at `t0` is no longer found at or after `t0 + ttl`.
pub proof fn lemma_expired_unreachable(
    s: Seq<StoreEntry>,
    cap: nat,
    e: StoreEntry,
    t0: u64,
    ttl: u64,
    t1: u64,
)
    requires
        unique_keys(s),
        s.len() <= cap,
        e.expires_at == expiry(t0, ttl),
        t1 >= t0 + ttl,
    ensures
        take_spec(set_spec(s, cap, e), e.key@, t1).1 is None,
{
    let s1 = set_spec(s, cap, e);
    lemma_set_keeps_bounds(s, cap, e);
    lemma_key_index(s1, e.key@);
    let i = key_index(s1, e.key@);
    if i >= 0 {
        assert(s1[s1.len() - 1].key@ == e.key@);
        assert(i == s1.len() - 1);
    }
}

/// A full store that takes a new key drops its oldest entry, and never holds more than
/// its capacity.
pub proof fn lemma_full_store_evicts_oldest(s: Seq<StoreEntry>, cap: nat, e: StoreEntry)
    requires
        unique_keys(s),
        s.len() == cap,
        cap > 0,
        !has_key(s, e.key@),
    ensures
        !has_key(set_spec(s, cap, e), s[0].key@),
        set_spec(s, cap, e).len() == cap,
{
    lemma_key_index(s, e.key@);
    let all = s.push(e);
    let r = all.subrange(1, all.len() as int);
    assert(s[0].key@ != e.key@);
    assert forall|a: int| 0 <= a < r.len() implies (#[trigger] r[a]).key@ != s[0].key@ by {
        assert(r[a] == all[a + 1]);
        if a + 1 < s.len() {
            assert(all[a + 1] == s[a + 1]);
        }
    }
}


/// The store left by setting each of `es` in turn.
pub open spec fn set_all(s: Seq<StoreEntry>, cap: nat, es: Seq<StoreEntry>) -> Seq<StoreEntry>
    decreases es.len(),
{
    if es.len() == 0 {
        s
    } else {
        set_all(set_spec(s, cap, es[0]), cap, es.drop_first())
    }
}

/// Setting `k` new keys, one after another, into a full store evicts exactly its `k` oldest
/// entries: the rest stay, in order, followed by the new entries.
pub proof fn lemma_full_store_evicts_in_order(s: Seq<StoreEntry>, cap: nat, es: Seq<StoreEntry>)
    requires
        unique_keys(s),
        s.len() == cap,
        unique_keys(es),
        es.len() <= cap,
        forall|i: int| 0 <= i < es.len() ==> !has_key(s, (#[trigger] es[i]).key@),
    ensures
        set_all(s, cap, es) == s.subrange(es.len() as int, cap as int) + es,
        forall|i: int| 0 <= i < es.len() ==> !has_key(set_all(s, cap, es), (#[trigger] s[i]).key@),
    decreases es.len(),
{
    let k = es.len() as int;
    if k == 0 {
        assert(s.subrange(0, cap as int) + es =~= s);
    } else {
        let e = es[0];
        let rest = es.drop_first();
        let s1 = set_spec(s, cap, e);
        lemma_full_store_evicts_oldest(s, cap, e);
        lemma_set_keeps_bounds(s, cap, e);
        lemma_key_index(s, e.key@);
        assert(s1 =~= s.subrange(1, cap as int).push(e));
        assert forall|a: int, b: int|
            0 <= a < rest.len() && 0 <= b < rest.len() && a != b implies (#[trigger] rest[a]).key@
            != (#[trigger] rest[b]).key@ by {
            assert(rest[a] == es[a + 1] && rest[b] == es[b + 1]);
        }
        assert forall|i: int| 0 <= i < rest.len() implies !has_key(s1, (#[trigger] rest[i]).key@) by {
            assert(rest[i] == es[i + 1]);
            assert(es[i + 1].key@ != es[0].key@);
            assert(!has_key(s, es[i + 1].key@));
            if has_key(s1, rest[i].key@) {
                let j = choose|j: int| 0 <= j < s1.len() && (#[trigger] s1[j]).key@ == rest[i].key@;
                if j < cap - 1 {
                    assert(s[j + 1].key@ == rest[i].key@);
                }
            }
        }
        lemma_full_store_evicts_in_order(s1, cap, rest);
        assert(s1.subrange(k - 1, cap as int) + rest =~= s.subrange(k, cap as int) + es);
        let r = set_all(s, cap, es);
        assert forall|i: int| 0 <= i < k implies !has_key(r, (#[trigger] s[i]).key@) by {
            if has_key(r, s[i].key@) {
                let j = choose|j: int| 0 <= j < r.len() && (#[trigger] r[j]).key@ == s[i].key@;
                if j < cap - k {
                    assert(r[j] == s[j + k]);
                } else {
                    assert(r[j] == es[j - (cap - k)]);
                }
            }
        }
    }
}

/// A bounded in-process login-state store: entries in order of insertion, oldest first,
/// each with its own expiry.
pub struct InMemoryStore {
    entries: Vec<StoreEntry>,
    capacity: usize,
}

impl InMemoryStore {
    pub closed spec fn entries(&self) -> Seq<StoreEntry> {
        self.entries@
    }

    pub closed spec fn capacity(&self) -> nat {
        self.capacity as nat
    }

    pub open spec fn wf(&self) -> bool {
        unique_keys(self.entries()) && self.entries().len() <= self.capacity()
    }

    /// An empty store that holds at most `capacity` entries.
    pub fn new(capacity: usize) -> (r: Self)
        ensures
            r.wf(),
            r.entries() == Seq::<StoreEntry>::empty(),
            r.capacity() == capacity,
    {
        InMemoryStore { entries: Vec::new(), capacity }
    }

    /// The number of entries held, expired ones included.
    pub fn len(&self) -> (r: usize)
        ensures
            r == self.entries().len(),
    {
        self.entries.len()
    }

    fn find(&self, key: &String) -> (r: Option<usize>)
        ensures
            r is None <==> key_index(self.entries(), key@) < 0,
            r matches Some(i) ==> i == key_index(self.entries(), key@),
    {
        let ghost s = self.entries@;
        let mut i: usize = self.entries.len();
        assert(s.subrange(0, i as int) =~= s);
        while i > 0
            invariant
                i <= s.len(),
                s == self.entries@,
                key_index(s, key@) == key_index(s.subrange(0, i as int), key@),
            decreases i,
        {
            let ghost t = s.subrange(0, i as int);
            if self.entries[i - 1].key == *key {
                return Some(i - 1);
            }
            assert(t.drop_last() =~= s.subrange(0, i - 1));
            i = i - 1;
        }
        None
    }

    /// Stores `value` under `key` until `now + ttl`, replacing what the key held; where the
    /// store is then over capacity, its oldest entry goes.
    pub fn set(&mut self, key: String, value: LoginState, ttl: u64, now: u64)
        requires
            old(self).wf(),
        ensures
            final(self).wf(),
            final(self).capacity() == old(self).capacity(),
            final(self).entries() == set_spec(
                old(self).entries(),
                old(self).capacity(),
                StoreEntry { key, value, expires_at: expiry(now, ttl) },
            ),
    {
        let expires_at = now.saturating_add(ttl);
        let ghost e = StoreEntry { key, value, expires_at: expiry(now, ttl) };
        proof {
            lemma_set_keeps_bounds(self.entries@, self.capacity as nat, e);
            lemma_key_index(self.entries@, key@);
        }
        match self.find(&key) {
            Some(i) => {
                self.entries.remove(i);
            },
            None => {},
        }
        self.entries.push(StoreEntry { key, value, expires_at });
        if self.entries.len() > self.capacity {
            let ghost all = self.entries@;
            assert(all.len() == self.capacity + 1);
            self.entries.remove(0);
            assert(self.entries@ =~= all.subrange(all.len() - self.capacity, all.len() as int));
        }
    }

    /// Takes the value stored under `key` out of the store. It comes back only where it has
    /// not expired at `now`; the entry goes either way.
    pub fn get_and_remove(&mut self, key: &String, now: u64) -> (r: Result<LoginState, StoreError>)
        requires
            old(self).wf(),
        ensures
            final(self).wf(),
            final(self).capacity() == old(self).capacity(),
            final(self).entries() == take_spec(old(self).entries(), key@, now).0,
            match take_spec(old(self).entries(), key@, now).1 {
                Some(v) => r == Ok::<LoginState, StoreError>(v),
                None => r == Err::<LoginState, StoreError>(StoreError::NotFound),
            },
    {
        proof {
            lemma_key_index(self.entries@, key@);
            lemma_take_clears_key(self.entries@, key@, now);
        }
        match self.find(key) {
            None => Err(StoreError::NotFound),
            Some(i) => {
                let e = self.entries.remove(i);
                if now < e.expires_at {
                    Ok(e.value)
                } else {
                    Err(StoreError::NotFound)
                }
            },
        }
    }
}

} // verus!
