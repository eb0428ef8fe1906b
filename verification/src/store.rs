use crate::constants::TRANSFER_EXPIRY_SECONDS;
use crate::state::{spec_identity_address, CreditScoreAccount, IdentityAccount, TransferRequest};
use vstd::prelude::*;

verus! {

/// An association list read as a map: a later entry for a key shadows an
/// earlier one, though well-formed lists below never hold a key twice.
pub open spec fn assoc_map<K, V>(entries: Seq<(K, V)>) -> Map<K, V>
    decreases entries.len(),
{
    if entries.len() == 0 {
        Map::empty()
    } else {
        assoc_map(entries.drop_last()).insert(entries.last().0, entries.last().1)
    }
}

/// No key occurs twice in the list.
pub open spec fn distinct_keys<K, V>(entries: Seq<(K, V)>) -> bool {
    forall|i: int, j: int|
        #![trigger entries[i], entries[j]]
        0 <= i < j < entries.len() ==> entries[i].0 != entries[j].0
}

/// A key is in the map exactly when some entry carries it.
pub proof fn lemma_assoc_map_contains<K, V>(entries: Seq<(K, V)>, k: K)
    ensures
        assoc_map(entries).contains_key(k) <==> (exists|i: int|
            0 <= i < entries.len() && (#[trigger] entries[i]).0 == k),
    decreases entries.len(),
{
    if entries.len() == 0 {
    } else {
        lemma_assoc_map_contains(entries.drop_last(), k);
        if entries.last().0 == k {
            assert(entries[entries.len() - 1].0 == k);
        } else {
            if assoc_map(entries).contains_key(k) {
                let i = choose|i: int|
                    0 <= i < entries.drop_last().len() && (#[trigger] entries.drop_last()[i]).0
                        == k;
                assert(entries[i].0 == k);
            }
            if exists|i: int| 0 <= i < entries.len() && (#[trigger] entries[i]).0 == k {
                let i = choose|i: int| 0 <= i < entries.len() && (#[trigger] entries[i]).0 == k;
                assert(i < entries.len() - 1);
                assert(entries.drop_last()[i].0 == k);
            }
        }
    }
}

/// Dropping the last entry keeps the keys distinct.
pub proof fn lemma_distinct_drop_last<K, V>(entries: Seq<(K, V)>)
    requires
        distinct_keys(entries),
        entries.len() > 0,
    ensures
        distinct_keys(entries.drop_last()),
{
    assert forall|i: int, j: int|
        #![trigger entries.drop_last()[i], entries.drop_last()[j]]
        0 <= i < j < entries.drop_last().len() implies entries.drop_last()[i].0
        != entries.drop_last()[j].0 by {
        assert(entries.drop_last()[i] == entries[i]);
        assert(entries.drop_last()[j] == entries[j]);
    }
}

/// In a list with distinct keys, the map sends entry `i`'s key to its value.
pub proof fn lemma_assoc_map_index<K, V>(entries: Seq<(K, V)>, i: int)
    requires
        distinct_keys(entries),
        0 <= i < entries.len(),
    ensures
        assoc_map(entries).contains_key(entries[i].0),
        assoc_map(entries)[entries[i].0] == entries[i].1,
    decreases entries.len(),
{
    if i == entries.len() - 1 {
    } else {
        lemma_distinct_drop_last(entries);
        lemma_assoc_map_index(entries.drop_last(), i);
        assert(entries.drop_last()[i] == entries[i]);
        assert(entries.last().0 != entries[i].0);
    }
}

/// Appending an entry inserts its binding into the map.
pub proof fn lemma_assoc_map_push<K, V>(entries: Seq<(K, V)>, k: K, v: V)
    ensures
        assoc_map(entries.push((k, v))) == assoc_map(entries).insert(k, v),
{
    assert(entries.push((k, v)).drop_last() =~= entries);
    assert(entries.push((k, v)).last() == (k, v));
}

/// Removing an entry keeps the remaining keys distinct.
pub proof fn lemma_distinct_remove<K, V>(entries: Seq<(K, V)>, i: int)
    requires
        distinct_keys(entries),
        0 <= i < entries.len(),
    ensures
        distinct_keys(entries.remove(i)),
{
    let r = entries.remove(i);
    assert forall|p: int, q: int|
        #![trigger r[p], r[q]]
        0 <= p < q < r.len() implies r[p].0 != r[q].0 by {
        let p0: int = if p < i {
            p
        } else {
            p + 1
        };
        let q0: int = if q < i {
            q
        } else {
            q + 1
        };
        assert(r[p] == entries[p0]);
        assert(r[q] == entries[q0]);
    }
}

/// Removing entry `i` from a list with distinct keys removes its key from
/// the map.
pub proof fn lemma_assoc_map_remove<K, V>(entries: Seq<(K, V)>, i: int)
    requires
        distinct_keys(entries),
        0 <= i < entries.len(),
    ensures
        assoc_map(entries.remove(i)) == assoc_map(entries).remove(entries[i].0),
    decreases entries.len(),
{
    let k = entries[i].0;
    if i == entries.len() - 1 {
        assert(entries.remove(i) =~= entries.drop_last());
        lemma_distinct_drop_last(entries);
        lemma_assoc_map_contains(entries.drop_last(), k);
        assert forall|j: int|
            0 <= j < entries.drop_last().len() implies (#[trigger] entries.drop_last()[j]).0
            != k by {
            assert(entries.drop_last()[j] == entries[j]);
        }
        assert(!assoc_map(entries.drop_last()).contains_key(k));
        assert(assoc_map(entries).remove(k) =~= assoc_map(entries.drop_last()));
    } else {
        lemma_distinct_drop_last(entries);
        lemma_assoc_map_remove(entries.drop_last(), i);
        let d = entries.drop_last();
        let last = entries.last();
        assert(entries.remove(i).len() == entries.len() - 1);
        assert(entries.remove(i).last() == last);
        assert(entries.remove(i).drop_last() =~= d.remove(i));
        assert(d[i] == entries[i]);
        assert(last.0 != k);
        assert(assoc_map(entries.remove(i)) == assoc_map(d).remove(k).insert(last.0, last.1));
        assert(assoc_map(d).remove(k).insert(last.0, last.1) =~= assoc_map(d).insert(
            last.0,
            last.1,
        ).remove(k));
    }
}

/// When no entry carries key `k`, the map does not contain it, so removing
/// it changes nothing.
pub proof fn lemma_assoc_map_remove_absent<K, V>(entries: Seq<(K, V)>, k: K)
    requires
        forall|i: int| 0 <= i < entries.len() ==> (#[trigger] entries[i]).0 != k,
    ensures
        assoc_map(entries).remove(k) == assoc_map(entries),
{
    lemma_assoc_map_contains(entries, k);
    assert(assoc_map(entries).remove(k) =~= assoc_map(entries));
}

/// A map from parties (as 64-bit identifiers) to records, backed by a vector
/// of entries with pairwise-distinct keys.
pub struct KeyMap<V> {
    entries: Vec<(u64, V)>,
}

impl<V> View for KeyMap<V> {
    type V = Map<u64, V>;

    closed spec fn view(&self) -> Map<u64, V> {
        assoc_map(self.entries@)
    }
}

impl<V> KeyMap<V> {
    /// The backing vector never holds a key twice.
    pub closed spec fn wf(&self) -> bool {
        distinct_keys(self.entries@)
    }

    /// Creates an empty map.
    pub fn new() -> (m: Self)
        ensures
            m.wf(),
            m@ == Map::<u64, V>::empty(),
    {
        KeyMap { entries: Vec::new() }
    }

    /// The index of the entry holding `k`, if any.
    fn position(&self, k: u64) -> (r: Option<usize>)
        ensures
            match r {
                Some(i) => i < self.entries@.len() && self.entries@[i as int].0 == k,
                None => forall|j: int|
                    0 <= j < self.entries@.len() ==> (#[trigger] self.entries@[j]).0 != k,
            },
    {
        let n = self.entries.len();
        let mut i: usize = 0;
        while i < n
            invariant
                i <= n,
                n == self.entries@.len(),
                forall|j: int| 0 <= j < i ==> (#[trigger] self.entries@[j]).0 != k,
            decreases n - i,
        {
            if self.entries[i].0 == k {
                return Some(i);
            }
            i += 1;
        }
        None
    }

    /// Whether a record is stored under `k`.
    pub fn contains_key(&self, k: u64) -> (b: bool)
        requires
            self.wf(),
        ensures
            b == self@.contains_key(k),
    {
        proof {
            lemma_assoc_map_contains(self.entries@, k);
        }
        match self.position(k) {
            Some(_) => true,
            None => false,
        }
    }

    /// The record stored under `k`, if any.
    pub fn get(&self, k: u64) -> (r: Option<&V>)
        requires
            self.wf(),
        ensures
            match r {
                Some(v) => self@.contains_key(k) && self@[k] == *v,
                None => !self@.contains_key(k),
            },
    {
        proof {
            lemma_assoc_map_contains(self.entries@, k);
        }
        match self.position(k) {
            Some(i) => {
                proof {
                    lemma_assoc_map_index(self.entries@, i as int);
                }
                Some(&self.entries[i].1)
            },
            None => None,
        }
    }

    /// Stores `v` under `k`, replacing any record already there.
    pub fn insert(&mut self, k: u64, v: V)
        requires
            old(self).wf(),
        ensures
            final(self).wf(),
            final(self)@ == old(self)@.insert(k, v),
    {
        let ghost s = self.entries@;
        match self.position(k) {
            Some(i) => {
                proof {
                    lemma_assoc_map_remove(s, i as int);
                    lemma_distinct_remove(s, i as int);
                }
                self.entries.remove(i);
                let ghost t = self.entries@;
                self.entries.push((k, v));
                proof {
                    lemma_assoc_map_push(t, k, v);
                    assert forall|p: int, q: int|
                        #![trigger self.entries@[p], self.entries@[q]]
                        0 <= p < q < self.entries@.len() implies self.entries@[p].0
                        != self.entries@[q].0 by {
                        if q == self.entries@.len() - 1 {
                            let p0: int = if p < i {
                                p
                            } else {
                                p + 1
                            };
                            assert(self.entries@[p] == s[p0]);
                            assert(s[i as int].0 == k);
                        }
                    }
                    assert(assoc_map(s).remove(k).insert(k, v) =~= assoc_map(s).insert(k, v));
                }
            },
            None => {
                self.entries.push((k, v));
                proof {
                    lemma_assoc_map_push(s, k, v);
                    assert forall|p: int, q: int|
                        #![trigger self.entries@[p], self.entries@[q]]
                        0 <= p < q < self.entries@.len() implies self.entries@[p].0
                        != self.entries@[q].0 by {
                        if q == self.entries@.len() - 1 {
                            assert(self.entries@[p] == s[p]);
                        }
                    }
                }
            },
        }
    }

    /// Removes the record stored under `k`, if any.
    pub fn remove(&mut self, k: u64)
        requires
            old(self).wf(),
        ensures
            final(self).wf(),
            final(self)@ == old(self)@.remove(k),
    {
        let ghost s = self.entries@;
        match self.position(k) {
            Some(i) => {
                proof {
                    lemma_assoc_map_remove(s, i as int);
                    lemma_distinct_remove(s, i as int);
                }
                self.entries.remove(i);
            },
            None => {
                proof {
                    lemma_assoc_map_remove_absent(s, k);
                }
            },
        }
    }
}

/// A map from ordered pairs of parties to records, backed by a vector of
/// entries with pairwise-distinct keys.
pub struct PairMap<V> {
    entries: Vec<((u64, u64), V)>,
}

impl<V> View for PairMap<V> {
    type V = Map<(u64, u64), V>;

    closed spec fn view(&self) -> Map<(u64, u64), V> {
        assoc_map(self.entries@)
    }
}

impl<V> PairMap<V> {
    /// The backing vector never holds a key twice.
    pub closed spec fn wf(&self) -> bool {
        distinct_keys(self.entries@)
    }

    /// Creates an empty map.
    pub fn new() -> (m: Self)
        ensures
            m.wf(),
            m@ == Map::<(u64, u64), V>::empty(),
    {
        PairMap { entries: Vec::new() }
    }

    /// The index of the entry holding `(a, b)`, if any.
    fn position(&self, a: u64, b: u64) -> (r: Option<usize>)
        ensures
            match r {
                Some(i) => i < self.entries@.len() && self.entries@[i as int].0 == (a, b),
                None => forall|j: int|
                    0 <= j < self.entries@.len() ==> (#[trigger] self.entries@[j]).0 != (a, b),
            },
    {
        let n = self.entries.len();
        let mut i: usize = 0;
        while i < n
            invariant
                i <= n,
                n == self.entries@.len(),
                forall|j: int| 0 <= j < i ==> (#[trigger] self.entries@[j]).0 != (a, b),
            decreases n - i,
        {
            if self.entries[i].0.0 == a && self.entries[i].0.1 == b {
                return Some(i);
            }
            i += 1;
        }
        None
    }

    /// Whether a record is stored under `(a, b)`.
    pub fn contains_key(&self, a: u64, b: u64) -> (r: bool)
        requires
            self.wf(),
        ensures
            r == self@.contains_key((a, b)),
    {
        proof {
            lemma_assoc_map_contains(self.entries@, (a, b));
        }
        match self.position(a, b) {
            Some(_) => true,
            None => false,
        }
    }

    /// The record stored under `(a, b)`, if any.
    pub fn get(&self, a: u64, b: u64) -> (r: Option<&V>)
        requires
            self.wf(),
        ensures
            match r {
                Some(v) => self@.contains_key((a, b)) && self@[(a, b)] == *v,
                None => !self@.contains_key((a, b)),
            },
    {
        proof {
            lemma_assoc_map_contains(self.entries@, (a, b));
        }
        match self.position(a, b) {
            Some(i) => {
                proof {
                    lemma_assoc_map_index(self.entries@, i as int);
                }
                Some(&self.entries[i].1)
            },
            None => None,
        }
    }

    /// Stores `v` under `(a, b)`, replacing any record already there.
    pub fn insert(&mut self, a: u64, b: u64, v: V)
        requires
            old(self).wf(),
        ensures
            final(self).wf(),
            final(self)@ == old(self)@.insert((a, b), v),
    {
        let ghost s = self.entries@;
        match self.position(a, b) {
            Some(i) => {
                proof {
                    lemma_assoc_map_remove(s, i as int);
                    lemma_distinct_remove(s, i as int);
                }
                self.entries.remove(i);
                let ghost t = self.entries@;
                self.entries.push(((a, b), v));
                proof {
                    lemma_assoc_map_push(t, (a, b), v);
                    assert forall|p: int, q: int|
                        #![trigger self.entries@[p], self.entries@[q]]
                        0 <= p < q < self.entries@.len() implies self.entries@[p].0
                        != self.entries@[q].0 by {
                        if q == self.entries@.len() - 1 {
                            let p0: int = if p < i {
                                p
                            } else {
                                p + 1
                            };
                            assert(self.entries@[p] == s[p0]);
                            assert(s[i as int].0 == (a, b));
                        }
                    }
                    assert(assoc_map(s).remove((a, b)).insert((a, b), v) =~= assoc_map(s).insert(
                        (a, b),
                        v,
                    ));
                }
            },
            None => {
                self.entries.push(((a, b), v));
                proof {
                    lemma_assoc_map_push(s, (a, b), v);
                    assert forall|p: int, q: int|
                        #![trigger self.entries@[p], self.entries@[q]]
                        0 <= p < q < self.entries@.len() implies self.entries@[p].0
                        != self.entries@[q].0 by {
                        if q == self.entries@.len() - 1 {
                            assert(self.entries@[p] == s[p]);
                        }
                    }
                }
            },
        }
    }

    /// Removes the record stored under `(a, b)`, if any.
    pub fn remove(&mut self, a: u64, b: u64)
        requires
            old(self).wf(),
        ensures
            final(self).wf(),
            final(self)@ == old(self)@.remove((a, b)),
    {
        let ghost s = self.entries@;
        match self.position(a, b) {
            Some(i) => {
                proof {
                    lemma_assoc_map_remove(s, i as int);
                    lemma_distinct_remove(s, i as int);
                }
                self.entries.remove(i);
            },
            None => {
                proof {
                    lemma_assoc_map_remove_absent(s, (a, b));
                }
            },
        }
    }
}

/// The mathematical model of the whole store: one map per record namespace,
/// plus each party's free balance.
#[verifier::ext_equal]
pub struct StoreState {
    /// Identity records, keyed by their owner.
    pub identities: Map<u64, IdentityAccount>,
    /// Credit-score records, keyed by their owner.
    pub scores: Map<u64, CreditScoreAccount>,
    /// Pending transfer requests, keyed by the ordered (from, to) pair.
    pub transfers: Map<(u64, u64), TransferRequest>,
    /// Free balances; a party absent from the map holds zero.
    pub balances: Map<u64, u64>,
}

/// The store every ledger starts from: no records, no balances.
pub open spec fn empty_state() -> StoreState {
    StoreState {
        identities: Map::empty(),
        scores: Map::empty(),
        transfers: Map::empty(),
        balances: Map::empty(),
    }
}

/// The free balance `party` holds in `s`; zero when absent.
pub open spec fn spec_balance_of(s: StoreState, party: u64) -> u64 {
    if s.balances.contains_key(party) {
        s.balances[party]
    } else {
        0
    }
}

/// Adding `amount` to a balance, capped at the machine bound.
pub open spec fn saturating_credit(balance: u64, amount: u64) -> u64 {
    if balance + amount > u64::MAX {
        u64::MAX
    } else {
        (balance + amount) as u64
    }
}

/// The state after crediting `amount` to `party`'s free balance.
pub open spec fn credited(s: StoreState, party: u64, amount: u64) -> StoreState {
    StoreState {
        balances: s.balances.insert(party, saturating_credit(spec_balance_of(s, party), amount)),
        ..s
    }
}

/// The semantic invariant of the ledger, maintained by every operation:
/// each identity record is keyed by its own owner and carries its verification
/// timestamp exactly when verified; each score record references the identity
/// record of its own owner, which exists; each transfer request is keyed by
/// its own (from, to) pair, references the sender's identity record, and
/// expires exactly one expiry window after its creation.
pub open spec fn wf_state(s: StoreState) -> bool {
    &&& forall|o: u64|
        s.identities.contains_key(o) ==> (#[trigger] s.identities[o]).owner == o
            && s.identities[o].wf()
    &&& forall|o: u64|
        s.scores.contains_key(o) ==> (#[trigger] s.scores[o]).identity == spec_identity_address(o)
            && s.identities.contains_key(o)
    &&& forall|p: (u64, u64)|
        s.transfers.contains_key(p) ==> {
            &&& (#[trigger] s.transfers[p]).from_owner == p.0
            &&& s.transfers[p].to_owner == p.1
            &&& s.transfers[p].identity == spec_identity_address(p.0)
            &&& s.transfers[p].expires_at == s.transfers[p].created_at + TRANSFER_EXPIRY_SECONDS
        }
}

/// The flat record store. All records of the ledger live here, each reachable
/// only through its derived address; services mutate it exclusively through
/// the verified operations.
pub struct RecordStore {
    identities: KeyMap<IdentityAccount>,
    scores: KeyMap<CreditScoreAccount>,
    transfers: PairMap<TransferRequest>,
    balances: KeyMap<u64>,
}

impl View for RecordStore {
    type V = StoreState;

    closed spec fn view(&self) -> StoreState {
        StoreState {
            identities: self.identities@,
            scores: self.scores@,
            transfers: self.transfers@,
            balances: self.balances@,
        }
    }
}

impl RecordStore {
    /// Each backing map keeps its keys distinct.
    pub closed spec fn wf(&self) -> bool {
        self.identities.wf() && self.scores.wf() && self.transfers.wf() && self.balances.wf()
    }

    /// Creates an empty store.
    pub fn new() -> (s: Self)
        ensures
            s.wf(),
            s@ == empty_state(),
    {
        let s = RecordStore {
            identities: KeyMap::new(),
            scores: KeyMap::new(),
            transfers: PairMap::new(),
            balances: KeyMap::new(),
        };
        proof {
            assert(s@ =~= empty_state());
        }
        s
    }

    /// The identity record owned by `owner`, if one exists.
    pub fn get_identity(&self, owner: u64) -> (r: Option<&IdentityAccount>)
        requires
            self.wf(),
        ensures
            match r {
                Some(rec) => self@.identities.contains_key(owner) && self@.identities[owner]
                    == *rec,
                None => !self@.identities.contains_key(owner),
            },
    {
        self.identities.get(owner)
    }

    /// Writes the identity record for `owner`.
    pub fn set_identity(&mut self, owner: u64, rec: IdentityAccount)
        requires
            old(self).wf(),
        ensures
            final(self).wf(),
            final(self)@ == (StoreState {
                identities: old(self)@.identities.insert(owner, rec),
                ..old(self)@
            }),
    {
        self.identities.insert(owner, rec);
        proof {
            assert(self@ =~= (StoreState {
                identities: old(self)@.identities.insert(owner, rec),
                ..old(self)@
            }));
        }
    }

    /// Removes the identity record owned by `owner`, if any.
    pub fn remove_identity(&mut self, owner: u64)
        requires
            old(self).wf(),
        ensures
            final(self).wf(),
            final(self)@ == (StoreState {
                identities: old(self)@.identities.remove(owner),
                ..old(self)@
            }),
    {
        self.identities.remove(owner);
        proof {
            assert(self@ =~= (StoreState {
                identities: old(self)@.identities.remove(owner),
                ..old(self)@
            }));
        }
    }

    /// The credit-score record owned by `owner`, if one exists.
    pub fn get_score(&self, owner: u64) -> (r: Option<&CreditScoreAccount>)
        requires
            self.wf(),
        ensures
            match r {
                Some(rec) => self@.scores.contains_key(owner) && self@.scores[owner] == *rec,
                None => !self@.scores.contains_key(owner),
            },
    {
        self.scores.get(owner)
    }

    /// Writes the credit-score record for `owner`.
    pub fn set_score(&mut self, owner: u64, rec: CreditScoreAccount)
        requires
            old(self).wf(),
        ensures
            final(self).wf(),
            final(self)@ == (StoreState {
                scores: old(self)@.scores.insert(owner, rec),
                ..old(self)@
            }),
    {
        self.scores.insert(owner, rec);
        proof {
            assert(self@ =~= (StoreState {
                scores: old(self)@.scores.insert(owner, rec),
                ..old(self)@
            }));
        }
    }

    /// Removes the credit-score record owned by `owner`, if any.
    pub fn remove_score(&mut self, owner: u64)
        requires
            old(self).wf(),
        ensures
            final(self).wf(),
            final(self)@ == (StoreState { scores: old(self)@.scores.remove(owner), ..old(self)@ }),
    {
        self.scores.remove(owner);
        proof {
            assert(self@ =~= (StoreState {
                scores: old(self)@.scores.remove(owner),
                ..old(self)@
            }));
        }
    }

    /// The pending transfer request from `from_owner` to `to_owner`, if any.
    pub fn get_transfer(&self, from_owner: u64, to_owner: u64) -> (r: Option<&TransferRequest>)
        requires
            self.wf(),
        ensures
            match r {
                Some(rec) => self@.transfers.contains_key((from_owner, to_owner))
                    && self@.transfers[(from_owner, to_owner)] == *rec,
                None => !self@.transfers.contains_key((from_owner, to_owner)),
            },
    {
        self.transfers.get(from_owner, to_owner)
    }

    /// Writes the transfer request from `from_owner` to `to_owner`.
    pub fn set_transfer(&mut self, from_owner: u64, to_owner: u64, rec: TransferRequest)
        requires
            old(self).wf(),
        ensures
            final(self).wf(),
            final(self)@ == (StoreState {
                transfers: old(self)@.transfers.insert((from_owner, to_owner), rec),
                ..old(self)@
            }),
    {
        self.transfers.insert(from_owner, to_owner, rec);
        proof {
            assert(self@ =~= (StoreState {
                transfers: old(self)@.transfers.insert((from_owner, to_owner), rec),
                ..old(self)@
            }));
        }
    }

    /// Removes the transfer request from `from_owner` to `to_owner`, if any.
    pub fn remove_transfer(&mut self, from_owner: u64, to_owner: u64)
        requires
            old(self).wf(),
        ensures
            final(self).wf(),
            final(self)@ == (StoreState {
                transfers: old(self)@.transfers.remove((from_owner, to_owner)),
                ..old(self)@
            }),
    {
        self.transfers.remove(from_owner, to_owner);
        proof {
            assert(self@ =~= (StoreState {
                transfers: old(self)@.transfers.remove((from_owner, to_owner)),
                ..old(self)@
            }));
        }
    }

    /// The free balance `party` currently holds.
    pub fn balance_of(&self, party: u64) -> (r: u64)
        requires
            self.wf(),
        ensures
            r == spec_balance_of(self@, party),
    {
        match self.balances.get(party) {
            Some(b) => *b,
            None => 0,
        }
    }

    /// Adds `amount` to `party`'s free balance; a credit that would pass the
    /// machine bound saturates there.
    pub fn credit_balance(&mut self, party: u64, amount: u64)
        requires
            old(self).wf(),
        ensures
            final(self).wf(),
            final(self)@ == credited(old(self)@, party, amount),
    {
        let current = self.balance_of(party);
        let next: u64 = if current <= u64::MAX - amount {
            current + amount
        } else {
            u64::MAX
        };
        self.balances.insert(party, next);
        proof {
            assert(self@ =~= credited(old(self)@, party, amount));
        }
    }
}

} // verus!
