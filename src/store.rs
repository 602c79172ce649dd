//! The tracking database: chain key -> contract key -> deployment record,
//! with path reads, "create new" inserts and overwriting sets.
use crate::keys::Address;
use vstd::prelude::*;

verus! {

/// What a list of key/value pairs maps each key to (a later pair wins).
pub open spec fn pairs_map<V: View>(s: Seq<(String, V)>) -> Map<Seq<char>, V::V>
    decreases s.len(),
{
    if s.len() == 0 {
        Map::empty()
    } else {
        pairs_map(s.drop_last()).insert(s.last().0@, s.last().1@)
    }
}

/// No key occurs twice in a list of key/value pairs.
pub open spec fn keys_distinct<V>(s: Seq<(String, V)>) -> bool {
    forall|i: int, j: int|
        0 <= i < s.len() && 0 <= j < s.len() && i != j ==> #[trigger] s[i].0@ != #[trigger] s[j].0@
}

proof fn lemma_distinct_drop_last<V>(s: Seq<(String, V)>)
    requires
        keys_distinct(s),
        s.len() > 0,
    ensures
        keys_distinct(s.drop_last()),
{
    let t = s.drop_last();
    assert forall|a: int, b: int|
        0 <= a < t.len() && 0 <= b < t.len() && a != b implies #[trigger] t[a].0@
        != #[trigger] t[b].0@ by {
        assert(t[a] == s[a] && t[b] == s[b]);
    }
}

proof fn lemma_pairs_map_contains<V: View>(s: Seq<(String, V)>, k: Seq<char>) -> (i: int)
    requires
        pairs_map(s).contains_key(k),
    ensures
        0 <= i < s.len(),
        s[i].0@ == k,
        pairs_map(s)[k] == s[i].1@,
    decreases s.len(),
{
    if s.last().0@ == k {
        s.len() - 1
    } else {
        let t = s.drop_last();
        let j = lemma_pairs_map_contains(t, k);
        assert(t[j] == s[j]);
        j
    }
}

proof fn lemma_pairs_map_at<V: View>(s: Seq<(String, V)>, i: int)
    requires
        keys_distinct(s),
        0 <= i < s.len(),
    ensures
        pairs_map(s).contains_key(s[i].0@),
        pairs_map(s)[s[i].0@] == s[i].1@,
    decreases s.len(),
{
    if i < s.len() - 1 {
        let t = s.drop_last();
        lemma_distinct_drop_last(s);
        lemma_pairs_map_at(t, i);
        assert(s[s.len() - 1].0@ != s[i].0@);
    }
}

proof fn lemma_pairs_map_absent<V: View>(s: Seq<(String, V)>, k: Seq<char>)
    requires
        forall|i: int| 0 <= i < s.len() ==> #[trigger] s[i].0@ != k,
    ensures
        !pairs_map(s).contains_key(k),
    decreases s.len(),
{
    if s.len() > 0 {
        let t = s.drop_last();
        assert forall|i: int| 0 <= i < t.len() implies #[trigger] t[i].0@ != k by {
            assert(t[i] == s[i]);
        }
        lemma_pairs_map_absent(t, k);
        assert(s[s.len() - 1].0@ != k);
    }
}

proof fn lemma_pairs_map_push<V: View>(s: Seq<(String, V)>, p: (String, V))
    ensures
        pairs_map(s.push(p)) == pairs_map(s).insert(p.0@, p.1@),
{
    assert(s.push(p).drop_last() =~= s);
}

proof fn lemma_pairs_map_update<V: View>(s: Seq<(String, V)>, i: int, p: (String, V))
    requires
        keys_distinct(s),
        0 <= i < s.len(),
        p.0@ == s[i].0@,
    ensures
        pairs_map(s.update(i, p)) == pairs_map(s).insert(p.0@, p.1@),
    decreases s.len(),
{
    let t = s.drop_last();
    let u = s.update(i, p);
    if i == s.len() - 1 {
        assert(u.drop_last() =~= t);
        assert(pairs_map(u) =~= pairs_map(s).insert(p.0@, p.1@));
    } else {
        assert(u.drop_last() =~= t.update(i, p));
        lemma_distinct_drop_last(s);
        lemma_pairs_map_update(t, i, p);
        assert(s[s.len() - 1].0@ != s[i].0@);
        assert(pairs_map(u) =~= pairs_map(s).insert(p.0@, p.1@));
    }
}

/// The position of `key` in a list of key/value pairs, if it is there.
fn find_key<V>(entries: &Vec<(String, V)>, key: &String) -> (r: Option<usize>)
    ensures
        match r {
            Some(i) => i < entries@.len() && entries@[i as int].0@ == key@,
            None => forall|i: int| 0 <= i < entries@.len() ==> #[trigger] entries@[i].0@ != key@,
        },
{
    let mut i: usize = 0;
    while i < entries.len()
        invariant
            i <= entries@.len(),
            forall|j: int| 0 <= j < i ==> #[trigger] entries@[j].0@ != key@,
        decreases entries@.len() - i,
    {
        if entries[i].0 == *key {
            return Some(i);
        }
        i = i + 1;
    }
    None
}

/// One deployed contract instance: its name and the address it lives at.
#[derive(Debug)]
pub struct SmartContractTrackingDataEntry {
    pub name: String,
    pub address: Address,
}

impl View for SmartContractTrackingDataEntry {
    type V = (Seq<char>, Seq<u8>);

    open spec fn view(&self) -> (Seq<char>, Seq<u8>) {
        (self.name@, self.address.bytes@)
    }
}

impl SmartContractTrackingDataEntry {
    /// A copy of this record.
    pub fn duplicate(&self) -> (r: Self)
        ensures
            r == *self,
    {
        SmartContractTrackingDataEntry { name: self.name.clone(), address: self.address }
    }
}

/// All records tracked under one chain state, by contract key.
#[derive(Debug)]
pub struct SmartContractTrackingData {
    entries: Vec<(String, SmartContractTrackingDataEntry)>,
}

impl View for SmartContractTrackingData {
    type V = Map<Seq<char>, (Seq<char>, Seq<u8>)>;

    closed spec fn view(&self) -> Map<Seq<char>, (Seq<char>, Seq<u8>)> {
        pairs_map(self.entries@)
    }
}

impl SmartContractTrackingData {
    /// Well-formed: each contract key occurs once.
    pub closed spec fn wf(&self) -> bool {
        keys_distinct(self.entries@)
    }

    /// A well-formed bucket holds finitely many records.
    pub proof fn lemma_finite(&self)
        requires
            self.wf(),
        ensures
            self@.dom().finite(),
    {
        lemma_distinct_len(self.entries@);
    }

    /// A bucket with no records.
    pub fn new() -> (r: Self)
        ensures
            r.wf(),
            r@ == Map::<Seq<char>, (Seq<char>, Seq<u8>)>::empty(),
    {
        SmartContractTrackingData { entries: Vec::new() }
    }

    /// The records as (contract key, record) pairs, each key once.
    pub fn entries(&self) -> (r: &Vec<(String, SmartContractTrackingDataEntry)>)
        requires
            self.wf(),
        ensures
            keys_distinct(r@),
            pairs_map(r@) == self@,
    {
        &self.entries
    }

    /// The number of records.
    pub fn len(&self) -> (r: usize)
        requires
            self.wf(),
        ensures
            self@.dom().finite(),
            r == self@.len(),
    {
        proof {
            lemma_distinct_len(self.entries@);
        }
        self.entries.len()
    }

    /// The record stored under `key`, if any.
    pub fn get(&self, key: &String) -> (r: Option<SmartContractTrackingDataEntry>)
        requires
            self.wf(),
        ensures
            match r {
                Some(e) => self@.contains_key(key@) && self@[key@] == e@,
                None => !self@.contains_key(key@),
            },
    {
        match find_key(&self.entries, key) {
            Some(i) => {
                proof {
                    lemma_pairs_map_at(self.entries@, i as int);
                }
                Some(self.entries[i].1.duplicate())
            },
            None => {
                proof {
                    lemma_pairs_map_absent(self.entries@, key@);
                }
                None
            },
        }
    }

    /// Stores `entry` under `key`, replacing a record already there.
    pub fn upsert(&mut self, key: String, entry: SmartContractTrackingDataEntry)
        requires
            old(self).wf(),
        ensures
            final(self).wf(),
            final(self)@ == old(self)@.insert(key@, entry@),
    {
        match find_key(&self.entries, &key) {
            Some(i) => {
                proof {
                    lemma_pairs_map_update(self.entries@, i as int, (key, entry));
                }
                self.entries[i] = (key, entry);
            },
            None => {
                proof {
                    lemma_pairs_map_push(self.entries@, (key, entry));
                }
                self.entries.push((key, entry));
            },
        }
    }

    /// A copy of this bucket.
    pub fn duplicate(&self) -> (r: Self)
        requires
            self.wf(),
        ensures
            r.wf(),
            r@ == self@,
    {
        let mut entries: Vec<(String, SmartContractTrackingDataEntry)> = Vec::new();
        let mut i: usize = 0;
        while i < self.entries.len()
            invariant
                i <= self.entries@.len(),
                entries@ == self.entries@.subrange(0, i as int),
            decreases self.entries@.len() - i,
        {
            let p = (self.entries[i].0.clone(), self.entries[i].1.duplicate());
            entries.push(p);
            assert(entries@ =~= self.entries@.subrange(0, i + 1));
            i = i + 1;
        }
        assert(entries@ =~= self.entries@);
        SmartContractTrackingData { entries }
    }
}

proof fn lemma_distinct_len<V: View>(s: Seq<(String, V)>)
    requires
        keys_distinct(s),
    ensures
        pairs_map(s).len() == s.len(),
        pairs_map(s).dom().finite(),
    decreases s.len(),
{
    if s.len() > 0 {
        let t = s.drop_last();
        lemma_distinct_drop_last(s);
        lemma_distinct_len(t);
        assert forall|i: int| 0 <= i < t.len() implies #[trigger] t[i].0@ != s.last().0@ by {
            assert(t[i] == s[i]);
        }
        lemma_pairs_map_absent(t, s.last().0@);
    }
}

impl SmartContractTrackingData {
    /// Whether a record is stored under `key`.
    pub fn contains_key(&self, key: &String) -> (r: bool)
        requires
            self.wf(),
        ensures
            r == self@.contains_key(key@),
    {
        match find_key(&self.entries, key) {
            Some(i) => {
                proof {
                    lemma_pairs_map_at(self.entries@, i as int);
                }
                true
            },
            None => {
                proof {
                    lemma_pairs_map_absent(self.entries@, key@);
                }
                false
            },
        }
    }
}

/// The abstract database: chain key -> contract key -> (name, address bytes).
pub type TrackingView = Map<Seq<char>, Map<Seq<char>, (Seq<char>, Seq<u8>)>>;

/// The record stored at path `chain.contract`, if there is one.
pub open spec fn record_at(db: TrackingView, chain: Seq<char>, contract: Seq<char>) -> Option<
    (Seq<char>, Seq<u8>),
> {
    if db.contains_key(chain) && db[chain].contains_key(contract) {
        Some(db[chain][contract])
    } else {
        None
    }
}

/// The database with `record` at path `chain.contract`, the chain's bucket
/// created if it is missing and a record already there replaced.
pub open spec fn with_record(
    db: TrackingView,
    chain: Seq<char>,
    contract: Seq<char>,
    record: (Seq<char>, Seq<u8>),
) -> TrackingView {
    let bucket = if db.contains_key(chain) {
        db[chain]
    } else {
        Map::empty()
    };
    db.insert(chain, bucket.insert(contract, record))
}

/// Finitely many chains, each with finitely many records.
pub open spec fn view_finite(db: TrackingView) -> bool {
    &&& db.dom().finite()
    &&& forall|c: Seq<char>| #[trigger] db.contains_key(c) ==> db[c].dom().finite()
}

/// Why a path could not be written.
#[derive(Debug, Clone, Copy, PartialEq, Eq, Structural)]
pub enum InsertionError {
    /// `insert` found a value already at the path.
    PathExists,
    /// `set` found no mapping at the path's parent.
    ParentMissing,
}

/// The whole tracking document: buckets of records, by chain key.
#[derive(Debug)]
pub struct TrackingData {
    chains: Vec<(String, SmartContractTrackingData)>,
}

impl View for TrackingData {
    type V = TrackingView;

    closed spec fn view(&self) -> TrackingView {
        pairs_map(self.chains@)
    }
}

impl TrackingData {
    /// Well-formed: each chain key occurs once and each bucket is well-formed.
    pub closed spec fn wf(&self) -> bool {
        &&& keys_distinct(self.chains@)
        &&& forall|i: int| 0 <= i < self.chains@.len() ==> (#[trigger] self.chains@[i]).1.wf()
    }

    /// A well-formed document holds finitely many chains, each with
    /// finitely many records.
    pub proof fn lemma_finite(&self)
        requires
            self.wf(),
        ensures
            view_finite(self@),
    {
        lemma_distinct_len(self.chains@);
        assert forall|c: Seq<char>| #[trigger] self@.contains_key(c) implies self@[c].dom().finite() by {
            let i = lemma_pairs_map_contains(self.chains@, c);
            self.chains@[i].1.lemma_finite();
        }
    }

    /// An empty document.
    pub fn new() -> (r: Self)
        ensures
            r.wf(),
            r@ == TrackingView::empty(),
    {
        TrackingData { chains: Vec::new() }
    }

    /// The buckets as (chain key, bucket) pairs, each key once.
    pub fn chains(&self) -> (r: &Vec<(String, SmartContractTrackingData)>)
        requires
            self.wf(),
        ensures
            keys_distinct(r@),
            pairs_map(r@) == self@,
            forall|i: int| 0 <= i < r@.len() ==> (#[trigger] r@[i]).1.wf(),
    {
        &self.chains
    }

    /// The bucket at path `chain`, if there is one.
    pub fn read_chain(&self, chain: &String) -> (r: Option<SmartContractTrackingData>)
        requires
            self.wf(),
        ensures
            match r {
                Some(b) => b.wf() && b@.dom().finite() && self@.contains_key(chain@) && b@
                    == self@[chain@],
                None => !self@.contains_key(chain@),
            },
    {
        match find_key(&self.chains, chain) {
            Some(i) => {
                proof {
                    lemma_pairs_map_at(self.chains@, i as int);
                }
                let b = self.chains[i].1.duplicate();
                proof {
                    b.lemma_finite();
                }
                Some(b)
            },
            None => {
                proof {
                    lemma_pairs_map_absent(self.chains@, chain@);
                }
                None
            },
        }
    }

    /// The record at path `chain.contract`, if there is one.
    pub fn read_entry(&self, chain: &String, contract: &String) -> (r: Option<
        SmartContractTrackingDataEntry,
    >)
        requires
            self.wf(),
        ensures
            match r {
                Some(e) => record_at(self@, chain@, contract@) == Some(e@),
                None => record_at(self@, chain@, contract@).is_none(),
            },
    {
        match find_key(&self.chains, chain) {
            Some(i) => {
                proof {
                    lemma_pairs_map_at(self.chains@, i as int);
                }
                self.chains[i].1.get(contract)
            },
            None => {
                proof {
                    lemma_pairs_map_absent(self.chains@, chain@);
                }
                None
            },
        }
    }

    /// Writes `entry` into the bucket at position `i`, whose key is `chain`.
    fn put_at(
        &mut self,
        i: usize,
        chain: String,
        contract: String,
        entry: SmartContractTrackingDataEntry,
    )
        requires
            old(self).wf(),
            i < old(self).chains@.len(),
            old(self).chains@[i as int].0@ == chain@,
        ensures
            final(self).wf(),
            final(self)@ == with_record(old(self)@, chain@, contract@, entry@),
    {
        proof {
            lemma_pairs_map_at(self.chains@, i as int);
        }
        let mut bucket = self.chains[i].1.duplicate();
        bucket.upsert(contract, entry);
        let ghost b = bucket;
        proof {
            lemma_pairs_map_update(self.chains@, i as int, (chain, b));
        }
        let ghost before = self.chains@;
        self.chains[i] = (chain, bucket);
        assert(self.chains@ == before.update(i as int, (chain, b)));
        assert forall|a: int, c: int|
            0 <= a < self.chains@.len() && 0 <= c < self.chains@.len() && a != c implies
            #[trigger] self.chains@[a].0@ != #[trigger] self.chains@[c].0@ by {
            assert(before[a].0@ != before[c].0@);
        }
        assert forall|a: int| 0 <= a < self.chains@.len() implies (
        #[trigger] self.chains@[a]).1.wf() by {
            if a != i {
                assert(before[a] == self.chains@[a]);
            }
        }
    }

    /// Writes `entry` into a new bucket for `chain`, which has none.
    fn put_new(&mut self, chain: String, contract: String, entry: SmartContractTrackingDataEntry)
        requires
            old(self).wf(),
            forall|i: int|
                0 <= i < old(self).chains@.len() ==> #[trigger] old(self).chains@[i].0@ != chain@,
        ensures
            final(self).wf(),
            final(self)@ == with_record(old(self)@, chain@, contract@, entry@),
    {
        proof {
            lemma_pairs_map_absent(self.chains@, chain@);
        }
        let mut bucket = SmartContractTrackingData::new();
        bucket.upsert(contract, entry);
        let ghost b = bucket;
        let ghost before = self.chains@;
        proof {
            lemma_pairs_map_push(self.chains@, (chain, b));
        }
        self.chains.push((chain, bucket));
        assert(self.chains@ == before.push((chain, b)));
        assert forall|a: int, c: int|
            0 <= a < self.chains@.len() && 0 <= c < self.chains@.len() && a != c implies
            #[trigger] self.chains@[a].0@ != #[trigger] self.chains@[c].0@ by {
            if a < before.len() && c < before.len() {
                assert(before[a].0@ != before[c].0@);
            } else if a < before.len() {
                assert(before[a].0@ != chain@);
            } else {
                assert(before[c].0@ != chain@);
            }
        }
        assert forall|a: int| 0 <= a < self.chains@.len() implies (
        #[trigger] self.chains@[a]).1.wf() by {
            if a < before.len() {
                assert(before[a] == self.chains@[a]);
            }
        }
        assert(b@ =~= Map::<Seq<char>, (Seq<char>, Seq<u8>)>::empty().insert(contract@, entry@));
    }

    /// Creates path `chain.contract` (and the chain's bucket if needed) and
    /// writes `entry` there. Fails, changing nothing, when a record is
    /// already at that path.
    pub fn insert(&mut self, chain: String, contract: String, entry: SmartContractTrackingDataEntry)
        -> (r: Result<(), InsertionError>)
        requires
            old(self).wf(),
        ensures
            final(self).wf(),
            r == if record_at(old(self)@, chain@, contract@).is_some() {
                Err::<(), InsertionError>(InsertionError::PathExists)
            } else {
                Ok(())
            },
            r.is_ok() ==> final(self)@ == with_record(old(self)@, chain@, contract@, entry@),
            r.is_err() ==> final(self)@ == old(self)@,
    {
        match find_key(&self.chains, &chain) {
            Some(i) => {
                proof {
                    lemma_pairs_map_at(self.chains@, i as int);
                }
                if self.chains[i].1.contains_key(&contract) {
                    Err(InsertionError::PathExists)
                } else {
                    self.put_at(i, chain, contract, entry);
                    Ok(())
                }
            },
            None => {
                proof {
                    lemma_pairs_map_absent(self.chains@, chain@);
                }
                self.put_new(chain, contract, entry);
                Ok(())
            },
        }
    }

    /// Writes `entry` at path `chain.contract`, replacing a record already
    /// there. Fails, changing nothing, when there is no bucket for `chain`.
    pub fn set(&mut self, chain: String, contract: String, entry: SmartContractTrackingDataEntry)
        -> (r: Result<(), InsertionError>)
        requires
            old(self).wf(),
        ensures
            final(self).wf(),
            r == if old(self)@.contains_key(chain@) {
                Ok(())
            } else {
                Err::<(), InsertionError>(InsertionError::ParentMissing)
            },
            r.is_ok() ==> final(self)@ == with_record(old(self)@, chain@, contract@, entry@),
            r.is_err() ==> final(self)@ == old(self)@,
    {
        match find_key(&self.chains, &chain) {
            Some(i) => {
                proof {
                    lemma_pairs_map_at(self.chains@, i as int);
                }
                self.put_at(i, chain, contract, entry);
                Ok(())
            },
            None => {
                proof {
                    lemma_pairs_map_absent(self.chains@, chain@);
                }
                Err(InsertionError::ParentMissing)
            },
        }
    }
}

} // verus!
