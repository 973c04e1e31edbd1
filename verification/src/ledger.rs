//! The indexed ledger of NFT custody positions.
//!
//! The primary store owns one record per locked asset under the composite
//! key (collection, token id), kept in ascending key order. The owner and
//! collection "indexes" are derived projections of the same committed
//! sequence — a range query is a filter of the store — so no index can
//! lag the primary write, and every range scan comes out in ascending
//! key order.

use vstd::prelude::*;

use crate::kv::{
    drop_key, find_key2, has_key, key_idx, lemma_drop_key, lemma_store, lookup, store, uniq_keys,
};
use crate::order::{key_lt, key_lt_exec, lemma_key_transitive, lemma_key_trichotomy};

verus! {

/// One NFT custody position: `owner` locked `token_id` of
/// `collection_address` from `locked_since` until `locked_until`.
#[derive(Debug)]
pub struct Lockup {
    pub owner: String,
    pub collection_address: String,
    pub token_id: String,
    pub locked_since: u64,
    pub locked_until: u64,
}

/// The mathematical reading of a [`Lockup`] record.
pub struct LockupView {
    pub owner: Seq<char>,
    pub collection_address: Seq<char>,
    pub token_id: Seq<char>,
    pub locked_since: u64,
    pub locked_until: u64,
}

impl View for Lockup {
    type V = LockupView;

    open spec fn view(&self) -> LockupView {
        LockupView {
            owner: self.owner@,
            collection_address: self.collection_address@,
            token_id: self.token_id@,
            locked_since: self.locked_since,
            locked_until: self.locked_until,
        }
    }
}

impl Clone for Lockup {
    fn clone(&self) -> (r: Self)
        ensures
            r@ == self@,
    {
        Lockup {
            owner: self.owner.clone(),
            collection_address: self.collection_address.clone(),
            token_id: self.token_id.clone(),
            locked_since: self.locked_since,
            locked_until: self.locked_until,
        }
    }
}

impl Lockup {
    pub fn new(
        owner: String,
        collection_address: String,
        token_id: String,
        locked_since: u64,
        locked_until: u64,
    ) -> (r: Lockup)
        ensures
            r@ == (LockupView {
                owner: owner@,
                collection_address: collection_address@,
                token_id: token_id@,
                locked_since,
                locked_until,
            }),
    {
        Lockup { owner, collection_address, token_id, locked_since, locked_until }
    }
}

/// The composite key a record is stored under.
pub open spec fn rec_key(l: LockupView) -> (Seq<char>, Seq<char>) {
    (l.collection_address, l.token_id)
}

/// The committed reading of the ledger: keyed records in ascending key
/// order.
pub type LedgerSeq = Seq<((Seq<char>, Seq<char>), LockupView)>;

/// The records of the ledger, in storage order.
pub open spec fn records_of(s: LedgerSeq) -> Seq<LockupView> {
    s.map_values(|p: ((Seq<char>, Seq<char>), LockupView)| p.1)
}

/// The records of one owner, in storage order.
pub open spec fn owned_by(s: LedgerSeq, owner: Seq<char>) -> Seq<LockupView> {
    records_of(s).filter(|l: LockupView| l.owner == owner)
}

/// The records of one collection, in storage order.
pub open spec fn in_collection(s: LedgerSeq, collection: Seq<char>) -> Seq<LockupView> {
    records_of(s).filter(|l: LockupView| l.collection_address == collection)
}

/// Entries stand in strictly ascending composite-key order.
pub open spec fn ledger_sorted(s: LedgerSeq) -> bool {
    forall|i: int, j: int|
        0 <= i < j < s.len() ==> key_lt((#[trigger] s[i]).0, (#[trigger] s[j]).0)
}

/// Keys are unique, each entry is keyed by its own record's collection
/// and token id, and entries are sorted by key.
pub open spec fn ledger_wf(s: LedgerSeq) -> bool {
    &&& uniq_keys(s)
    &&& forall|i: int| 0 <= i < s.len() ==> (#[trigger] s[i]).0 == rec_key(s[i].1)
    &&& ledger_sorted(s)
}

/// Where a fresh key belongs: the index of the first entry whose key is
/// not below `k`.
pub open spec fn insert_pos(s: LedgerSeq, k: (Seq<char>, Seq<char>)) -> int
    decreases s.len(),
{
    if s.len() == 0 {
        0
    } else if key_lt(s[0].0, k) {
        1 + insert_pos(s.drop_first(), k)
    } else {
        0
    }
}

/// The sequence after storing `rec`: overwrite in place when the key is
/// present, insert at its sorted position otherwise.
pub open spec fn ledger_put(s: LedgerSeq, rec: LockupView) -> LedgerSeq {
    let k = rec_key(rec);
    if has_key(s, k) {
        s.update(key_idx(s, k), (k, rec))
    } else {
        s.insert(insert_pos(s, k), (k, rec))
    }
}

/// `insert_pos` is the index where a forward scan stops.
proof fn lemma_insert_pos_at(s: LedgerSeq, k: (Seq<char>, Seq<char>), i: int)
    requires
        0 <= i <= s.len(),
        forall|j: int| 0 <= j < i ==> key_lt((#[trigger] s[j]).0, k),
        i == s.len() || !key_lt(s[i].0, k),
    ensures
        insert_pos(s, k) == i,
    decreases s.len(),
{
    if s.len() == 0 {
    } else if i == 0 {
    } else {
        assert(key_lt(s[0].0, k));
        let t = s.drop_first();
        assert forall|j: int| 0 <= j < i - 1 implies key_lt((#[trigger] t[j]).0, k) by {
            assert(t[j] == s[j + 1]);
        }
        if i < s.len() {
            assert(t[i - 1] == s[i]);
        }
        lemma_insert_pos_at(t, k, i - 1);
    }
}

/// Everything before `insert_pos` is below `k`, and the entry at it (if
/// any) is not.
proof fn lemma_insert_pos_props(s: LedgerSeq, k: (Seq<char>, Seq<char>))
    ensures
        0 <= insert_pos(s, k) <= s.len(),
        forall|j: int| 0 <= j < insert_pos(s, k) ==> key_lt((#[trigger] s[j]).0, k),
        insert_pos(s, k) < s.len() ==> !key_lt(s[insert_pos(s, k)].0, k),
    decreases s.len(),
{
    if s.len() == 0 {
    } else if key_lt(s[0].0, k) {
        let t = s.drop_first();
        lemma_insert_pos_props(t, k);
        let p = insert_pos(s, k);
        assert forall|j: int| 0 <= j < p implies key_lt((#[trigger] s[j]).0, k) by {
            if j > 0 {
                assert(t[j - 1] == s[j]);
            }
        }
        if p < s.len() {
            assert(t[p - 1] == s[p]);
        }
    }
}

/// Storing a record keeps the ledger well formed, binds its key to it,
/// and leaves every other binding as it was.
pub proof fn lemma_ledger_put(s: LedgerSeq, rec: LockupView)
    requires
        ledger_wf(s),
    ensures
        ledger_wf(ledger_put(s, rec)),
        lookup(ledger_put(s, rec), rec_key(rec)) == Some(rec),
        forall|k2: (Seq<char>, Seq<char>)| k2 != rec_key(rec) ==> lookup(ledger_put(s, rec), k2)
            == lookup(s, k2),
        ledger_put(s, rec).len() == if has_key(s, rec_key(rec)) {
            s.len()
        } else {
            s.len() + 1
        },
{
    let k = rec_key(rec);
    let t = ledger_put(s, rec);
    if has_key(s, k) {
        assert(t == store(s, k, rec));
        lemma_store(s, k, rec);
        let i0 = key_idx(s, k);
        assert(0 <= i0 < s.len() && s[i0].0 == k);
        assert forall|i: int| 0 <= i < t.len() implies (#[trigger] t[i]).0 == rec_key(t[i].1) by {
            if i != i0 {
                assert(t[i] == s[i]);
            }
        }
        assert(ledger_sorted(t)) by {
            assert forall|i: int, j: int| 0 <= i < j < t.len() implies key_lt(
                (#[trigger] t[i]).0,
                (#[trigger] t[j]).0,
            ) by {
                assert(t[i].0 == s[i].0);
                assert(t[j].0 == s[j].0);
            }
        }
    } else {
        lemma_insert_pos_props(s, k);
        let p = insert_pos(s, k);
        assert(t == s.insert(p, (k, rec)));
        // entries at and after the insertion point are above the key
        assert forall|j: int| p <= j < s.len() implies key_lt(k, (#[trigger] s[j]).0) by {
            assert(s[p].0 != k);
            assert(key_lt(k, s[p].0)) by {
                lemma_key_trichotomy(k, s[p].0);
            }
            if j > p {
                lemma_key_transitive(k, s[p].0, s[j].0);
            }
        }
        assert(ledger_sorted(t)) by {
            assert forall|i: int, j: int| 0 <= i < j < t.len() implies key_lt(
                (#[trigger] t[i]).0,
                (#[trigger] t[j]).0,
            ) by {
                if j < p {
                    assert(t[i] == s[i] && t[j] == s[j]);
                } else if i < p && j == p {
                    assert(t[i] == s[i]);
                    assert(key_lt(s[i].0, k));
                } else if i == p && j > p {
                    assert(t[j] == s[j - 1]);
                    assert(key_lt(k, s[j - 1].0));
                } else if i < p && j > p {
                    assert(t[i] == s[i] && t[j] == s[j - 1]);
                } else if i > p {
                    assert(t[i] == s[i - 1] && t[j] == s[j - 1]);
                }
            }
        }
        assert(uniq_keys(t)) by {
            assert forall|i: int, j: int| 0 <= i < j < t.len() implies t[i].0 != t[j].0 by {
                if i == p || j == p {
                    assert(!has_key(s, k));
                    if i == p && j > p {
                        assert(t[j] == s[j - 1]);
                    }
                    if j == p && i < p {
                        assert(t[i] == s[i]);
                    }
                } else {
                    let si = if i < p { i } else { i - 1 };
                    let sj = if j < p { j } else { j - 1 };
                    assert(t[i] == s[si] && t[j] == s[sj]);
                    assert(si < sj);
                }
            }
        }
        assert forall|i: int| 0 <= i < t.len() implies (#[trigger] t[i]).0 == rec_key(t[i].1) by {
            if i < p {
                assert(t[i] == s[i]);
            } else if i > p {
                assert(t[i] == s[i - 1]);
            }
        }
        assert(lookup(t, k) == Some(rec)) by {
            assert(t[p].0 == k);
            assert(has_key(t, k));
            let b = key_idx(t, k);
            assert(0 <= b < t.len() && t[b].0 == k);
            if b != p {
                let sb = if b < p { b } else { b - 1 };
                assert(t[b] == s[sb]);
                assert(s[sb].0 == k);
            }
        }
        assert forall|k2: (Seq<char>, Seq<char>)| k2 != k implies lookup(t, k2) == lookup(
            s,
            k2,
        ) by {
            if has_key(s, k2) {
                let a = key_idx(s, k2);
                assert(0 <= a < s.len() && s[a].0 == k2);
                let ta = if a < p { a } else { a + 1 };
                assert(t[ta] == s[a]);
                assert(has_key(t, k2));
                let b = key_idx(t, k2);
                assert(0 <= b < t.len() && t[b].0 == k2);
                assert(b != p);
                let sb = if b < p { b } else { b - 1 };
                assert(t[b] == s[sb]);
                assert(sb == a);
            } else {
                if has_key(t, k2) {
                    let b = key_idx(t, k2);
                    assert(0 <= b < t.len() && t[b].0 == k2);
                    assert(b != p);
                    let sb = if b < p { b } else { b - 1 };
                    assert(s[sb].0 == k2);
                }
            }
        }
    }
}

/// Ascending composite-key order over a run of records.
pub open spec fn records_ascending(rs: Seq<LockupView>) -> bool {
    forall|m: int, p: int|
        0 <= m < p < rs.len() ==> key_lt(rec_key(#[trigger] rs[m]), rec_key(#[trigger] rs[p]))
}

/// A filtered record has a position in the original run.
proof fn lemma_filter_member(rs: Seq<LockupView>, pred: spec_fn(LockupView) -> bool, m: int)
    requires
        0 <= m < rs.filter(pred).len(),
    ensures
        exists|j: int| 0 <= j < rs.len() && rs[j] == rs.filter(pred)[m],
    decreases rs.len(),
{
    reveal(Seq::filter);
    if rs.len() > 0 {
        let f1 = rs.drop_last().filter(pred);
        if pred(rs.last()) && m == f1.len() {
            assert(rs[rs.len() - 1] == rs.filter(pred)[m]);
        } else {
            lemma_filter_member(rs.drop_last(), pred, m);
            let j = choose|j: int|
                0 <= j < rs.drop_last().len() && rs.drop_last()[j] == rs.drop_last().filter(
                    pred,
                )[m];
            assert(rs[j] == rs.filter(pred)[m]);
        }
    }
}

/// Any range scan of a well-formed ledger — any filter of its records —
/// comes out in ascending composite-key order.
pub proof fn lemma_range_ascending(s: LedgerSeq, pred: spec_fn(LockupView) -> bool)
    requires
        ledger_wf(s),
    ensures
        records_ascending(records_of(s).filter(pred)),
    decreases s.len(),
{
    reveal(Seq::filter);
    let rs = records_of(s);
    if s.len() == 0 {
        assert(rs =~= Seq::<LockupView>::empty());
    } else {
        let s2 = s.drop_last();
        assert(ledger_wf(s2)) by {
            assert forall|i: int| 0 <= i < s2.len() implies (#[trigger] s2[i]).0 == rec_key(
                s2[i].1,
            ) by {
                assert(s2[i] == s[i]);
            }
            assert forall|i: int, j: int| 0 <= i < j < s2.len() implies s2[i].0 != s2[j].0 by {
                assert(s2[i] == s[i] && s2[j] == s[j]);
            }
            assert forall|i: int, j: int| 0 <= i < j < s2.len() implies key_lt(
                (#[trigger] s2[i]).0,
                (#[trigger] s2[j]).0,
            ) by {
                assert(s2[i] == s[i] && s2[j] == s[j]);
            }
        }
        lemma_range_ascending(s2, pred);
        assert(records_of(s2) =~= rs.drop_last());
        let f = rs.filter(pred);
        let f1 = rs.drop_last().filter(pred);
        assert(records_ascending(f1));
        if pred(rs.last()) {
            assert(f == f1.push(rs.last()));
            assert forall|m: int| 0 <= m < f1.len() implies key_lt(
                rec_key(#[trigger] f1[m]),
                rec_key(rs.last()),
            ) by {
                lemma_filter_member(rs.drop_last(), pred, m);
                let j = choose|j: int| 0 <= j < rs.drop_last().len() && rs.drop_last()[j] == f1[m];
                assert(rs.drop_last()[j] == rs[j]);
                assert(rec_key(rs[j]) == s[j].0);
                assert(rec_key(rs.last()) == s[s.len() - 1].0);
                assert(key_lt(s[j].0, s[s.len() - 1].0));
            }
            assert forall|m: int, p: int| 0 <= m < p < f.len() implies key_lt(
                rec_key(#[trigger] f[m]),
                rec_key(#[trigger] f[p]),
            ) by {
                if p < f1.len() {
                    assert(f[m] == f1[m] && f[p] == f1[p]);
                } else {
                    assert(f[p] == rs.last());
                    assert(f[m] == f1[m]);
                }
            }
        } else {
            assert(f == f1);
        }
    }
}

/// The primary store of custody records with its derived indexes.
pub struct NftLedger {
    pub entries: Vec<((String, String), Lockup)>,
}

impl View for NftLedger {
    type V = LedgerSeq;

    open spec fn view(&self) -> LedgerSeq {
        self.entries@.map_values(
            |p: ((String, String), Lockup)| ((p.0.0@, p.0.1@), p.1@),
        )
    }
}

impl NftLedger {
    /// The committed sequence is well formed; see [`ledger_wf`].
    pub open spec fn wf(self) -> bool {
        ledger_wf(self@)
    }

    /// An empty ledger.
    pub fn new() -> (r: Self)
        ensures
            r.wf(),
            r@ == Seq::<((Seq<char>, Seq<char>), LockupView)>::empty(),
    {
        let r = NftLedger { entries: Vec::new() };
        proof {
            assert(r@ =~= Seq::<((Seq<char>, Seq<char>), LockupView)>::empty());
        }
        r
    }

    /// Number of custody records.
    pub fn count(&self) -> (r: usize)
        ensures
            r == self@.len(),
    {
        self.entries.len()
    }

    /// Where a forward scan stops for this key.
    fn find_insert_pos(entries: &Vec<((String, String), Lockup)>, key: &(String, String)) -> (p:
        usize)
        ensures
            p <= entries@.len(),
            forall|j: int|
                0 <= j < p ==> key_lt(
                    ((#[trigger] entries@[j]).0.0@, entries@[j].0.1@),
                    (key.0@, key.1@),
                ),
            p < entries@.len() ==> !key_lt(
                (entries@[p as int].0.0@, entries@[p as int].0.1@),
                (key.0@, key.1@),
            ),
    {
        let n = entries.len();
        let mut p: usize = 0;
        while p < n
            invariant
                p <= n,
                n == entries@.len(),
                forall|j: int|
                    0 <= j < p ==> key_lt(
                        ((#[trigger] entries@[j]).0.0@, entries@[j].0.1@),
                        (key.0@, key.1@),
                    ),
            decreases n - p,
        {
            if !key_lt_exec(&entries[p].0, key) {
                return p;
            }
            p = p + 1;
        }
        p
    }

    /// Insert the record at its key's sorted position, or overwrite the
    /// record already stored under the same (collection, token id) key;
    /// every index reflects the change in the same commit, because the
    /// indexes are projections.
    pub fn put(&mut self, rec: Lockup)
        requires
            old(self).wf(),
        ensures
            final(self).wf(),
            final(self)@ == ledger_put(old(self)@, rec@),
    {
        let key = (rec.collection_address.clone(), rec.token_id.clone());
        let ghost k = rec_key(rec@);
        let ghost s0 = self@;
        proof {
            lemma_ledger_put(s0, rec@);
        }
        match find_key2(&self.entries, &key) {
            Some(i) => {
                proof {
                    assert(s0[i as int].0 == k);
                    assert(has_key(s0, k));
                    assert(key_idx(s0, k) == i) by {
                        let j = key_idx(s0, k);
                        assert(0 <= j < s0.len() && s0[j].0 == k);
                        if j != i {
                            assert(s0[i as int].0 == s0[j].0);
                        }
                    }
                }
                self.entries.set(i, (key, rec));
                proof {
                    assert(self@ =~= ledger_put(s0, rec@));
                }
            },
            None => {
                proof {
                    assert(!has_key(s0, k));
                }
                let p = Self::find_insert_pos(&self.entries, &key);
                proof {
                    lemma_insert_pos_at(s0, k, p as int);
                }
                self.entries.insert(p, (key, rec));
                proof {
                    assert(self@ =~= ledger_put(s0, rec@));
                }
            },
        }
    }

    /// Remove the record stored under (collection, token id), with all
    /// its index entries; removing an absent key changes nothing.
    pub fn delete(&mut self, collection: &String, token_id: &String)
        requires
            old(self).wf(),
        ensures
            final(self).wf(),
            final(self)@ == drop_key(old(self)@, (collection@, token_id@)),
    {
        let key = (collection.clone(), token_id.clone());
        let ghost k = (collection@, token_id@);
        let ghost s0 = self@;
        match find_key2(&self.entries, &key) {
            Some(i) => {
                proof {
                    assert(s0[i as int].0 == k);
                    assert(has_key(s0, k));
                    assert(key_idx(s0, k) == i) by {
                        let j = key_idx(s0, k);
                        assert(0 <= j < s0.len() && s0[j].0 == k);
                        if j != i {
                            assert(s0[i as int].0 == s0[j].0);
                        }
                    }
                    lemma_drop_key(s0, k);
                }
                self.entries.remove(i);
                proof {
                    assert(self@ =~= drop_key(s0, k));
                    assert forall|i2: int| 0 <= i2 < self@.len() implies (#[trigger] self@[i2]).0
                        == rec_key(self@[i2].1) by {
                        if i2 < i {
                            assert(self@[i2] == s0[i2]);
                        } else {
                            assert(self@[i2] == s0[i2 + 1]);
                        }
                    }
                    assert(ledger_sorted(self@)) by {
                        assert forall|a: int, b: int| 0 <= a < b < self@.len() implies key_lt(
                            (#[trigger] self@[a]).0,
                            (#[trigger] self@[b]).0,
                        ) by {
                            let sa = if a < i { a } else { a + 1 };
                            let sb = if b < i { b } else { b + 1 };
                            assert(self@[a] == s0[sa] && self@[b] == s0[sb]);
                            assert(sa < sb);
                        }
                    }
                }
            },
            None => {
                proof {
                    assert(!has_key(s0, k));
                }
            },
        }
    }

    /// The record under (collection, token id), if custody is held.
    pub fn first_by_token(&self, collection: &String, token_id: &String) -> (r: Option<&Lockup>)
        requires
            self.wf(),
        ensures
            match r {
                Some(l) => lookup(self@, (collection@, token_id@)) == Some(l@),
                None => lookup(self@, (collection@, token_id@)) is None,
            },
    {
        let key = (collection.clone(), token_id.clone());
        let ghost k = (collection@, token_id@);
        match find_key2(&self.entries, &key) {
            Some(i) => {
                proof {
                    let s0 = self@;
                    assert(s0[i as int].0 == k);
                    assert(has_key(s0, k));
                    assert(key_idx(s0, k) == i) by {
                        let j = key_idx(s0, k);
                        assert(0 <= j < s0.len() && s0[j].0 == k);
                        if j != i {
                            assert(s0[i as int].0 == s0[j].0);
                        }
                    }
                }
                Some(&self.entries[i].1)
            },
            None => {
                proof {
                    assert(!has_key(self@, k));
                }
                None
            },
        }
    }

    /// All records of one owner, in ascending composite-key order.
    pub fn by_owner(&self, owner: &String) -> (r: Vec<Lockup>)
        ensures
            r@.map_values(|l: Lockup| l@) == owned_by(self@, owner@),
            self.wf() ==> records_ascending(r@.map_values(|l: Lockup| l@)),
    {
        let n = self.entries.len();
        let mut out: Vec<Lockup> = Vec::new();
        let mut i: usize = 0;
        proof {
            reveal(Seq::filter);
            assert(out@.map_values(|l: Lockup| l@) =~= owned_by(self@.take(0), owner@)) by {
                assert(records_of(self@.take(0)) =~= Seq::<LockupView>::empty());
            }
        }
        while i < n
            invariant
                i <= n,
                n == self@.len(),
                out@.map_values(|l: Lockup| l@) == owned_by(self@.take(i as int), owner@),
            decreases n - i,
        {
            proof {
                reveal(Seq::filter);
                let s = self@;
                assert(records_of(s.take(i + 1)).drop_last() =~= records_of(s.take(i as int)));
                assert(records_of(s.take(i + 1)).last() == s[i as int].1);
            }
            let rec = &self.entries[i].1;
            if rec.owner == *owner {
                out.push(rec.clone());
                proof {
                    assert(out@.map_values(|l: Lockup| l@) =~= owned_by(
                        self@.take(i + 1),
                        owner@,
                    ));
                }
            } else {
                proof {
                    assert(out@.map_values(|l: Lockup| l@) =~= owned_by(
                        self@.take(i + 1),
                        owner@,
                    ));
                }
            }
            i = i + 1;
        }
        proof {
            assert(self@.take(n as int) =~= self@);
            if self.wf() {
                lemma_range_ascending(self@, |l: LockupView| l.owner == owner@);
            }
        }
        out
    }

    /// All records of one collection, in ascending composite-key order.
    pub fn by_collection(&self, collection: &String) -> (r: Vec<Lockup>)
        ensures
            r@.map_values(|l: Lockup| l@) == in_collection(self@, collection@),
            self.wf() ==> records_ascending(r@.map_values(|l: Lockup| l@)),
    {
        let n = self.entries.len();
        let mut out: Vec<Lockup> = Vec::new();
        let mut i: usize = 0;
        proof {
            reveal(Seq::filter);
            assert(out@.map_values(|l: Lockup| l@) =~= in_collection(self@.take(0), collection@))
                by {
                assert(records_of(self@.take(0)) =~= Seq::<LockupView>::empty());
            }
        }
        while i < n
            invariant
                i <= n,
                n == self@.len(),
                out@.map_values(|l: Lockup| l@) == in_collection(self@.take(i as int), collection@),
            decreases n - i,
        {
            proof {
                reveal(Seq::filter);
                let s = self@;
                assert(records_of(s.take(i + 1)).drop_last() =~= records_of(s.take(i as int)));
                assert(records_of(s.take(i + 1)).last() == s[i as int].1);
            }
            let rec = &self.entries[i].1;
            if rec.collection_address == *collection {
                out.push(rec.clone());
                proof {
                    assert(out@.map_values(|l: Lockup| l@) =~= in_collection(
                        self@.take(i + 1),
                        collection@,
                    ));
                }
            } else {
                proof {
                    assert(out@.map_values(|l: Lockup| l@) =~= in_collection(
                        self@.take(i + 1),
                        collection@,
                    ));
                }
            }
            i = i + 1;
        }
        proof {
            assert(self@.take(n as int) =~= self@);
            if self.wf() {
                lemma_range_ascending(self@, |l: LockupView| l.collection_address == collection@);
            }
        }
        out
    }
}

} // verus!
