//! The digest under construction: one entry per subscriber, each mapping
//! every product the subscriber was alerted on to the ordered list of
//! timestamps at which the alerts arrived.
//!
//! The whole point: at most one entry per subscriber id, and within an
//! entry at most one list per product. A record is classified before it is
//! merged — a brand-new subscriber, a new product for a known subscriber,
//! or a repeat of a pair already seen — and the merge only ever creates an
//! entry, adds a product key, or appends a timestamp.

use vstd::prelude::*;
use vstd::string::*;
use crate::brain::Brain;
use crate::email::Email;
use crate::errors::ExtractError;
use crate::extract::Entry;
use crate::extract::EntryView;
use crate::extract::extract_spec;
use crate::kvmap::kv_map;
use crate::kvmap::distinct_keys;
use crate::kvmap::has_key;
use crate::kvmap::lemma_kv_map_dom;
use crate::kvmap::lemma_kv_map_index;
use crate::kvmap::lemma_kv_map_update;
use crate::kvmap::lemma_kv_map_push;
use crate::kvmap::lemma_kv_map_len;
use crate::kvmap::pair_in;
use crate::kvmap::pairs_sub;
use crate::kvmap::lemma_kv_maps_ne;
use crate::kvmap::lemma_kv_maps_eq;
use crate::product::Product;
use crate::product::ProductView;

verus! {

broadcast use vstd::std_specs::vec::vec_clone_deep_view_proof;

/// What one subscriber's entry denotes: product to ordered timestamps.
pub type AlertsView = Map<ProductView, Seq<Seq<char>>>;

/// What the whole digest denotes: subscriber id to that subscriber's alerts.
pub type BatchView = Map<u32, AlertsView>;

/// How an incoming record relates to the digest it is about to enter.
#[derive(Debug, PartialEq)]
pub enum EntryClass {
    /// The subscriber already has this product: only note the time.
    Duplicate((u32, Product)),
    /// A subscriber not yet in the digest.
    New,
    /// A known subscriber, but a product not yet in their entry.
    NewProduct(u32),
}

/// Mathematical value of an `EntryClass`.
pub enum EntryClassView {
    Duplicate((u32, ProductView)),
    New,
    NewProduct(u32),
}

impl View for EntryClass {
    type V = EntryClassView;

    open spec fn view(&self) -> EntryClassView {
        match self {
            EntryClass::Duplicate(ip) => EntryClassView::Duplicate((ip.0, ip.1@)),
            EntryClass::New => EntryClassView::New,
            EntryClass::NewProduct(id) => EntryClassView::NewProduct(*id),
        }
    }
}

impl Default for EntryClass {
    /// Until the digest says otherwise, a record counts as brand new.
    fn default() -> (r: Self)
        ensures
            r == EntryClass::New,
    {
        EntryClass::New
    }
}

/// How a record is classified against a digest: by membership of its
/// subscriber id, then of its product within that subscriber's entry.
pub open spec fn classify_spec(m: BatchView, id: u32, p: ProductView) -> EntryClassView {
    if !m.dom().contains(id) {
        EntryClassView::New
    } else if !m[id].dom().contains(p) {
        EntryClassView::NewProduct(id)
    } else {
        EntryClassView::Duplicate((id, p))
    }
}

/// A one-product alerts mapping holding a single timestamp.
pub open spec fn single_alerts(p: ProductView, t: Seq<char>) -> AlertsView {
    Map::empty().insert(p, seq![t])
}

/// What ingesting one record does to the digest: create the entry, add the
/// product key, or append the timestamp — always exactly one of the three.
pub open spec fn ingest_spec(m: BatchView, id: u32, p: ProductView, t: Seq<char>) -> BatchView {
    if !m.dom().contains(id) {
        m.insert(id, single_alerts(p, t))
    } else if !m[id].dom().contains(p) {
        m.insert(id, m[id].insert(p, seq![t]))
    } else {
        m.insert(id, m[id].insert(p, m[id][p].push(t)))
    }
}

/// One subscriber's state: every product they were alerted on, with the
/// insertion-ordered list of every timestamp at which it happened.
#[derive(Debug)]
pub struct BatchEntry {
    id: u32,
    alerts: Vec<(Product, Vec<String>)>,
}

/// The alerts list as key-value pairs over mathematical values.
pub open spec fn alerts_pairs(s: Seq<(Product, Vec<String>)>) -> Seq<(ProductView, Seq<Seq<char>>)> {
    s.map_values(|pr: (Product, Vec<String>)| (pr.0@, pr.1.deep_view()))
}

impl BatchEntry {
    spec fn alert_pairs(&self) -> Seq<(ProductView, Seq<Seq<char>>)> {
        alerts_pairs(self.alerts@)
    }

    /// The subscriber this entry belongs to.
    pub closed spec fn spec_id(&self) -> u32 {
        self.id
    }

    #[verifier::type_invariant]
    spec fn wf(self) -> bool {
        distinct_keys(self.alert_pairs())
    }

    /// The subscriber id of this entry.
    pub fn id(&self) -> (r: u32)
        ensures
            r == self.spec_id(),
    {
        self.id
    }

    /// An entry for one record: that subscriber, that product, that one
    /// timestamp.
    pub fn from(e: Entry) -> (r: BatchEntry)
        ensures
            r.spec_id() == e.id,
            r@ == single_alerts(e.product@, e.time@),
    {
        let ghost pv = e.product@;
        let ghost tv = e.time@;
        let mut times: Vec<String> = Vec::new();
        times.push(e.time);
        let mut alerts: Vec<(Product, Vec<String>)> = Vec::new();
        proof {
            assert(times.deep_view() =~= seq![tv]);
        }
        alerts.push((e.product, times));
        let r = BatchEntry { id: e.id, alerts };
        proof {
            assert(r.alert_pairs() =~= seq![(pv, seq![tv])]);
            lemma_kv_map_push(Seq::<(ProductView, Seq<Seq<char>>)>::empty(), (pv, seq![tv]));
            assert(Seq::<(ProductView, Seq<Seq<char>>)>::empty().push((pv, seq![tv]))
                =~= r.alert_pairs());
            assert(r@ == single_alerts(pv, tv));
        }
        r
    }
}

impl View for BatchEntry {
    type V = AlertsView;

    closed spec fn view(&self) -> AlertsView {
        kv_map(self.alert_pairs())
    }
}

/// The digest under construction: one entry per subscriber. Created empty;
/// mutated only through [`Batch::add_entry`].
#[derive(Debug)]
pub struct Batch {
    entries: Vec<BatchEntry>,
}

impl View for Batch {
    type V = BatchView;

    closed spec fn view(&self) -> BatchView {
        kv_map(self.entry_pairs())
    }
}

/// The entry list as key-value pairs over mathematical values.
pub open spec fn entries_pairs(s: Seq<BatchEntry>) -> Seq<(u32, AlertsView)> {
    s.map_values(|be: BatchEntry| (be.spec_id(), be@))
}

impl Batch {
    spec fn entry_pairs(&self) -> Seq<(u32, AlertsView)> {
        entries_pairs(self.entries@)
    }

    #[verifier::type_invariant]
    spec fn wf(self) -> bool {
        distinct_keys(self.entry_pairs())
    }

    /// An empty digest.
    pub fn new() -> (r: Self)
        ensures
            r@ == Map::<u32, AlertsView>::empty(),
    {
        let r = Batch { entries: Vec::new() };
        proof {
            assert(r.entry_pairs() =~= Seq::<(u32, AlertsView)>::empty());
        }
        r
    }

    /// First index holding the given subscriber id, if any.
    fn find_entry(entries: &Vec<BatchEntry>, id: u32) -> (r: Option<usize>)
        ensures
            match r {
                Some(j) => j < entries@.len() && entries@[j as int].spec_id() == id,
                None => forall|j: int|
                    0 <= j < entries@.len() ==> (#[trigger] entries@[j]).spec_id() != id,
            },
    {
        let n = entries.len();
        let mut j: usize = 0;
        while j < n
            invariant
                j <= n,
                n == entries@.len(),
                forall|k: int| 0 <= k < j ==> (#[trigger] entries@[k]).spec_id() != id,
            decreases n - j,
        {
            if entries[j].id == id {
                return Some(j);
            }
            j = j + 1;
        }
        None
    }

    /// First index holding the given product, if any.
    fn find_alert(alerts: &Vec<(Product, Vec<String>)>, p: &Product) -> (r: Option<usize>)
        ensures
            match r {
                Some(k) => k < alerts@.len() && (alerts@[k as int].0)@ == p@,
                None => forall|k: int|
                    0 <= k < alerts@.len() ==> ((#[trigger] alerts@[k]).0)@ != p@,
            },
    {
        let n = alerts.len();
        let mut k: usize = 0;
        while k < n
            invariant
                k <= n,
                n == alerts@.len(),
                forall|i: int| 0 <= i < k ==> ((#[trigger] alerts@[i]).0)@ != p@,
            decreases n - k,
        {
            if alerts[k].0.eq(p) {
                return Some(k);
            }
            k = k + 1;
        }
        None
    }

    /// Decides how a record relates to this digest, by a membership test on
    /// the subscriber id and then on the product: never by scan order.
    pub fn classify(&self, e: &Entry) -> (r: EntryClass)
        ensures
            r@ == classify_spec(self@, e.id, e.product@),
    {
        proof {
            use_type_invariant(&*self);
            lemma_kv_map_dom(self.entry_pairs());
        }
        match Self::find_entry(&self.entries, e.id) {
            None => {
                proof {
                    assert(!has_key(self.entry_pairs(), e.id)) by {
                        assert(forall|j: int|
                            0 <= j < self.entry_pairs().len() ==> (#[trigger] self.entry_pairs()[
                            j]).0 != e.id) by {
                            assert(forall|j: int|
                                0 <= j < self.entries@.len() ==> (#[trigger] self.entry_pairs()[
                                j]).0 == self.entries@[j].spec_id());
                        }
                    }
                }
                EntryClass::New
            },
            Some(j) => {
                proof {
                    assert(self.entry_pairs()[j as int].0 == e.id);
                    lemma_kv_map_index(self.entry_pairs(), j as int);
                    assert(self@[e.id] == self.entries@[j as int]@);
                }
                let be = &self.entries[j];
                proof {
                    use_type_invariant(be);
                    lemma_kv_map_dom(be.alert_pairs());
                }
                match Self::find_alert(&be.alerts, &e.product) {
                    None => {
                        proof {
                            assert(!has_key(be.alert_pairs(), e.product@)) by {
                                assert(forall|k: int|
                                    0 <= k < be.alert_pairs().len() ==> (
                                    #[trigger] be.alert_pairs()[k]).0 != e.product@) by {
                                    assert(forall|k: int|
                                        0 <= k < be.alerts@.len() ==> (#[trigger] be.alert_pairs()[
                                        k]).0 == (be.alerts@[k].0)@);
                                }
                            }
                        }
                        EntryClass::NewProduct(e.id)
                    },
                    Some(k) => {
                        proof {
                            assert(be.alert_pairs()[k as int].0 == e.product@);
                            assert(has_key(be.alert_pairs(), e.product@));
                        }
                        EntryClass::Duplicate((e.id, e.product.clone()))
                    },
                }
            },
        }
    }

    /// Ingests one record. The record is classified first, and exactly one
    /// mutation follows: a fresh entry, a fresh product key, or one more
    /// timestamp at the end of the existing list. Cannot fail.
    pub fn add_entry(&mut self, e: Entry) -> (r: Result<(), ExtractError>)
        ensures
            r is Ok,
            final(self)@ == ingest_spec(old(self)@, e.id, e.product@, e.time@),
    {
        proof {
            use_type_invariant(&*self);
        }
        let ghost m0 = self@;
        let ghost pairs0 = self.entry_pairs();
        let ghost eid = e.id;
        let ghost pv = e.product@;
        let ghost tv = e.time@;
        let entry_class = self.classify(&e);
        let mut entries: Vec<BatchEntry> = Vec::new();
        std::mem::swap(&mut entries, &mut self.entries);
        proof {
            assert(entries_pairs(entries@) == pairs0);
        }
        match entry_class {
            EntryClass::New => {
                proof {
                    lemma_kv_map_dom(pairs0);
                    assert(!m0.dom().contains(eid));
                    assert(!has_key(pairs0, eid));
                }
                let be = BatchEntry::from(e);
                entries.push(be);
                proof {
                    assert(entries_pairs(entries@) =~= pairs0.push((eid, single_alerts(pv, tv))));
                    lemma_kv_map_push(pairs0, (eid, single_alerts(pv, tv)));
                    assert(distinct_keys(entries_pairs(entries@))) by {
                        let ps = entries_pairs(entries@);
                        assert(forall|i: int| 0 <= i < pairs0.len() ==> #[trigger] ps[i] == pairs0[i]);
                        assert(forall|i: int| 0 <= i < pairs0.len() ==> (#[trigger] ps[i]).0 != eid);
                    }
                }
                self.entries = entries;
                proof {
                    assert(self@ == m0.insert(eid, single_alerts(pv, tv)));
                }
                Ok(())
            },
            EntryClass::NewProduct(_) => {
                proof {
                    lemma_kv_map_dom(pairs0);
                    assert(m0.dom().contains(eid));
                    assert(!m0[eid].dom().contains(pv));
                }
                let j = match Self::find_entry(&entries, e.id) {
                    Some(j) => j,
                    None => {
                        proof {
                            assert(has_key(pairs0, eid));
                            let i = choose|i: int|
                                0 <= i < pairs0.len() && (#[trigger] pairs0[i]).0 == eid;
                            assert(entries@[i].spec_id() == eid);
                            assert(false);
                        }
                        return Ok(());
                    },
                };
                proof {
                    assert(pairs0[j as int].0 == eid);
                    lemma_kv_map_index(pairs0, j as int);
                    assert(m0[eid] == entries@[j as int]@);
                }
                let ghost es0 = entries@;
                let mut be = entries.remove(j);
                proof {
                    use_type_invariant(&be);
                }
                let ghost bpairs0 = be.alert_pairs();
                let ghost bev0 = be@;
                proof {
                    lemma_kv_map_dom(bpairs0);
                    assert(!has_key(bpairs0, pv));
                }
                let BatchEntry { id: bid, alerts } = be;
                let mut alerts = alerts;
                let mut times: Vec<String> = Vec::new();
                times.push(e.time);
                proof {
                    assert(times.deep_view() =~= seq![tv]);
                }
                alerts.push((e.product, times));
                proof {
                    assert(alerts_pairs(alerts@) =~= bpairs0.push((pv, seq![tv])));
                    lemma_kv_map_push(bpairs0, (pv, seq![tv]));
                    assert(distinct_keys(alerts_pairs(alerts@))) by {
                        let ps = alerts_pairs(alerts@);
                        assert(forall|i: int|
                            0 <= i < bpairs0.len() ==> #[trigger] ps[i] == bpairs0[i]);
                        assert(forall|i: int| 0 <= i < bpairs0.len() ==> (#[trigger] ps[i]).0 != pv);
                    }
                }
                let be2 = BatchEntry { id: bid, alerts };
                proof {
                    assert(be2@ == bev0.insert(pv, seq![tv]));
                    assert(be2.spec_id() == eid);
                }
                entries.insert(j, be2);
                proof {
                    assert(entries@ =~= es0.update(j as int, be2));
                    assert(entries_pairs(entries@) =~= pairs0.update(j as int, (eid, be2@)));
                    lemma_kv_map_update(pairs0, j as int, be2@);
                    assert(distinct_keys(entries_pairs(entries@))) by {
                        let ps = entries_pairs(entries@);
                        assert(forall|i: int|
                            0 <= i < pairs0.len() ==> (#[trigger] ps[i]).0 == pairs0[i].0);
                    }
                }
                self.entries = entries;
                proof {
                    assert(self@ == m0.insert(eid, m0[eid].insert(pv, seq![tv])));
                }
                Ok(())
            },
            EntryClass::Duplicate(_) => {
                proof {
                    lemma_kv_map_dom(pairs0);
                    assert(m0.dom().contains(eid));
                    assert(m0[eid].dom().contains(pv));
                }
                let j = match Self::find_entry(&entries, e.id) {
                    Some(j) => j,
                    None => {
                        proof {
                            assert(has_key(pairs0, eid));
                            let i = choose|i: int|
                                0 <= i < pairs0.len() && (#[trigger] pairs0[i]).0 == eid;
                            assert(entries@[i].spec_id() == eid);
                            assert(false);
                        }
                        return Ok(());
                    },
                };
                proof {
                    assert(pairs0[j as int].0 == eid);
                    lemma_kv_map_index(pairs0, j as int);
                    assert(m0[eid] == entries@[j as int]@);
                }
                let ghost es0 = entries@;
                let mut be = entries.remove(j);
                proof {
                    use_type_invariant(&be);
                }
                let ghost bpairs0 = be.alert_pairs();
                let ghost bev0 = be@;
                proof {
                    lemma_kv_map_dom(bpairs0);
                }
                let BatchEntry { id: bid, alerts } = be;
                let mut alerts = alerts;
                let ghost as0 = alerts@;
                let k = match Self::find_alert(&alerts, &e.product) {
                    Some(k) => k,
                    None => {
                        proof {
                            assert(has_key(bpairs0, pv));
                            let i = choose|i: int|
                                0 <= i < bpairs0.len() && (#[trigger] bpairs0[i]).0 == pv;
                            assert((as0[i].0)@ == pv);
                            assert(false);
                        }
                        return Ok(());
                    },
                };
                proof {
                    assert((as0[k as int].0)@ == pv);
                    assert(bpairs0[k as int].0 == pv);
                    lemma_kv_map_index(bpairs0, k as int);
                    assert(bev0[pv] == as0[k as int].1.deep_view());
                }
                let pr = alerts.remove(k);
                let (p0, ts) = pr;
                let mut ts = ts;
                let ghost ts0 = ts.deep_view();
                ts.push(e.time);
                proof {
                    assert(ts.deep_view() =~= ts0.push(tv));
                }
                alerts.insert(k, (p0, ts));
                proof {
                    assert(alerts@ =~= as0.update(k as int, (as0[k as int].0, ts)));
                    assert(alerts_pairs(alerts@) =~= bpairs0.update(k as int, (pv, ts0.push(tv))));
                    lemma_kv_map_update(bpairs0, k as int, ts0.push(tv));
                    assert(distinct_keys(alerts_pairs(alerts@))) by {
                        let ps = alerts_pairs(alerts@);
                        assert(forall|i: int|
                            0 <= i < bpairs0.len() ==> (#[trigger] ps[i]).0 == bpairs0[i].0);
                    }
                }
                let be2 = BatchEntry { id: bid, alerts };
                proof {
                    assert(be2@ == bev0.insert(pv, ts0.push(tv)));
                    assert(be2.spec_id() == eid);
                }
                entries.insert(j, be2);
                proof {
                    assert(entries@ =~= es0.update(j as int, be2));
                    assert(entries_pairs(entries@) =~= pairs0.update(j as int, (eid, be2@)));
                    lemma_kv_map_update(pairs0, j as int, be2@);
                    assert(distinct_keys(entries_pairs(entries@))) by {
                        let ps = entries_pairs(entries@);
                        assert(forall|i: int|
                            0 <= i < pairs0.len() ==> (#[trigger] ps[i]).0 == pairs0[i].0);
                    }
                }
                self.entries = entries;
                proof {
                    assert(ts0 == m0[eid][pv]);
                    assert(self@ == m0.insert(eid, m0[eid].insert(pv, m0[eid][pv].push(tv))));
                }
                Ok(())
            },
        }
    }
}

/// Timestamp lists are equal when they hold the same times in the same
/// order.
fn times_eq(a: &Vec<String>, b: &Vec<String>) -> (r: bool)
    ensures
        r == (a.deep_view() == b.deep_view()),
{
    let n = a.len();
    if n != b.len() {
        proof {
            assert(a.deep_view().len() == a@.len());
            assert(b.deep_view().len() == b@.len());
        }
        return false;
    }
    let mut i: usize = 0;
    while i < n
        invariant
            i <= n,
            n == a@.len(),
            n == b@.len(),
            forall|x: int| 0 <= x < i ==> a@[x]@ == b@[x]@,
        decreases n - i,
    {
        if !String::eq(&a[i], &b[i]) {
            proof {
                assert(a.deep_view()[i as int] == a@[i as int]@);
                assert(b.deep_view()[i as int] == b@[i as int]@);
            }
            return false;
        }
        i = i + 1;
    }
    proof {
        assert(a.deep_view() =~= b.deep_view());
    }
    true
}

/// Checks that every product of `a` occurs in `b` with an equal timestamp
/// list.
fn alerts_sub(a: &Vec<(Product, Vec<String>)>, b: &Vec<(Product, Vec<String>)>) -> (r: bool)
    requires
        distinct_keys(alerts_pairs(b@)),
    ensures
        r == pairs_sub(alerts_pairs(a@), alerts_pairs(b@)),
{
    let ghost pa = alerts_pairs(a@);
    let ghost pb = alerts_pairs(b@);
    let n = a.len();
    let mut i: usize = 0;
    while i < n
        invariant
            i <= n,
            n == a@.len(),
            pa == alerts_pairs(a@),
            pb == alerts_pairs(b@),
            distinct_keys(pb),
            forall|x: int| 0 <= x < i ==> pair_in(#[trigger] pa[x], pb),
        decreases n - i,
    {
        let pr = &a[i];
        match Batch::find_alert(b, &pr.0) {
            None => {
                proof {
                    assert(!pair_in(pa[i as int], pb)) by {
                        if pair_in(pa[i as int], pb) {
                            let j = choose|j: int|
                                0 <= j < pb.len() && (#[trigger] pb[j]).0 == pa[i as int].0 && pb[
                                j].1 == pa[i as int].1;
                            assert((b@[j].0)@ == (a@[i as int].0)@);
                            assert(false);
                        }
                    }
                }
                return false;
            },
            Some(j) => {
                if !times_eq(&pr.1, &b[j].1) {
                    proof {
                        assert(!pair_in(pa[i as int], pb)) by {
                            if pair_in(pa[i as int], pb) {
                                let j2 = choose|j2: int|
                                    0 <= j2 < pb.len() && (#[trigger] pb[j2]).0 == pa[i as int].0
                                        && pb[j2].1 == pa[i as int].1;
                                assert(pb[j as int].0 == pa[i as int].0);
                                if j2 < j {
                                    assert(pb[j2].0 != pb[j as int].0);
                                } else if j < j2 {
                                    assert(pb[j as int].0 != pb[j2].0);
                                }
                                assert(j2 == j);
                                assert(b@[j as int].1.deep_view() == a@[i as int].1.deep_view());
                                assert(false);
                            }
                        }
                    }
                    return false;
                }
                proof {
                    assert(pb[j as int].0 == pa[i as int].0 && pb[j as int].1 == pa[i as int].1);
                    assert(pair_in(pa[i as int], pb));
                }
            },
        }
        i = i + 1;
    }
    true
}

/// Checks that every entry of `a` occurs in `b`: same subscriber, same
/// alerts mapping.
fn entries_sub(a: &Vec<BatchEntry>, b: &Vec<BatchEntry>) -> (r: bool)
    requires
        distinct_keys(entries_pairs(b@)),
    ensures
        r == pairs_sub(entries_pairs(a@), entries_pairs(b@)),
{
    let ghost pa = entries_pairs(a@);
    let ghost pb = entries_pairs(b@);
    let n = a.len();
    let mut i: usize = 0;
    while i < n
        invariant
            i <= n,
            n == a@.len(),
            pa == entries_pairs(a@),
            pb == entries_pairs(b@),
            distinct_keys(pb),
            forall|x: int| 0 <= x < i ==> pair_in(#[trigger] pa[x], pb),
        decreases n - i,
    {
        let x = &a[i];
        match Batch::find_entry(b, x.id) {
            None => {
                proof {
                    assert(!pair_in(pa[i as int], pb)) by {
                        if pair_in(pa[i as int], pb) {
                            let j = choose|j: int|
                                0 <= j < pb.len() && (#[trigger] pb[j]).0 == pa[i as int].0 && pb[
                                j].1 == pa[i as int].1;
                            assert(b@[j].spec_id() == a@[i as int].spec_id());
                            assert(false);
                        }
                    }
                }
                return false;
            },
            Some(j) => {
                if !x.eq(&b[j]) {
                    proof {
                        assert(!pair_in(pa[i as int], pb)) by {
                            if pair_in(pa[i as int], pb) {
                                let j2 = choose|j2: int|
                                    0 <= j2 < pb.len() && (#[trigger] pb[j2]).0 == pa[i as int].0
                                        && pb[j2].1 == pa[i as int].1;
                                assert(pb[j as int].0 == pa[i as int].0);
                                if j2 < j {
                                    assert(pb[j2].0 != pb[j as int].0);
                                } else if j < j2 {
                                    assert(pb[j as int].0 != pb[j2].0);
                                }
                                assert(j2 == j);
                                assert(b@[j as int]@ == a@[i as int]@);
                                assert(false);
                            }
                        }
                    }
                    return false;
                }
                proof {
                    assert(pb[j as int].0 == pa[i as int].0 && pb[j as int].1 == pa[i as int].1);
                    assert(pair_in(pa[i as int], pb));
                }
            },
        }
        i = i + 1;
    }
    true
}

impl PartialEq for BatchEntry {
    /// Entries are equal when they are for the same subscriber and their
    /// alerts denote the same mapping; the order in which products were
    /// first seen does not matter.
    fn eq(&self, other: &BatchEntry) -> (r: bool) {
        proof {
            use_type_invariant(&*self);
            use_type_invariant(&*other);
        }
        if self.id != other.id {
            return false;
        }
        if !alerts_sub(&self.alerts, &other.alerts) {
            proof {
                lemma_kv_maps_ne(self.alert_pairs(), other.alert_pairs());
            }
            return false;
        }
        if !alerts_sub(&other.alerts, &self.alerts) {
            proof {
                lemma_kv_maps_ne(other.alert_pairs(), self.alert_pairs());
            }
            return false;
        }
        proof {
            lemma_kv_maps_eq(self.alert_pairs(), other.alert_pairs());
        }
        true
    }
}

impl vstd::std_specs::cmp::PartialEqSpecImpl for BatchEntry {
    open spec fn obeys_eq_spec() -> bool {
        true
    }

    open spec fn eq_spec(&self, other: &BatchEntry) -> bool {
        self.spec_id() == other.spec_id() && self@ == other@
    }
}

impl PartialEq for Batch {
    /// Digests are equal when they denote the same mapping from subscriber
    /// to alerts; the order in which subscribers were first seen does not
    /// matter.
    fn eq(&self, other: &Batch) -> (r: bool) {
        proof {
            use_type_invariant(&*self);
            use_type_invariant(&*other);
        }
        if !entries_sub(&self.entries, &other.entries) {
            proof {
                lemma_kv_maps_ne(self.entry_pairs(), other.entry_pairs());
            }
            return false;
        }
        if !entries_sub(&other.entries, &self.entries) {
            proof {
                lemma_kv_maps_ne(other.entry_pairs(), self.entry_pairs());
            }
            return false;
        }
        proof {
            lemma_kv_maps_eq(self.entry_pairs(), other.entry_pairs());
        }
        true
    }
}

impl vstd::std_specs::cmp::PartialEqSpecImpl for Batch {
    open spec fn obeys_eq_spec() -> bool {
        true
    }

    open spec fn eq_spec(&self, other: &Batch) -> bool {
        self@ == other@
    }
}

/// Copies an alerts list pairwise; products and timestamp lists keep their
/// values.
fn clone_alerts(alerts: &Vec<(Product, Vec<String>)>) -> (r: Vec<(Product, Vec<String>)>)
    ensures
        r@.len() == alerts@.len(),
        alerts_pairs(r@) == alerts_pairs(alerts@),
{
    let n = alerts.len();
    let mut r: Vec<(Product, Vec<String>)> = Vec::new();
    let mut i: usize = 0;
    while i < n
        invariant
            i <= n,
            n == alerts@.len(),
            r@.len() == i,
            forall|x: int|
                0 <= x < i ==> ((#[trigger] r@[x]).0)@ == (alerts@[x].0)@ && r@[x].1.deep_view()
                    == alerts@[x].1.deep_view(),
        decreases n - i,
    {
        let pr = &alerts[i];
        let ts = pr.1.clone();
        proof {
            assert(ts.deep_view() =~= pr.1.deep_view()) by {
                assert(forall|x: int|
                    0 <= x < ts@.len() ==> #[trigger] ts@[x] == pr.1@[x]);
            }
        }
        r.push((pr.0.clone(), ts));
        i = i + 1;
    }
    proof {
        assert(alerts_pairs(r@) =~= alerts_pairs(alerts@));
    }
    r
}

impl Clone for BatchEntry {
    /// A clone denotes the same subscriber and the same alerts mapping.
    fn clone(&self) -> (r: Self)
        ensures
            r.spec_id() == self.spec_id(),
            r@ == self@,
    {
        proof {
            use_type_invariant(&*self);
        }
        let alerts = clone_alerts(&self.alerts);
        let r = BatchEntry { id: self.id, alerts };
        proof {
            assert(r.alert_pairs() == self.alert_pairs());
        }
        r
    }
}

impl BatchEntry {
    /// The alerts of this entry as a list of products with their ordered
    /// timestamp lists: exactly the pairs of the entry's mapping, each
    /// product once.
    pub fn alerts_vec(&self) -> (r: Vec<(Product, Vec<String>)>)
        ensures
            r@.len() == self@.dom().len(),
            forall|i: int|
                0 <= i < r@.len() ==> self@.dom().contains(((#[trigger] r@[i]).0)@) && self@[(r@[
                i].0)@] == r@[i].1.deep_view(),
            forall|i: int, j: int|
                0 <= i < j < r@.len() ==> ((#[trigger] r@[i]).0)@ != ((#[trigger] r@[j]).0)@,
            forall|p: ProductView|
                #[trigger] self@.dom().contains(p) ==> exists|i: int|
                    0 <= i < r@.len() && ((#[trigger] r@[i]).0)@ == p,
    {
        proof {
            use_type_invariant(&*self);
            lemma_kv_map_len(self.alert_pairs());
            lemma_kv_map_dom(self.alert_pairs());
        }
        let r = clone_alerts(&self.alerts);
        proof {
            assert forall|p: ProductView| #[trigger] self@.dom().contains(p) implies exists|i: int|
                0 <= i < r@.len() && ((#[trigger] r@[i]).0)@ == p by {
                let i = choose|i: int|
                    0 <= i < self.alert_pairs().len() && (#[trigger] self.alert_pairs()[i]).0 == p;
                assert(alerts_pairs(r@)[i] == self.alert_pairs()[i]);
                assert(((r@[i]).0)@ == p);
            }
            assert forall|i: int| 0 <= i < r@.len() implies self@.dom().contains(((
            #[trigger] r@[i]).0)@) && self@[(r@[i].0)@] == r@[i].1.deep_view() by {
                lemma_kv_map_index(self.alert_pairs(), i);
                assert(alerts_pairs(r@)[i] == self.alert_pairs()[i]);
            }
            assert forall|i: int, j: int| 0 <= i < j < r@.len() implies ((#[trigger] r@[i]).0)@
                != ((#[trigger] r@[j]).0)@ by {
                assert(alerts_pairs(r@)[i] == self.alert_pairs()[i]);
                assert(alerts_pairs(r@)[j] == self.alert_pairs()[j]);
            }
        }
        r
    }
}

impl Batch {
    /// The digest's entries, one per subscriber: the read-only traversal
    /// the renderer consumes.
    pub fn entries_vec(&self) -> (r: Vec<BatchEntry>)
        ensures
            r@.len() == self@.dom().len(),
            forall|i: int|
                0 <= i < r@.len() ==> self@.dom().contains((#[trigger] r@[i]).spec_id()) && self@[
                r@[i].spec_id()] == r@[i]@,
            forall|i: int, j: int|
                0 <= i < j < r@.len() ==> (#[trigger] r@[i]).spec_id() != (
                #[trigger] r@[j]).spec_id(),
            forall|k: u32|
                #[trigger] self@.dom().contains(k) ==> exists|i: int|
                    0 <= i < r@.len() && (#[trigger] r@[i]).spec_id() == k,
    {
        proof {
            use_type_invariant(&*self);
            lemma_kv_map_len(self.entry_pairs());
            lemma_kv_map_dom(self.entry_pairs());
        }
        let n = self.entries.len();
        let mut r: Vec<BatchEntry> = Vec::new();
        let mut i: usize = 0;
        while i < n
            invariant
                i <= n,
                n == self.entries@.len(),
                r@.len() == i,
                forall|x: int|
                    0 <= x < i ==> (#[trigger] r@[x]).spec_id() == self.entries@[x].spec_id()
                        && r@[x]@ == self.entries@[x]@,
            decreases n - i,
        {
            let be = self.entries[i].clone();
            r.push(be);
            i = i + 1;
        }
        proof {
            assert forall|i: int| 0 <= i < r@.len() implies self@.dom().contains((
            #[trigger] r@[i]).spec_id()) && self@[r@[i].spec_id()] == r@[i]@ by {
                lemma_kv_map_index(self.entry_pairs(), i);
                assert(self.entry_pairs()[i].0 == r@[i].spec_id());
            }
            assert forall|i: int, j: int| 0 <= i < j < r@.len() implies (
            #[trigger] r@[i]).spec_id() != (#[trigger] r@[j]).spec_id() by {
                assert(self.entry_pairs()[i].0 == self.entries@[i].spec_id());
                assert(self.entry_pairs()[j].0 == self.entries@[j].spec_id());
            }
            assert forall|k: u32| #[trigger] self@.dom().contains(k) implies exists|i: int|
                0 <= i < r@.len() && (#[trigger] r@[i]).spec_id() == k by {
                let i = choose|i: int|
                    0 <= i < self.entry_pairs().len() && (#[trigger] self.entry_pairs()[i]).0 == k;
                assert(self.entry_pairs()[i].0 == self.entries@[i].spec_id());
                assert(r@[i].spec_id() == k);
            }
        }
        r
    }

    /// Folds every email of the brain through the extractor into a fresh
    /// digest. A message that fails extraction is skipped; the run
    /// continues, so this cannot fail.
    pub fn from_brain(brain: &Brain) -> (r: Result<Batch, ExtractError>)
        ensures
            r matches Ok(b) && b@ == batch_of_emails(brain.emails@),
    {
        let mut ret = Batch::new();
        let n = brain.emails.len();
        let mut i: usize = 0;
        while i < n
            invariant
                i <= n,
                n == brain.emails@.len(),
                ret@ == batch_of_emails(brain.emails@.subrange(0, i as int)),
            decreases n - i,
        {
            match Entry::from_email(&brain.emails[i]) {
                Ok(en) => {
                    let _ = ret.add_entry(en);
                },
                Err(_) => {},
            }
            i = i + 1;
            proof {
                let pre = brain.emails@.subrange(0, i as int);
                assert(pre.drop_last() =~= brain.emails@.subrange(0, i - 1));
                assert(pre.last() == brain.emails@[i - 1]);
            }
        }
        proof {
            assert(brain.emails@.subrange(0, n as int) =~= brain.emails@);
        }
        Ok(ret)
    }
}

/// The digest that a sequence of raw messages denotes: each message that
/// extracts is ingested in order, the rest are skipped.
pub open spec fn batch_of_emails(emails: Seq<Email>) -> BatchView
    decreases emails.len(),
{
    if emails.len() == 0 {
        Map::empty()
    } else {
        let m = batch_of_emails(emails.drop_last());
        match extract_spec(emails.last().contents@) {
            Ok(en) => ingest_spec(m, en.id, en.product, en.time),
            Err(_) => m,
        }
    }
}

/// The text of a fixture message: a stock `Date:` header line, a blank
/// line, and the given body.
pub open spec fn test_email_text(body: Seq<char>) -> Seq<char> {
    "Date: Sat, 21 Jul 2018 16:39:04 -0400\r\n\r\n"@ + body
}

/// The digest denoted by ingesting one fixture message with the given body.
pub open spec fn test_batch_spec(body: Seq<char>) -> BatchView {
    match extract_spec(test_email_text(body)) {
        Ok(en) => ingest_spec(Map::empty(), en.id, en.product, en.time),
        Err(_) => Map::empty(),
    }
}

/// Files an extracted record only when its subscriber is not yet present.
pub open spec fn or_insert_spec(m: BatchView, en: EntryView) -> BatchView {
    if m.dom().contains(en.id) {
        m
    } else {
        m.insert(en.id, single_alerts(en.product, en.time))
    }
}

/// The digest denoted by filing the stock fixture message and then a second
/// fixture message with the given body, each only if its subscriber is new.
pub open spec fn test_two_spec(body2: Seq<char>) -> BatchView {
    let m1 = match extract_spec(
        test_email_text(
            "The Cool Invoice For iMIS ID 12345 For the Product COOL_PROD Has Changed\r\nYou need to verify the Autodraft is now correct"@,
        ),
    ) {
        Ok(en) => or_insert_spec(Map::empty(), en),
        Err(_) => Map::empty(),
    };
    match extract_spec(test_email_text(body2)) {
        Ok(en) => or_insert_spec(m1, en),
        Err(_) => m1,
    }
}

impl Batch {
    /// A digest holding the stock fixture message, for comparing against in
    /// tests.
    pub fn test() -> (r: Batch)
        ensures
            r@ == test_batch_spec(
                "The Cool Invoice For iMIS ID 12345 For the Product COOL_PROD Has Changed\r\nYou need to verify the Autodraft is now correct"@,
            ),
    {
        let mut b = Batch::new();
        let mut contents = String::from_str("Date: Sat, 21 Jul 2018 16:39:04 -0400\r\n\r\n");
        contents.append(
            "The Cool Invoice For iMIS ID 12345 For the Product COOL_PROD Has Changed\r\nYou need to verify the Autodraft is now correct",
        );
        let em = Email {
            filename: String::from_str("Saturday, July 21, 2018 4:39 PM.html"),
            contents,
        };
        match Entry::from_email(&em) {
            Ok(en) => {
                let _ = b.add_entry(en);
            },
            Err(_) => {},
        }
        b
    }

    /// A digest holding the stock fixture message and a second message with
    /// the given body, each filed only under a subscriber id not yet
    /// present, for comparing against in tests.
    pub fn test_second_email_str(s: &str) -> (r: Batch)
        ensures
            r@ == test_two_spec(s@),
    {
        let mut b = Batch::new();
        let mut c1 = String::from_str("Date: Sat, 21 Jul 2018 16:39:04 -0400\r\n\r\n");
        c1.append(
            "The Cool Invoice For iMIS ID 12345 For the Product COOL_PROD Has Changed\r\nYou need to verify the Autodraft is now correct",
        );
        let em1 = Email {
            filename: String::from_str("Saturday, July 21, 2018 4:39 PM.html"),
            contents: c1,
        };
        match Entry::from_email(&em1) {
            Ok(en) => {
                match b.classify(&en) {
                    EntryClass::New => {
                        let _ = b.add_entry(en);
                    },
                    _ => {},
                }
            },
            Err(_) => {},
        }
        let mut c2 = String::from_str("Date: Sat, 21 Jul 2018 16:39:04 -0400\r\n\r\n");
        c2.append(s);
        let em2 = Email {
            filename: String::from_str("Saturday, July 21, 2018 4:39 PM.html"),
            contents: c2,
        };
        match Entry::from_email(&em2) {
            Ok(en) => {
                match b.classify(&en) {
                    EntryClass::New => {
                        let _ = b.add_entry(en);
                    },
                    _ => {},
                }
            },
            Err(_) => {},
        }
        b
    }
}

/// Ingesting one record into an empty digest yields exactly one entry,
/// with exactly one product key holding a one-element timestamp list.
pub proof fn lemma_first_record(r: Entry)
    ensures
        ({
            let m = ingest_spec(Map::empty(), r.id, r.product@, r.time@);
            &&& m.dom() =~= set![r.id]
            &&& m[r.id].dom() =~= set![r.product@]
            &&& m[r.id][r.product@] =~= seq![r.time@]
        }),
{
}

/// Ingesting two records with distinct subscriber ids yields two distinct
/// entries, each holding only its own record's product and timestamp.
pub proof fn lemma_distinct_subscribers(r1: Entry, r2: Entry)
    requires
        r1.id != r2.id,
    ensures
        ({
            let m = ingest_spec(
                ingest_spec(Map::empty(), r1.id, r1.product@, r1.time@),
                r2.id,
                r2.product@,
                r2.time@,
            );
            &&& m.dom() =~= set![r1.id, r2.id]
            &&& m[r1.id] =~= single_alerts(r1.product@, r1.time@)
            &&& m[r2.id] =~= single_alerts(r2.product@, r2.time@)
        }),
{
}

/// Ingesting two records sharing the subscriber but not the product yields
/// one entry with two product keys, each holding a one-element list.
pub proof fn lemma_new_product_key(r1: Entry, r2: Entry)
    requires
        r1.id == r2.id,
        r1.product@ != r2.product@,
    ensures
        ({
            let m = ingest_spec(
                ingest_spec(Map::empty(), r1.id, r1.product@, r1.time@),
                r2.id,
                r2.product@,
                r2.time@,
            );
            &&& m.dom() =~= set![r1.id]
            &&& m[r1.id].dom() =~= set![r1.product@, r2.product@]
            &&& m[r1.id][r1.product@] =~= seq![r1.time@]
            &&& m[r1.id][r2.product@] =~= seq![r2.time@]
        }),
{
}

/// Ingesting two records sharing subscriber and product yields one entry
/// with one product key holding both timestamps, in arrival order.
pub proof fn lemma_duplicate_record(r1: Entry, r2: Entry)
    requires
        r1.id == r2.id,
        r1.product@ == r2.product@,
    ensures
        ({
            let m = ingest_spec(
                ingest_spec(Map::empty(), r1.id, r1.product@, r1.time@),
                r2.id,
                r2.product@,
                r2.time@,
            );
            &&& m.dom() =~= set![r1.id]
            &&& m[r1.id].dom() =~= set![r1.product@]
            &&& m[r1.id][r1.product@] =~= seq![r1.time@, r2.time@]
        }),
{
}

} // verus!
