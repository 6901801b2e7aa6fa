//! In-memory traffic recorder: a bounded ring of recent requests, counters per
//! status, per vhost and per path, and a bounded history of counter samples
//! from which the dashboard draws its rate charts.

use vstd::prelude::*;
use crate::assoc::{
    assoc, keys_unique, bump, sat_inc, count_or_zero, bump_u16, get_u16, clone_u16_list,
    lemma_assoc_dom, lemma_assoc_index, lemma_assoc_update, lemma_assoc_push,
    lemma_assoc_finite_len,
};
use crate::text::{str_eq, to_owned_str};
use crate::clock;

verus! {

/// Ring capacity used when none (zero) is given.
pub const DEFAULT_RING_CAPACITY: usize = 10_000;
/// Past this many distinct paths, a vhost's further paths fold into
/// [`OTHER_PATH_BUCKET`].
pub const MAX_PATHS_PER_VHOST: usize = 256;
/// The bucket that collects a vhost's paths past [`MAX_PATHS_PER_VHOST`].
pub const OTHER_PATH_BUCKET: &'static str = "_other";
/// History length: one hour at the default sampling interval.
pub const DEFAULT_HISTORY_CAPACITY: usize = 720;
/// Seconds between history samples.
pub const DEFAULT_SAMPLE_INTERVAL_SECS: u64 = 5;

/// A single request as it leaves the handler pipeline.
#[derive(Debug)]
pub struct RequestRecord {
    pub when_ns: u64,
    pub vhost: String,
    pub method: String,
    pub path: String,
    pub status: u16,
    pub peer: String,
    pub bytes: Option<u64>,
    pub duration_us: u64,
}

pub struct RecordView {
    pub when_ns: u64,
    pub vhost: Seq<char>,
    pub method: Seq<char>,
    pub path: Seq<char>,
    pub status: u16,
    pub peer: Seq<char>,
    pub bytes: Option<u64>,
    pub duration_us: u64,
}

impl View for RequestRecord {
    type V = RecordView;

    open spec fn view(&self) -> RecordView {
        RecordView {
            when_ns: self.when_ns,
            vhost: self.vhost@,
            method: self.method@,
            path: self.path@,
            status: self.status,
            peer: self.peer@,
            bytes: self.bytes,
            duration_us: self.duration_us,
        }
    }
}

impl RequestRecord {
    /// A copy of this record.
    pub fn duplicate(&self) -> (r: RequestRecord)
        ensures
            r@ == self@,
    {
        RequestRecord {
            when_ns: self.when_ns,
            vhost: self.vhost.clone(),
            method: self.method.clone(),
            path: self.path.clone(),
            status: self.status,
            peer: self.peer.clone(),
            bytes: self.bytes,
            duration_us: self.duration_us,
        }
    }
}

/// Per-vhost counters since the recorder was created. Counts never decrease.
#[derive(Debug)]
pub struct VhostCounters {
    pub total: u64,
    pub by_status: Vec<(u16, u64)>,
    pub by_path: Vec<(String, u64)>,
}

pub struct VhostView {
    pub total: u64,
    pub by_status: Map<u16, u64>,
    pub by_path: Map<Seq<char>, u64>,
}

/// The string-keyed list read with its keys as character sequences.
pub open spec fn str_list_view(v: Seq<(String, u64)>) -> Seq<(Seq<char>, u64)> {
    Seq::new(v.len(), |i: int| (v[i].0@, v[i].1))
}

impl VhostCounters {
    pub open spec fn wf(&self) -> bool {
        keys_unique(self.by_status@) && keys_unique(str_list_view(self.by_path@))
    }

    pub open spec fn spec_view(&self) -> VhostView {
        VhostView {
            total: self.total,
            by_status: assoc(self.by_status@),
            by_path: assoc(str_list_view(self.by_path@)),
        }
    }

    /// The count held for `status`, if any.
    pub fn status_count(&self, status: u16) -> (r: Option<u64>)
        requires
            self.wf(),
        ensures
            r == (if self.spec_view().by_status.contains_key(status) {
                Some(self.spec_view().by_status[status])
            } else {
                None::<u64>
            }),
    {
        get_u16(&self.by_status, status)
    }

    /// The count held for `path` (or for the overflow bucket), if any.
    pub fn path_count(&self, path: &str) -> (r: Option<u64>)
        requires
            self.wf(),
        ensures
            r == (if self.spec_view().by_path.contains_key(path@) {
                Some(self.spec_view().by_path[path@])
            } else {
                None::<u64>
            }),
    {
        proof {
            lemma_assoc_dom(str_list_view(self.by_path@), path@);
        }
        match find_str(&self.by_path, path) {
            Some(i) => {
                proof {
                    lemma_assoc_index(str_list_view(self.by_path@), i as int);
                }
                Some(self.by_path[i].1)
            },
            None => None,
        }
    }

    /// How many distinct path buckets are held.
    pub fn path_buckets(&self) -> (r: usize)
        requires
            self.wf(),
        ensures
            r == self.spec_view().by_path.dom().len(),
    {
        proof {
            lemma_assoc_finite_len(str_list_view(self.by_path@));
        }
        self.by_path.len()
    }

    /// A copy of these counters.
    pub fn duplicate(&self) -> (r: VhostCounters)
        ensures
            r.by_status@ == self.by_status@,
            str_list_view(r.by_path@) == str_list_view(self.by_path@),
            r.total == self.total,
    {
        VhostCounters {
            total: self.total,
            by_status: clone_u16_list(&self.by_status),
            by_path: clone_str_list(&self.by_path),
        }
    }
}

fn new_vhost_counters() -> (r: VhostCounters)
    ensures
        r.wf(),
        r.spec_view() == empty_vhost(),
{
    let r = VhostCounters { total: 0, by_status: Vec::new(), by_path: Vec::new() };
    assert(str_list_view(r.by_path@) =~= Seq::<(Seq<char>, u64)>::empty());
    assert(assoc(r.by_status@) =~= Map::<u16, u64>::empty());
    assert(assoc(str_list_view(r.by_path@)) =~= Map::<Seq<char>, u64>::empty());
    r
}

/// The position of `k` in a string-keyed list, if present.
pub fn find_str<T>(v: &Vec<(String, T)>, k: &str) -> (r: Option<usize>)
    ensures
        match r {
            Some(i) => i < v@.len() && v@[i as int].0@ == k@,
            None => forall|i: int| 0 <= i < v@.len() ==> v@[i].0@ != k@,
        },
{
    let mut i: usize = 0;
    while i < v.len()
        invariant
            i <= v.len(),
            forall|j: int| 0 <= j < i ==> v@[j].0@ != k@,
        decreases v.len() - i,
    {
        if str_eq(v[i].0.as_str(), k) {
            return Some(i);
        }
        i += 1;
    }
    None
}

fn clone_str_list(v: &Vec<(String, u64)>) -> (r: Vec<(String, u64)>)
    ensures
        str_list_view(r@) == str_list_view(v@),
{
    let mut out: Vec<(String, u64)> = Vec::new();
    let mut i: usize = 0;
    while i < v.len()
        invariant
            i <= v.len(),
            out@.len() == i,
            forall|j: int| 0 <= j < i ==> out@[j].0@ == v@[j].0@ && out@[j].1 == v@[j].1,
        decreases v.len() - i,
    {
        out.push((v[i].0.clone(), v[i].1));
        i += 1;
    }
    assert(str_list_view(out@) =~= str_list_view(v@));
    out
}

/// Raises the count of `k` by one, saturating, adding it at one when absent.
fn bump_str(v: &mut Vec<(String, u64)>, k: &str)
    requires
        keys_unique(str_list_view(old(v)@)),
    ensures
        keys_unique(str_list_view(final(v)@)),
        assoc(str_list_view(final(v)@)) == bump(assoc(str_list_view(old(v)@)), k@),
{
    let ghost s = str_list_view(v@);
    match find_str(v, k) {
        Some(i) => {
            let c = v[i].1;
            let key = v[i].0.clone();
            proof {
                lemma_assoc_index(s, i as int);
                lemma_assoc_update(s, i as int, c.saturating_add(1));
            }
            v.set(i, (key, c.saturating_add(1)));
            assert(str_list_view(v@) =~= s.update(i as int, (s[i as int].0, c.saturating_add(1))));
        },
        None => {
            proof {
                lemma_assoc_dom(s, k@);
                lemma_assoc_push(s, k@, 1u64);
            }
            v.push((to_owned_str(k), 1));
            assert(str_list_view(v@) =~= s.push((k@, 1u64)));
        },
    }
}

/// Counters aggregated over every vhost.
#[derive(Debug)]
pub struct CountersSnapshot {
    pub total: u64,
    pub by_status: Vec<(u16, u64)>,
    pub by_vhost: Vec<(String, VhostCounters)>,
}

pub struct CountersView {
    pub total: u64,
    pub by_status: Map<u16, u64>,
    pub by_vhost: Map<Seq<char>, VhostView>,
}

/// The vhost list read as keys and counter values.
pub open spec fn vhost_list_view(v: Seq<(String, VhostCounters)>) -> Seq<(Seq<char>, VhostView)> {
    Seq::new(v.len(), |i: int| (v[i].0@, v[i].1.spec_view()))
}

impl CountersSnapshot {
    pub open spec fn wf(&self) -> bool {
        &&& keys_unique(self.by_status@)
        &&& keys_unique(vhost_list_view(self.by_vhost@))
        &&& forall|i: int| 0 <= i < self.by_vhost@.len() ==> (#[trigger] self.by_vhost@[i]).1.wf()
    }

    pub open spec fn spec_view(&self) -> CountersView {
        CountersView {
            total: self.total,
            by_status: assoc(self.by_status@),
            by_vhost: assoc(vhost_list_view(self.by_vhost@)),
        }
    }

    /// The count held for `status` over every vhost, if any.
    pub fn status_count(&self, status: u16) -> (r: Option<u64>)
        requires
            self.wf(),
        ensures
            r == (if self.spec_view().by_status.contains_key(status) {
                Some(self.spec_view().by_status[status])
            } else {
                None::<u64>
            }),
    {
        get_u16(&self.by_status, status)
    }

    /// The counters of `vhost`, if any request for it was recorded.
    pub fn vhost(&self, vhost: &str) -> (r: Option<&VhostCounters>)
        requires
            self.wf(),
        ensures
            match r {
                Some(c) => self.spec_view().by_vhost.contains_key(vhost@) && c.wf()
                    && c.spec_view() == self.spec_view().by_vhost[vhost@],
                None => !self.spec_view().by_vhost.contains_key(vhost@),
            },
    {
        proof {
            lemma_assoc_dom(vhost_list_view(self.by_vhost@), vhost@);
        }
        match find_str(&self.by_vhost, vhost) {
            Some(i) => {
                proof {
                    lemma_assoc_index(vhost_list_view(self.by_vhost@), i as int);
                }
                Some(&self.by_vhost[i].1)
            },
            None => None,
        }
    }
}

/// One point of the history: the cumulative totals at a unix second.
#[derive(Debug)]
pub struct TrafficSample {
    pub when_secs: u64,
    pub total: u64,
    pub by_status: Vec<(u16, u64)>,
}

impl TrafficSample {
    /// A copy of this sample.
    pub fn duplicate(&self) -> (r: TrafficSample)
        ensures
            r.when_secs == self.when_secs,
            r.total == self.total,
            r.by_status@ == self.by_status@,
    {
        TrafficSample {
            when_secs: self.when_secs,
            total: self.total,
            by_status: clone_u16_list(&self.by_status),
        }
    }
}

// ---------------------------------------------------------------------------
// The model of one recorded request
// ---------------------------------------------------------------------------

/// Counters of a vhost nothing was recorded for yet.
pub open spec fn empty_vhost() -> VhostView {
    VhostView { total: 0, by_status: Map::empty(), by_path: Map::empty() }
}

/// The path bucket a request is counted under: its own path while the vhost
/// holds fewer than [`MAX_PATHS_PER_VHOST`] paths or already holds this one,
/// otherwise [`OTHER_PATH_BUCKET`].
pub open spec fn path_bucket(paths: Map<Seq<char>, u64>, path: Seq<char>) -> Seq<char> {
    if paths.contains_key(path) || paths.dom().len() < MAX_PATHS_PER_VHOST {
        path
    } else {
        OTHER_PATH_BUCKET@
    }
}

/// A vhost's counters after one more request.
pub open spec fn vhost_after(vh: VhostView, rec: RecordView) -> VhostView {
    VhostView {
        total: sat_inc(vh.total),
        by_status: bump(vh.by_status, rec.status),
        by_path: bump(vh.by_path, path_bucket(vh.by_path, rec.path)),
    }
}

/// The counters after one more request.
pub open spec fn counters_after(c: CountersView, rec: RecordView) -> CountersView {
    let vh = if c.by_vhost.contains_key(rec.vhost) {
        c.by_vhost[rec.vhost]
    } else {
        empty_vhost()
    };
    CountersView {
        total: sat_inc(c.total),
        by_status: bump(c.by_status, rec.status),
        by_vhost: c.by_vhost.insert(rec.vhost, vhost_after(vh, rec)),
    }
}

/// The ring after one more request: the oldest falls out when it is full.
pub open spec fn ring_after(ring: Seq<RecordView>, cap: nat, rec: RecordView) -> Seq<RecordView> {
    if ring.len() >= cap {
        ring.drop_first().push(rec)
    } else {
        ring.push(rec)
    }
}

fn vhost_record(vh: &mut VhostCounters, rec: &RequestRecord)
    requires
        old(vh).wf(),
    ensures
        final(vh).wf(),
        final(vh).spec_view() == vhost_after(old(vh).spec_view(), rec@),
{
    proof {
        lemma_assoc_finite_len(str_list_view(vh.by_path@));
        lemma_assoc_dom(str_list_view(vh.by_path@), rec@.path);
    }
    let ghost ov = vh.spec_view();
    vh.total = vh.total.saturating_add(1);
    bump_u16(&mut vh.by_status, rec.status);
    let found = find_str(&vh.by_path, rec.path.as_str());
    let known = found.is_some();
    proof {
        let sl = str_list_view(vh.by_path@);
        match found {
            Some(i) => {
                assert(sl[i as int].0 == rec@.path);
            },
            None => {
                assert forall|i: int| 0 <= i < sl.len() implies sl[i].0 != rec@.path by {
                    assert(sl[i].0 == vh.by_path@[i].0@);
                }
            },
        }
    }
    assert(known == ov.by_path.contains_key(rec@.path));
    assert(vh.by_path@.len() == ov.by_path.dom().len());
    if known || vh.by_path.len() < MAX_PATHS_PER_VHOST {
        bump_str(&mut vh.by_path, rec.path.as_str());
        assert(path_bucket(ov.by_path, rec@.path) == rec@.path);
    } else {
        bump_str(&mut vh.by_path, OTHER_PATH_BUCKET);
        assert(path_bucket(ov.by_path, rec@.path) == OTHER_PATH_BUCKET@);
    }
    assert(vh.spec_view().by_path == vhost_after(ov, rec@).by_path);
    assert(vh.spec_view().by_status == vhost_after(ov, rec@).by_status);
}

// ---------------------------------------------------------------------------
// The recorder
// ---------------------------------------------------------------------------

/// Bounded ring of recent requests plus counters and a bounded history of
/// counter samples.
#[derive(Debug)]
pub struct TrafficRecorder {
    capacity: usize,
    ring: std::collections::VecDeque<RequestRecord>,
    counters: CountersSnapshot,
    history: std::collections::VecDeque<TrafficSample>,
    history_capacity: usize,
}

/// The ring's records, oldest first.
pub open spec fn records_view(s: Seq<RequestRecord>) -> Seq<RecordView> {
    Seq::new(s.len(), |i: int| s[i]@)
}

impl TrafficRecorder {
    /// The recorder's invariant: both rings within capacity, capacities
    /// non-zero, counter lists with distinct keys.
    pub closed spec fn wf(&self) -> bool {
        &&& self.capacity > 0
        &&& self.history_capacity > 0
        &&& self.ring@.len() <= self.capacity
        &&& self.history@.len() <= self.history_capacity
        &&& self.counters.wf()
    }

    /// The recorded requests, oldest first.
    pub closed spec fn ring_view(&self) -> Seq<RecordView> {
        records_view(self.ring@)
    }

    /// The counters.
    pub closed spec fn counters_view(&self) -> CountersView {
        self.counters.spec_view()
    }

    /// The ring capacity.
    pub closed spec fn capacity_view(&self) -> nat {
        self.capacity as nat
    }

    /// The history capacity.
    pub closed spec fn history_capacity_view(&self) -> nat {
        self.history_capacity as nat
    }

    /// The history samples, oldest first, as (time, total) pairs with their
    /// per-status counts.
    pub closed spec fn history_view(&self) -> Seq<(u64, u64, Map<u16, u64>)> {
        Seq::new(
            self.history@.len(),
            |i: int|
                (self.history@[i].when_secs, self.history@[i].total, assoc(self.history@[i].by_status@)),
        )
    }

    /// The history after a sample of the current totals taken at
    /// `when_secs`: the oldest sample leaves when the history is full.
    pub open spec fn history_after_sample(&self, when_secs: u64) -> Seq<(u64, u64, Map<u16, u64>)> {
        (if self.history_view().len() >= self.history_capacity_view() {
            self.history_view().drop_first()
        } else {
            self.history_view()
        }).push((when_secs, self.counters_view().total, self.counters_view().by_status))
    }

    /// A recorder never holds more requests than its capacity, nor more
    /// samples than its history capacity, and both capacities are positive.
    pub proof fn lemma_within_capacity(&self)
        requires
            self.inv(),
        ensures
            0 < self.capacity_view(),
            0 < self.history_capacity_view(),
            self.ring_view().len() <= self.capacity_view(),
            self.history_view().len() <= self.history_capacity_view(),
    {
    }

    pub closed spec fn inv(&self) -> bool {
        self.wf() && forall|i: int|
            0 <= i < self.history@.len() ==> keys_unique((#[trigger] self.history@[i]).by_status@)
    }

    /// A recorder holding at most `capacity` records; zero means
    /// [`DEFAULT_RING_CAPACITY`].
    pub fn new(capacity: usize) -> (r: TrafficRecorder)
        ensures
            r.inv(),
            r.capacity_view() == (if capacity == 0 {
                DEFAULT_RING_CAPACITY as nat
            } else {
                capacity as nat
            }),
            r.history_capacity_view() == DEFAULT_HISTORY_CAPACITY,
            r.ring_view() == Seq::<RecordView>::empty(),
            r.history_view() == Seq::<(u64, u64, Map<u16, u64>)>::empty(),
            r.counters_view().total == 0,
            r.counters_view().by_status == Map::<u16, u64>::empty(),
            r.counters_view().by_vhost == Map::<Seq<char>, VhostView>::empty(),
    {
        let cap = if capacity == 0 {
            DEFAULT_RING_CAPACITY
        } else {
            capacity
        };
        let r = TrafficRecorder {
            capacity: cap,
            ring: std::collections::VecDeque::new(),
            counters: CountersSnapshot { total: 0, by_status: Vec::new(), by_vhost: Vec::new() },
            history: std::collections::VecDeque::new(),
            history_capacity: DEFAULT_HISTORY_CAPACITY,
        };
        assert(records_view(r.ring@) =~= Seq::<RecordView>::empty());
        assert(r.history_view() =~= Seq::<(u64, u64, Map<u16, u64>)>::empty());
        assert(assoc(r.counters.by_status@) =~= Map::<u16, u64>::empty());
        assert(vhost_list_view(r.counters.by_vhost@) =~= Seq::<(Seq<char>, VhostView)>::empty());
        assert(assoc(vhost_list_view(r.counters.by_vhost@)) =~= Map::<
            Seq<char>,
            VhostView,
        >::empty());
        r
    }

    /// The ring capacity.
    pub fn capacity(&self) -> (r: usize)
        ensures
            r == self.capacity_view(),
    {
        self.capacity
    }

    /// The history capacity.
    pub fn history_capacity(&self) -> (r: usize)
        ensures
            r == self.history_capacity_view(),
    {
        self.history_capacity
    }

    /// Requests recorded since creation, saturating.
    pub fn total(&self) -> (r: u64)
        ensures
            r == self.counters_view().total,
    {
        self.counters.total
    }

    /// Records one request: the counters gain it and the ring appends it,
    /// dropping the oldest record when full.
    pub fn record(&mut self, rec: RequestRecord)
        requires
            old(self).inv(),
        ensures
            final(self).inv(),
            final(self).capacity_view() == old(self).capacity_view(),
            final(self).history_capacity_view() == old(self).history_capacity_view(),
            final(self).history_view() == old(self).history_view(),
            final(self).counters_view() == counters_after(old(self).counters_view(), rec@),
            final(self).ring_view() == ring_after(
                old(self).ring_view(),
                old(self).capacity_view(),
                rec@,
            ),
    {
        let ghost old_ring = records_view(self.ring@);
        self.counters.total = self.counters.total.saturating_add(1);
        bump_u16(&mut self.counters.by_status, rec.status);
        let ghost vs = vhost_list_view(self.counters.by_vhost@);
        proof {
            lemma_assoc_dom(vs, rec@.vhost);
        }
        match find_str(&self.counters.by_vhost, rec.vhost.as_str()) {
            Some(i) => {
                proof {
                    lemma_assoc_index(vs, i as int);
                }
                let mut entry = self.counters.by_vhost[i].1.duplicate();
                let key = self.counters.by_vhost[i].0.clone();
                assert(entry.spec_view() == vs[i as int].1);
                assert(self.counters.by_vhost@[i as int].1.wf());
                vhost_record(&mut entry, &rec);
                proof {
                    lemma_assoc_update(vs, i as int, entry.spec_view());
                }
                self.counters.by_vhost.set(i, (key, entry));
                assert(vhost_list_view(self.counters.by_vhost@) =~= vs.update(
                    i as int,
                    (vs[i as int].0, entry.spec_view()),
                ));
            },
            None => {
                let mut entry = new_vhost_counters();
                vhost_record(&mut entry, &rec);
                proof {
                    lemma_assoc_push(vs, rec@.vhost, entry.spec_view());
                }
                self.counters.by_vhost.push((rec.vhost.clone(), entry));
                assert(vhost_list_view(self.counters.by_vhost@) =~= vs.push(
                    (rec@.vhost, entry.spec_view()),
                ));
            },
        }
        assert forall|i: int| 0 <= i < self.counters.by_vhost@.len() implies (
        #[trigger] self.counters.by_vhost@[i]).1.wf() by {}
        if self.ring.len() >= self.capacity {
            self.ring.pop_front();
        }
        let ghost rv = rec@;
        self.ring.push_back(rec);
        proof {
            assert(records_view(self.ring@) =~= ring_after(old_ring, self.capacity as nat, rv));
        }
    }

    /// Up to `limit` most recent records, newest first; a `limit` of zero
    /// returns every record in the ring.
    pub fn recent(&self, limit: usize) -> (r: Vec<RequestRecord>)
        requires
            self.inv(),
        ensures
            records_view(r@) == recent_spec(self.ring_view(), limit as nat),
            r@.len() <= self.capacity_view(),
    {
        let n = self.ring.len();
        let take = if limit == 0 || limit > n {
            n
        } else {
            limit
        };
        let ghost rv = records_view(self.ring@);
        let mut out: Vec<RequestRecord> = Vec::new();
        let mut i: usize = 0;
        while i < take
            invariant
                take <= n,
                n == self.ring@.len(),
                rv == records_view(self.ring@),
                i <= take,
                records_view(out@) =~= Seq::new(i as nat, |j: int| rv[n - 1 - j]),
            decreases take - i,
        {
            let rec = self.ring[n - 1 - i].duplicate();
            assert(rec@ == rv[n - 1 - i]);
            let ghost before = out@;
            out.push(rec);
            assert(out@ == before.push(rec));
            assert(records_view(out@) =~= records_view(before).push(rv[n - 1 - i]));
            assert(records_view(out@) =~= Seq::new((i + 1) as nat, |j: int| rv[n - 1 - j]));
            i += 1;
        }
        out
    }

    /// A copy of the counters.
    pub fn counters_snapshot(&self) -> (r: CountersSnapshot)
        requires
            self.inv(),
        ensures
            r.wf(),
            r.spec_view() == self.counters_view(),
    {
        let mut by_vhost: Vec<(String, VhostCounters)> = Vec::new();
        let src = &self.counters.by_vhost;
        let mut i: usize = 0;
        while i < src.len()
            invariant
                i <= src.len(),
                self.inv(),
                src == &self.counters.by_vhost,
                vhost_list_view(by_vhost@) == vhost_list_view(src@).take(i as int),
                forall|j: int| 0 <= j < by_vhost@.len() ==> (#[trigger] by_vhost@[j]).1.wf(),
            decreases src.len() - i,
        {
            let entry = src[i].1.duplicate();
            assert(src@[i as int].1.wf());
            assert(entry.spec_view() == src@[i as int].1.spec_view());
            let key = src[i].0.clone();
            let ghost before = by_vhost@;
            by_vhost.push((key, entry));
            assert(by_vhost@ == before.push((key, entry)));
            assert(vhost_list_view(by_vhost@) =~= vhost_list_view(before).push(
                vhost_list_view(src@)[i as int],
            ));
            assert(vhost_list_view(src@).take(i + 1) =~= vhost_list_view(src@).take(i as int).push(
                vhost_list_view(src@)[i as int],
            ));
            assert(vhost_list_view(by_vhost@) =~= vhost_list_view(src@).take(i + 1));
            i += 1;
        }
        assert(vhost_list_view(src@).take(src.len() as int) =~= vhost_list_view(src@));
        let r = CountersSnapshot {
            total: self.counters.total,
            by_status: clone_u16_list(&self.counters.by_status),
            by_vhost,
        };
        r
    }

    /// Appends a sample of the current totals taken at `when_secs`, trimming
    /// the oldest sample when the history is full.
    pub fn sample_at(&mut self, when_secs: u64)
        requires
            old(self).inv(),
        ensures
            final(self).inv(),
            final(self).capacity_view() == old(self).capacity_view(),
            final(self).history_capacity_view() == old(self).history_capacity_view(),
            final(self).ring_view() == old(self).ring_view(),
            final(self).counters_view() == old(self).counters_view(),
            final(self).history_view() == (if old(self).history_view().len()
                >= old(self).history_capacity_view() {
                old(self).history_view().drop_first()
            } else {
                old(self).history_view()
            }).push(
                (
                    when_secs,
                    old(self).counters_view().total,
                    old(self).counters_view().by_status,
                ),
            ),
    {
        let ghost hv = self.history_view();
        let sample = TrafficSample {
            when_secs,
            total: self.counters.total,
            by_status: clone_u16_list(&self.counters.by_status),
        };
        if self.history.len() >= self.history_capacity {
            self.history.pop_front();
        }
        self.history.push_back(sample);
        proof {
            let expect = (if hv.len() >= self.history_capacity as nat {
                hv.drop_first()
            } else {
                hv
            }).push((when_secs, self.counters.total, assoc(self.counters.by_status@)));
            assert(self.history_view() =~= expect);
        }
    }

    /// Appends a sample of the current totals taken now.
    pub fn sample_now(&mut self)
        requires
            old(self).inv(),
        ensures
            final(self).inv(),
            final(self).capacity_view() == old(self).capacity_view(),
            final(self).history_capacity_view() == old(self).history_capacity_view(),
            final(self).ring_view() == old(self).ring_view(),
            final(self).counters_view() == old(self).counters_view(),
            exists|t: u64| final(self).history_view() == #[trigger] old(self).history_after_sample(t),
    {
        let now = clock::now_secs();
        let ghost before = *self;
        self.sample_at(now);
        assert(self.history_view() == before.history_after_sample(now));
    }

    /// The history, oldest first.
    pub fn history_snapshot(&self) -> (r: Vec<TrafficSample>)
        requires
            self.inv(),
        ensures
            Seq::new(
                r@.len(),
                |i: int| (r@[i].when_secs, r@[i].total, assoc(r@[i].by_status@)),
            ) == self.history_view(),
            forall|m: int| 0 <= m < r@.len() ==> keys_unique((#[trigger] r@[m]).by_status@),
    {
        let mut out: Vec<TrafficSample> = Vec::new();
        let mut i: usize = 0;
        while i < self.history.len()
            invariant
                i <= self.history@.len(),
                out@.len() == i,
                forall|j: int|
                    0 <= j < i ==> (#[trigger] out@[j]).when_secs == self.history@[j].when_secs
                        && out@[j].total == self.history@[j].total && out@[j].by_status@
                        == self.history@[j].by_status@,
            decreases self.history@.len() - i,
        {
            out.push(self.history[i].duplicate());
            i += 1;
        }
        assert(Seq::new(
            out@.len(),
            |i: int| (out@[i].when_secs, out@[i].total, assoc(out@[i].by_status@)),
        ) =~= self.history_view());
        out
    }
}

/// The `limit` newest records, newest first (all of them when `limit` is zero
/// or larger than the ring).
pub open spec fn recent_spec(ring: Seq<RecordView>, limit: nat) -> Seq<RecordView> {
    let n = ring.len();
    let take = if limit == 0 || limit > n {
        n
    } else {
        limit
    };
    Seq::new(take, |j: int| ring[n - 1 - j])
}

/// The ring never holds more records than its capacity, however many are
/// recorded.
pub proof fn lemma_ring_bounded(ring: Seq<RecordView>, cap: nat, rec: RecordView)
    requires
        cap > 0,
        ring.len() <= cap,
    ensures
        ring_after(ring, cap, rec).len() <= cap,
        ring_after(ring, cap, rec).last() == rec,
        ring.len() == cap ==> ring_after(ring, cap, rec) == ring.subrange(1, ring.len() as int).push(
            rec,
        ),
{
}

/// A vhost's path buckets never exceed [`MAX_PATHS_PER_VHOST`] plus the
/// overflow bucket, however many distinct paths it is asked for.
pub proof fn lemma_path_buckets_bounded(vh: VhostView, rec: RecordView)
    requires
        vh.by_path.dom().finite(),
        vh.by_path.dom().len() <= MAX_PATHS_PER_VHOST + 1,
        vh.by_path.dom().len() == MAX_PATHS_PER_VHOST + 1 ==> vh.by_path.contains_key(
            OTHER_PATH_BUCKET@,
        ),
    ensures
        vhost_after(vh, rec).by_path.dom().finite(),
        vhost_after(vh, rec).by_path.dom().len() <= MAX_PATHS_PER_VHOST + 1,
        vhost_after(vh, rec).by_path.dom().len() == MAX_PATHS_PER_VHOST + 1
            ==> vhost_after(vh, rec).by_path.contains_key(OTHER_PATH_BUCKET@),
{
    let b = path_bucket(vh.by_path, rec.path);
    let m = vhost_after(vh, rec).by_path;
    assert(m.dom() =~= vh.by_path.dom().insert(b));
    if vh.by_path.contains_key(b) {
        assert(vh.by_path.dom().insert(b) =~= vh.by_path.dom());
    } else {
        if vh.by_path.dom().len() < MAX_PATHS_PER_VHOST {
        } else {
            assert(b == OTHER_PATH_BUCKET@);
        }
    }
}

/// Every request recorded adds exactly one to the total, to its status and
/// to its vhost (short of saturation), and leaves every other status and
/// every other vhost as it was.
pub proof fn lemma_counters_count_each_request(c: CountersView, rec: RecordView, s: u16, v: Seq<char>)
    ensures
        counters_after(c, rec).total == sat_inc(c.total),
        count_or_zero(counters_after(c, rec).by_status, s) == (if s == rec.status {
            sat_inc(count_or_zero(c.by_status, s))
        } else {
            count_or_zero(c.by_status, s)
        }),
        v != rec.vhost ==> counters_after(c, rec).by_vhost.contains_key(v) == c.by_vhost.contains_key(v),
        v != rec.vhost && c.by_vhost.contains_key(v) ==> counters_after(c, rec).by_vhost[v]
            == c.by_vhost[v],
        counters_after(c, rec).by_vhost.contains_key(rec.vhost),
{
}

/// Recording one request, seen through the recorder's readings: the total,
/// the request's status and its vhost each count one more (short of
/// saturation); within the vhost, its path counts one more when the vhost
/// already knows the path or holds fewer than [`MAX_PATHS_PER_VHOST`] paths,
/// and the overflow bucket counts it otherwise; and the newest-first listing
/// of the ring becomes the request followed by what it listed before, less
/// the oldest record when the ring was full.
pub proof fn lemma_record_seen_by_readings(
    c: CountersView,
    ring: Seq<RecordView>,
    cap: nat,
    rec: RecordView,
)
    requires
        cap > 0,
        ring.len() <= cap,
    ensures
        ({
            let after = counters_after(c, rec);
            let vh = if c.by_vhost.contains_key(rec.vhost) {
                c.by_vhost[rec.vhost]
            } else {
                empty_vhost()
            };
            let bucket = if vh.by_path.contains_key(rec.path) || vh.by_path.dom().len()
                < MAX_PATHS_PER_VHOST {
                rec.path
            } else {
                OTHER_PATH_BUCKET@
            };
            &&& after.total == sat_inc(c.total)
            &&& count_or_zero(after.by_status, rec.status) == sat_inc(
                count_or_zero(c.by_status, rec.status),
            )
            &&& after.by_vhost.contains_key(rec.vhost)
            &&& after.by_vhost[rec.vhost].total == sat_inc(vh.total)
            &&& count_or_zero(after.by_vhost[rec.vhost].by_status, rec.status) == sat_inc(
                count_or_zero(vh.by_status, rec.status),
            )
            &&& count_or_zero(after.by_vhost[rec.vhost].by_path, bucket) == sat_inc(
                count_or_zero(vh.by_path, bucket),
            )
        }),
        recent_spec(ring_after(ring, cap, rec), 0) == seq![rec] + recent_spec(ring, 0).take(
            if ring.len() < cap {
                ring.len() as int
            } else {
                cap - 1
            },
        ),
{
    let r2 = ring_after(ring, cap, rec);
    let n = ring.len();
    let lhs = recent_spec(r2, 0);
    let rhs = seq![rec] + recent_spec(ring, 0).take(
        if n < cap {
            n as int
        } else {
            cap - 1
        },
    );
    assert(lhs.len() == rhs.len());
    assert forall|j: int| 0 <= j < lhs.len() implies lhs[j] == rhs[j] by {
        if j > 0 {
            assert(rhs[j] == recent_spec(ring, 0)[j - 1]);
        }
    }
    assert(lhs =~= rhs);
}

} // verus!
