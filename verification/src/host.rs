//! The integer arithmetic of the host resource sampler: how full a
//! filesystem is as `df` reports it, disk operations per second between two
//! samples, when the resident scan is due, and how persisted history is
//! merged with the live ring.

use vstd::prelude::*;

verus! {

/// One sample in this many seconds is a resident scan.
pub const RESIDENT_SAMPLE_SECS: u64 = 30;
/// At the default interval this is one hour of history.
pub const DEFAULT_HISTORY_CAPACITY: usize = 720;
/// Seconds between samples.
pub const DEFAULT_SAMPLE_INTERVAL_SECS: u64 = 5;

/// `a - b`, stopping at zero.
pub open spec fn sat_sub(a: u64, b: u64) -> u64 {
    if a >= b {
        (a - b) as u64
    } else {
        0
    }
}

/// `a + b`, stopping at the top.
pub open spec fn sat_add(a: u64, b: u64) -> u64 {
    if a + b > u64::MAX {
        u64::MAX
    } else {
        (a + b) as u64
    }
}

/// Per cent of a filesystem in use, as `df` reports it: blocks used over the
/// blocks an unprivileged writer could ever have, rounded up, at most 100.
/// The blocks reserved for root count as neither; an empty filesystem is 0.
pub open spec fn used_pct_spec(blocks: u64, free: u64, avail: u64) -> int {
    let used = sat_sub(blocks, free);
    let usable = sat_add(used, avail);
    if usable == 0 {
        0
    } else {
        let scaled = if used * 100 > u64::MAX {
            u64::MAX as int
        } else {
            used * 100
        };
        let num = if scaled + usable - 1 > u64::MAX {
            u64::MAX as int
        } else {
            scaled + usable - 1
        };
        let pct = num / (usable as int);
        if pct < 100 {
            pct
        } else {
            100
        }
    }
}

/// Per cent of a filesystem in use, from its block counts: `blocks` in all,
/// `free` of them free, `avail` of those free to an unprivileged writer.
pub fn used_pct(blocks: u64, free: u64, avail: u64) -> (r: i64)
    ensures
        r == used_pct_spec(blocks, free, avail),
        0 <= r <= 100,
{
    let used = blocks.saturating_sub(free);
    let usable = used.saturating_add(avail);
    if usable == 0 {
        return 0;
    }
    let scaled = match used.checked_mul(100) {
        Some(m) => m,
        None => u64::MAX,
    };
    let pct = scaled.saturating_add(usable - 1) / usable;
    if pct < 100 {
        pct as i64
    } else {
        100
    }
}

/// Below the saturation bounds, the figure is exactly the ceiling of the
/// used share, in per cent.
pub proof fn lemma_used_pct_is_ceiling(blocks: u64, free: u64, avail: u64)
    requires
        free <= blocks,
        (blocks - free) + avail <= u64::MAX,
        (blocks - free) * 100 + (blocks - free) + avail <= u64::MAX,
        (blocks - free) + avail > 0,
    ensures
        ({
            let used = blocks - free;
            let usable = used + avail;
            let p = used_pct_spec(blocks, free, avail);
            &&& p * usable >= used * 100
            &&& (p - 1) * usable < used * 100
        }),
{
    let used = (blocks - free) as int;
    let usable = used + avail;
    let q = (used * 100 + usable - 1) / usable;
    assert(q * usable <= used * 100 + usable - 1 < (q + 1) * usable) by (nonlinear_arith)
        requires
            usable > 0,
            q == (used * 100 + usable - 1) / usable,
    ;
    assert(used * 100 <= usable * 100) by (nonlinear_arith)
        requires
            used <= usable,
    ;
    assert(q <= 100) by (nonlinear_arith)
        requires
            q * usable <= used * 100 + usable - 1,
            used * 100 <= usable * 100,
            usable > 0,
    ;
    assert(used_pct_spec(blocks, free, avail) == q);
    assert(q * usable >= used * 100 && (q - 1) * usable < used * 100) by (nonlinear_arith)
        requires
            q * usable <= used * 100 + usable - 1 < (q + 1) * usable,
            usable > 0,
    ;
}

// ---------------------------------------------------------------------------
// Disk operations
// ---------------------------------------------------------------------------

/// The completed reads and writes a block device has counted.
pub struct DiskCounts {
    pub name: String,
    pub reads: u64,
    pub writes: u64,
}

/// The counts of the first device in `devs` named `name`.
pub open spec fn find_dev(devs: Seq<DiskCounts>, name: Seq<char>) -> Option<DiskCounts>
    decreases devs.len(),
{
    if devs.len() == 0 {
        None
    } else if devs[0].name@ == name {
        Some(devs[0])
    } else {
        find_dev(devs.drop_first(), name)
    }
}

/// Operations completed between the two samples, summed over every device
/// present in both, saturating.
pub open spec fn ops_between(last: Seq<DiskCounts>, prev: Seq<DiskCounts>) -> u64
    decreases last.len(),
{
    if last.len() == 0 {
        0
    } else {
        let before = ops_between(last.drop_last(), prev);
        let d = last.last();
        match find_dev(prev, d.name@) {
            Some(p) => sat_add(sat_add(before, sat_sub(d.reads, p.reads)), sat_sub(d.writes, p.writes)),
            None => before,
        }
    }
}

/// Disk operations per second between two samples; zero when no time
/// passed between them.
pub open spec fn disk_iops_spec(
    last_when: u64,
    last: Seq<DiskCounts>,
    prev_when: u64,
    prev: Seq<DiskCounts>,
) -> i64 {
    let elapsed = sat_sub(last_when, prev_when);
    if elapsed == 0 {
        0
    } else {
        (ops_between(last, prev) / elapsed) as i64
    }
}

fn find_dev_exec(devs: &Vec<DiskCounts>, name: &str) -> (r: Option<usize>)
    ensures
        match r {
            Some(i) => i < devs@.len() && find_dev(devs@, name@) == Some(devs@[i as int]),
            None => find_dev(devs@, name@) is None,
        },
{
    let mut i: usize = 0;
    assert(devs@.subrange(0, devs@.len() as int) == devs@);
    while i < devs.len()
        invariant
            i <= devs.len(),
            find_dev(devs@.subrange(i as int, devs@.len() as int), name@) == find_dev(devs@, name@),
        decreases devs.len() - i,
    {
        let ghost rest = devs@.subrange(i as int, devs@.len() as int);
        assert(rest[0] == devs@[i as int]);
        if crate::text::str_eq(devs[i].name.as_str(), name) {
            return Some(i);
        }
        assert(rest.drop_first() == devs@.subrange(i + 1, devs@.len() as int));
        i += 1;
    }
    None
}

/// Completed reads and writes per second, summed over every device, from
/// two samples taken at `prev_when` and `last_when`.
pub fn disk_iops(
    last_when: u64,
    last: &Vec<DiskCounts>,
    prev_when: u64,
    prev: &Vec<DiskCounts>,
) -> (r: i64)
    ensures
        r == disk_iops_spec(last_when, last@, prev_when, prev@),
{
    let elapsed = last_when.saturating_sub(prev_when);
    if elapsed == 0 {
        return 0;
    }
    let mut ops: u64 = 0;
    let mut i: usize = 0;
    while i < last.len()
        invariant
            i <= last.len(),
            ops == ops_between(last@.take(i as int), prev@),
        decreases last.len() - i,
    {
        let dev = &last[i];
        assert(last@.take(i + 1).drop_last() == last@.take(i as int));
        assert(last@.take(i + 1).last() == last@[i as int]);
        match find_dev_exec(prev, dev.name.as_str()) {
            Some(j) => {
                let p = &prev[j];
                ops = ops.saturating_add(dev.reads.saturating_sub(p.reads)).saturating_add(
                    dev.writes.saturating_sub(p.writes),
                );
            },
            None => {},
        }
        i += 1;
    }
    assert(last@.take(last.len() as int) == last@);
    let rate: u64 = ops / elapsed;
    (#[verifier::truncate] (rate as i64))
}

// ---------------------------------------------------------------------------
// Cadences and history
// ---------------------------------------------------------------------------

/// Whether a resident scan is due at `now`, the last having been stamped at
/// `last_scan` (zero for never).
pub fn resident_scan_due(last_scan: u64, now: u64) -> (r: bool)
    ensures
        r == (last_scan == 0 || sat_sub(now, last_scan) >= RESIDENT_SAMPLE_SECS),
{
    last_scan == 0 || now.saturating_sub(last_scan) >= RESIDENT_SAMPLE_SECS
}

/// The persisted points stamped before `cutoff`, in order.
pub open spec fn before_cutoff<T>(s: Seq<(u64, T)>, cutoff: u64) -> Seq<(u64, T)>
    decreases s.len(),
{
    if s.len() == 0 {
        seq![]
    } else {
        let rest = before_cutoff(s.drop_last(), cutoff);
        if s.last().0 < cutoff {
            rest.push(s.last())
        } else {
            rest
        }
    }
}

/// The newest `cap` of `s` (all of it when there are no more).
pub open spec fn newest<T>(s: Seq<(u64, T)>, cap: nat) -> Seq<(u64, T)> {
    if s.len() > cap {
        s.subrange(s.len() - cap, s.len() as int)
    } else {
        s
    }
}

/// Persisted history merged with the live history: the persisted points
/// older than the oldest live one, then the live ones (all the persisted
/// points when there is no live one), capped at `cap` by dropping the
/// oldest.
pub open spec fn merged_spec<T>(persisted: Seq<(u64, T)>, live: Seq<(u64, T)>, cap: nat) -> Seq<
    (u64, T),
> {
    if live.len() == 0 {
        newest(persisted, cap)
    } else {
        newest(before_cutoff(persisted, live[0].0) + live, cap)
    }
}

fn copy_all<T: Copy>(v: &Vec<(u64, T)>) -> (r: Vec<(u64, T)>)
    ensures
        r@ == v@,
{
    let mut out: Vec<(u64, T)> = Vec::new();
    let mut i: usize = 0;
    while i < v.len()
        invariant
            i <= v.len(),
            out@ == v@.take(i as int),
        decreases v.len() - i,
    {
        out.push(v[i]);
        assert(v@.take(i + 1) == v@.take(i as int).push(v@[i as int]));
        i += 1;
    }
    assert(v@.take(v.len() as int) == v@);
    out
}

/// Merge points loaded from storage with the live derived history, each
/// point carried with its timestamp, so a point still present in the live
/// ring is not counted twice.
pub fn merge_history<T: Copy>(persisted: &Vec<(u64, T)>, live: &Vec<(u64, T)>, cap: usize) -> (r:
    Vec<(u64, T)>)
    ensures
        r@ == merged_spec(persisted@, live@, cap as nat),
{
    let mut out: Vec<(u64, T)> = Vec::new();
    if live.len() == 0 {
        out = copy_all(persisted);
    } else {
        let cutoff = live[0].0;
        let mut i: usize = 0;
        while i < persisted.len()
            invariant
                i <= persisted.len(),
                out@ == before_cutoff(persisted@.take(i as int), cutoff),
            decreases persisted.len() - i,
        {
            assert(persisted@.take(i + 1).drop_last() == persisted@.take(i as int));
            assert(persisted@.take(i + 1).last() == persisted@[i as int]);
            if persisted[i].0 < cutoff {
                out.push(persisted[i]);
            }
            i += 1;
        }
        assert(persisted@.take(persisted.len() as int) == persisted@);
        let ghost kept = out@;
        let mut j: usize = 0;
        while j < live.len()
            invariant
                j <= live.len(),
                out@ == kept + live@.take(j as int),
            decreases live.len() - j,
        {
            out.push(live[j]);
            assert(live@.take(j + 1) == live@.take(j as int).push(live@[j as int]));
            assert(kept + live@.take(j + 1) == (kept + live@.take(j as int)).push(live@[j as int]));
            j += 1;
        }
        assert(live@.take(live.len() as int) == live@);
    }
    if out.len() > cap {
        let from = out.len() - cap;
        let mut capped: Vec<(u64, T)> = Vec::new();
        let mut k: usize = from;
        while k < out.len()
            invariant
                from <= k <= out.len(),
                capped@ == out@.subrange(from as int, k as int),
            decreases out.len() - k,
        {
            capped.push(out[k]);
            assert(out@.subrange(from as int, k + 1) == out@.subrange(from as int, k as int).push(
                out@[k as int],
            ));
            k += 1;
        }
        capped
    } else {
        out
    }
}

proof fn lemma_before_cutoff_is_older<T>(s: Seq<(u64, T)>, cutoff: u64)
    ensures
        forall|k: int|
            0 <= k < before_cutoff(s, cutoff).len() ==> (#[trigger] before_cutoff(s, cutoff)[k]).0
                < cutoff,
    decreases s.len(),
{
    if s.len() > 0 {
        lemma_before_cutoff_is_older(s.drop_last(), cutoff);
        let r = before_cutoff(s.drop_last(), cutoff);
        assert forall|k: int| 0 <= k < before_cutoff(s, cutoff).len() implies (
        #[trigger] before_cutoff(s, cutoff)[k]).0 < cutoff by {
            if k < r.len() {
                assert(before_cutoff(s, cutoff)[k] == r[k]);
            }
        }
    }
}

/// With live points, everything a merge keeps ahead of the live points is
/// stamped strictly before the oldest of them, so no moment of the live
/// ring is counted twice; and those older points come from the persisted
/// history.
pub proof fn lemma_merge_counts_no_moment_twice<T>(
    persisted: Seq<(u64, T)>,
    live: Seq<(u64, T)>,
    cap: nat,
)
    requires
        live.len() > 0,
    ensures
        ({
            let m = merged_spec(persisted, live, cap);
            forall|k: int|
                0 <= k < m.len() - live.len() ==> (#[trigger] m[k]).0 < live[0].0
                    && persisted.contains(m[k])
        }),
{
    let c = live[0].0;
    let b = before_cutoff(persisted, c);
    lemma_before_cutoff_is_older(persisted, c);
    lemma_before_cutoff_from_persisted(persisted, c);
    let all = b + live;
    let m = merged_spec(persisted, live, cap);
    assert forall|k: int| 0 <= k < m.len() - live.len() implies (#[trigger] m[k]).0 < live[0].0
        && persisted.contains(m[k]) by {
        let at = if all.len() > cap {
            all.len() - cap + k
        } else {
            k
        };
        assert(m[k] == all[at]);
        assert(at < b.len());
        assert(all[at] == b[at]);
    }
}

proof fn lemma_before_cutoff_from_persisted<T>(s: Seq<(u64, T)>, cutoff: u64)
    ensures
        forall|k: int|
            0 <= k < before_cutoff(s, cutoff).len() ==> s.contains(
                #[trigger] before_cutoff(s, cutoff)[k],
            ),
    decreases s.len(),
{
    if s.len() > 0 {
        lemma_before_cutoff_from_persisted(s.drop_last(), cutoff);
        let r = before_cutoff(s.drop_last(), cutoff);
        assert forall|k: int| 0 <= k < before_cutoff(s, cutoff).len() implies s.contains(
            #[trigger] before_cutoff(s, cutoff)[k],
        ) by {
            if k < r.len() {
                let x = r[k];
                assert(s.drop_last().contains(x));
                let j = choose|j: int| 0 <= j < s.drop_last().len() && s.drop_last()[j] == x;
                assert(s[j] == x);
            } else {
                assert(s[s.len() - 1] == s.last());
            }
        }
    }
}

proof fn lemma_before_cutoff_keeps_older<T>(s: Seq<(u64, T)>, cutoff: u64, j: int)
    requires
        0 <= j < s.len(),
        s[j].0 < cutoff,
    ensures
        before_cutoff(s, cutoff).contains(s[j]),
    decreases s.len(),
{
    let r = before_cutoff(s.drop_last(), cutoff);
    if j < s.len() - 1 {
        lemma_before_cutoff_keeps_older(s.drop_last(), cutoff, j);
        assert(s.drop_last()[j] == s[j]);
        let i = choose|i: int| 0 <= i < r.len() && r[i] == s[j];
        if cutoff > s.last().0 {
            assert(before_cutoff(s, cutoff)[i] == s[j]);
        }
    } else {
        assert(before_cutoff(s, cutoff)[r.len() as int] == s[j]);
    }
}

/// When the capacity has room, a merge loses nothing stored from before
/// the live ring: every persisted point stamped before the oldest live
/// point is in it.
pub proof fn lemma_merge_keeps_older_points<T>(
    persisted: Seq<(u64, T)>,
    live: Seq<(u64, T)>,
    cap: nat,
    j: int,
)
    requires
        live.len() > 0,
        persisted.len() + live.len() <= cap,
        0 <= j < persisted.len(),
        persisted[j].0 < live[0].0,
    ensures
        merged_spec(persisted, live, cap).contains(persisted[j]),
{
    let c = live[0].0;
    let b = before_cutoff(persisted, c);
    lemma_before_cutoff_keeps_older(persisted, c, j);
    lemma_before_cutoff_len(persisted, c);
    let i = choose|i: int| 0 <= i < b.len() && b[i] == persisted[j];
    assert((b + live)[i] == persisted[j]);
}

proof fn lemma_before_cutoff_len<T>(s: Seq<(u64, T)>, cutoff: u64)
    ensures
        before_cutoff(s, cutoff).len() <= s.len(),
    decreases s.len(),
{
    if s.len() > 0 {
        lemma_before_cutoff_len(s.drop_last(), cutoff);
    }
}

/// A merge never holds more than the history capacity, whatever was
/// stored and whatever is live.
pub proof fn lemma_merge_is_capped<T>(persisted: Seq<(u64, T)>, live: Seq<(u64, T)>, cap: nat)
    ensures
        merged_spec(persisted, live, cap).len() <= cap,
{
}

/// Every live point survives a merge whenever the cap has room for them,
/// as the newest points of the result.
pub proof fn lemma_merge_keeps_live<T>(persisted: Seq<(u64, T)>, live: Seq<(u64, T)>, cap: nat)
    requires
        live.len() > 0,
        live.len() <= cap,
    ensures
        merged_spec(persisted, live, cap).len() <= cap,
        merged_spec(persisted, live, cap).subrange(
            merged_spec(persisted, live, cap).len() - live.len(),
            merged_spec(persisted, live, cap).len() as int,
        ) == live,
{
    let all = before_cutoff(persisted, live[0].0) + live;
    let m = merged_spec(persisted, live, cap);
    if all.len() > cap {
        assert(m == all.subrange(all.len() - cap, all.len() as int));
        assert(m.subrange(m.len() - live.len(), m.len() as int) =~= live);
    } else {
        assert(m == all);
        assert(m.subrange(m.len() - live.len(), m.len() as int) =~= live);
    }
}

} // verus!
