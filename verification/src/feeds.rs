//! The integer parts of the dashboard's traffic feed: the status codes in
//! order, their counts, and the chart of requests per sample interval.

use vstd::prelude::*;
use crate::alert::{join, join_spec};
use crate::assoc::{assoc, count_or_zero, get_u16, keys_unique};
use crate::principal::strings_view;
use crate::text::{decimal, push_decimal, to_owned_str};
use crate::traffic::TrafficSample;

verus! {

// ---------------------------------------------------------------------------
// Status codes in order
// ---------------------------------------------------------------------------

/// `s` is in strictly ascending order.
pub open spec fn strictly_ascending(s: Seq<u16>) -> bool {
    forall|i: int, j: int| 0 <= i < j < s.len() ==> s[i] < s[j]
}

/// `k` is the key of some entry of `v`.
pub open spec fn keyed(v: Seq<(u16, u64)>, k: u16) -> bool {
    exists|i: int| 0 <= i < v.len() && v[i].0 == k
}

/// The status codes of a counter list, each once, in ascending order.
pub open spec fn status_keys_spec(by_status: Seq<(u16, u64)>) -> Seq<u16> {
    choose|k: Seq<u16>| strictly_ascending(k) && forall|x: u16| k.contains(x) <==> keyed(by_status, x)
}

/// Two ascending lists of the same codes are the same list.
pub proof fn lemma_ascending_unique(a: Seq<u16>, b: Seq<u16>)
    requires
        strictly_ascending(a),
        strictly_ascending(b),
        forall|x: u16| a.contains(x) <==> b.contains(x),
    ensures
        a == b,
    decreases a.len(),
{
    if a.len() == 0 {
        if b.len() > 0 {
            assert(b.contains(b[0]));
        }
        assert(a =~= b);
    } else {
        assert(a.contains(a[0]));
        assert(b.len() > 0);
        assert(b.contains(b[0]));
        let ia = choose|i: int| 0 <= i < a.len() && a[i] == b[0];
        let ib = choose|i: int| 0 <= i < b.len() && b[i] == a[0];
        assert(a[0] <= a[ia]);
        assert(b[0] <= b[ib]);
        assert(a[0] == b[0]);
        let a1 = a.drop_first();
        let b1 = b.drop_first();
        assert forall|x: u16| a1.contains(x) <==> b1.contains(x) by {
            if a1.contains(x) {
                let i = choose|i: int| 0 <= i < a1.len() && a1[i] == x;
                assert(a[i + 1] == x && a[0] < x);
                assert(b.contains(x));
                let j = choose|j: int| 0 <= j < b.len() && b[j] == x;
                assert(j > 0);
                assert(b1[j - 1] == x);
            }
            if b1.contains(x) {
                let i = choose|i: int| 0 <= i < b1.len() && b1[i] == x;
                assert(b[i + 1] == x && b[0] < x);
                assert(a.contains(x));
                let j = choose|j: int| 0 <= j < a.len() && a[j] == x;
                assert(j > 0);
                assert(a1[j - 1] == x);
            }
        }
        lemma_ascending_unique(a1, b1);
        assert(a =~= seq![a[0]] + a1);
        assert(b =~= seq![b[0]] + b1);
    }
}

/// The position at which `k` belongs in the ascending `s`.
fn insertion_point(s: &Vec<u16>, k: u16) -> (p: usize)
    requires
        strictly_ascending(s@),
    ensures
        p <= s.len(),
        forall|i: int| 0 <= i < p ==> s@[i] < k,
        forall|i: int| p <= i < s.len() ==> s@[i] >= k,
{
    let mut p: usize = 0;
    while p < s.len() && s[p] < k
        invariant
            p <= s.len(),
            strictly_ascending(s@),
            forall|i: int| 0 <= i < p ==> s@[i] < k,
        decreases s.len() - p,
    {
        p += 1;
    }
    p
}

/// The status codes of a counter list, each once, in ascending order.
pub fn sorted_status_keys(by_status: &Vec<(u16, u64)>) -> (r: Vec<u16>)
    ensures
        strictly_ascending(r@),
        forall|k: u16| r@.contains(k) <==> keyed(by_status@, k),
        r@ == status_keys_spec(by_status@),
{
    let mut out: Vec<u16> = Vec::new();
    let mut n: usize = 0;
    while n < by_status.len()
        invariant
            n <= by_status.len(),
            strictly_ascending(out@),
            forall|k: u16| out@.contains(k) <==> keyed(by_status@.take(n as int), k),
        decreases by_status.len() - n,
    {
        let k = by_status[n].0;
        let p = insertion_point(&out, k);
        let ghost before = out@;
        if p < out.len() && out[p] == k {
        } else {
            out.insert(p, k);
            assert forall|i: int, j: int| 0 <= i < j < out@.len() implies out@[i] < out@[j] by {
                if j < p {
                    assert(out@[i] == before[i] && out@[j] == before[j]);
                } else if j == p {
                    assert(out@[i] == before[i]);
                } else if i < p {
                    assert(out@[i] == before[i] && out@[j] == before[j - 1]);
                } else if i == p {
                    assert(out@[j] == before[j - 1]);
                } else {
                    assert(out@[i] == before[i - 1] && out@[j] == before[j - 1]);
                }
            }
        }
        proof {
            let t = by_status@.take(n as int);
            let t1 = by_status@.take(n + 1);
            assert forall|x: u16| out@.contains(x) <==> keyed(t1, x) by {
                if keyed(t1, x) {
                    let i = choose|i: int| 0 <= i < t1.len() && t1[i].0 == x;
                    if i < n {
                        assert(t[i] == t1[i]);
                        assert(keyed(t, x));
                        assert(before.contains(x));
                        let m = choose|m: int| 0 <= m < before.len() && before[m] == x;
                        if p < before.len() && before[p as int] == k {
                            assert(out@[m] == x);
                        } else if m < p {
                            assert(out@[m] == x);
                        } else {
                            assert(out@[m + 1] == x);
                        }
                    } else {
                        assert(x == k);
                        if p < before.len() && before[p as int] == k {
                            assert(out@[p as int] == x);
                        } else {
                            assert(out@[p as int] == x);
                        }
                    }
                }
                if out@.contains(x) {
                    let m = choose|m: int| 0 <= m < out@.len() && out@[m] == x;
                    if x == k {
                        assert(t1[n as int].0 == k);
                    } else {
                        if p < before.len() && before[p as int] == k {
                            assert(before.contains(x));
                        } else if m < p {
                            assert(before[m] == x);
                        } else {
                            assert(m != p);
                            assert(before[m - 1] == x);
                        }
                        assert(before.contains(x));
                        assert(keyed(t, x));
                        let i = choose|i: int| 0 <= i < t.len() && t[i].0 == x;
                        assert(t1[i] == t[i]);
                    }
                }
            }
        }
        n += 1;
    }
    assert(by_status@.take(by_status.len() as int) == by_status@);
    proof {
        let c = status_keys_spec(by_status@);
        assert(strictly_ascending(out@) && forall|x: u16| out@.contains(x) <==> keyed(by_status@, x));
        lemma_ascending_unique(out@, c);
    }
    out
}

// ---------------------------------------------------------------------------
// Counts by status
// ---------------------------------------------------------------------------

/// The count of `s` in a sample's list, zero when absent.
pub open spec fn count_in(v: Seq<(u16, u64)>, s: u16) -> u64 {
    count_or_zero(assoc(v), s)
}

/// The JSON object for one status and its count.
pub open spec fn status_item(s: u16, count: u64) -> Seq<char> {
    "{\"code\":"@ + decimal(s as nat) + ",\"count\":"@ + decimal(count as nat) + "}"@
}

/// The JSON list of each status in `keys` with its count in `by_status`.
pub open spec fn by_status_json_spec(keys: Seq<u16>, by_status: Seq<(u16, u64)>) -> Seq<char> {
    "["@ + join_spec(
        Seq::new(keys.len(), |i: int| status_item(keys[i], count_in(by_status, keys[i]))),
        ","@,
    ) + "]"@
}

pub(crate) fn count_of(v: &Vec<(u16, u64)>, s: u16) -> (r: u64)
    requires
        keys_unique(v@),
    ensures
        r == count_in(v@, s),
{
    match get_u16(v, s) {
        Some(c) => c,
        None => 0,
    }
}

/// The JSON list of status codes and their counts, in the order of `keys`.
pub fn by_status_json(keys: &Vec<u16>, by_status: &Vec<(u16, u64)>) -> (r: String)
    requires
        keys_unique(by_status@),
    ensures
        r@ == by_status_json_spec(keys@, by_status@),
{
    let ghost want = Seq::new(
        keys@.len(),
        |i: int| status_item(keys@[i], count_in(by_status@, keys@[i])),
    );
    let mut items: Vec<String> = Vec::new();
    let mut i: usize = 0;
    while i < keys.len()
        invariant
            i <= keys.len(),
            keys_unique(by_status@),
            want.len() == keys@.len(),
            forall|m: int|
                0 <= m < keys@.len() ==> #[trigger] want[m] == status_item(
                    keys@[m],
                    count_in(by_status@, keys@[m]),
                ),
            strings_view(items@) == want.take(i as int),
        decreases keys.len() - i,
    {
        let s = keys[i];
        let c = count_of(by_status, s);
        let mut item = to_owned_str("{\"code\":");
        push_decimal(&mut item, s as u64);
        item.append(",\"count\":");
        push_decimal(&mut item, c);
        item.append("}");
        let ghost before = items@;
        items.push(item);
        assert(want[i as int] == status_item(s, c));
        assert(strings_view(items@) =~= strings_view(before).push(want[i as int]));
        assert(want.take(i + 1) == want.take(i as int).push(want[i as int]));
        i += 1;
    }
    assert(want.take(keys.len() as int) == want);
    let body = join(&items, ",");
    let mut out = to_owned_str("[");
    out.append(body.as_str());
    out.append("]");
    out
}

// ---------------------------------------------------------------------------
// The chart
// ---------------------------------------------------------------------------

/// `b - a`, or zero when a counter went backwards.
pub open spec fn sat_sub(b: u64, a: u64) -> u64 {
    if b >= a {
        (b - a) as u64
    } else {
        0
    }
}

/// The timestamps of the chart: the later sample of each adjacent pair.
pub open spec fn chart_times(h: Seq<TrafficSample>) -> Seq<Seq<char>> {
    Seq::new((h.len() - 1) as nat, |k: int| decimal(h[k + 1].when_secs as nat))
}

/// Requests of status `s` in each interval between adjacent samples.
pub open spec fn chart_deltas(h: Seq<TrafficSample>, s: u16) -> Seq<Seq<char>> {
    Seq::new(
        (h.len() - 1) as nat,
        |k: int|
            decimal(
                sat_sub(count_in(h[k + 1].by_status@, s), count_in(h[k].by_status@, s)) as nat,
            ),
    )
}

/// The series of status `s`.
pub open spec fn series_item(h: Seq<TrafficSample>, s: u16) -> Seq<char> {
    "{\"label\":\"HTTP "@ + decimal(s as nat) + "\",\"values\":["@ + join_spec(
        chart_deltas(h, s),
        ","@,
    ) + "]}"@
}

/// The chart document: `{t: [...], series: [{label, values}]}`, empty
/// until there are two samples to difference.
pub open spec fn chart_json_spec(h: Seq<TrafficSample>, keys: Seq<u16>) -> Seq<char> {
    if h.len() < 2 {
        "{\"t\": [], \"series\": []}"@
    } else {
        "{\"t\":["@ + join_spec(chart_times(h), ","@) + "],\"series\":["@ + join_spec(
            Seq::new(keys.len(), |i: int| series_item(h, keys[i])),
            ","@,
        ) + "]}"@
    }
}

fn series_for(history: &Vec<TrafficSample>, s: u16) -> (r: String)
    requires
        history@.len() >= 2,
        forall|m: int| 0 <= m < history@.len() ==> keys_unique((#[trigger] history@[m]).by_status@),
    ensures
        r@ == series_item(history@, s),
{
    let ghost h = history@;
    let ghost want = chart_deltas(h, s);
    let mut vals: Vec<String> = Vec::new();
    let mut k: usize = 1;
    while k < history.len()
        invariant
            1 <= k <= history.len(),
            h == history@,
            h.len() >= 2,
            forall|m: int| 0 <= m < h.len() ==> keys_unique((#[trigger] h[m]).by_status@),
            want == chart_deltas(h, s),
            strings_view(vals@) == want.take(k - 1),
        decreases history.len() - k,
    {
        assert(keys_unique(h[k as int].by_status@));
        assert(keys_unique(h[k - 1].by_status@));
        let b = count_of(&history[k].by_status, s);
        let a = count_of(&history[k - 1].by_status, s);
        let d = b.saturating_sub(a);
        let mut item = String::new();
        push_decimal(&mut item, d);
        let ghost before = vals@;
        vals.push(item);
        assert(want[k - 1] == decimal(d as nat));
        assert(strings_view(vals@) =~= strings_view(before).push(want[k - 1]));
        assert(want.take(k as int) == want.take(k - 1).push(want[k - 1]));
        k += 1;
    }
    assert(want.take(history.len() - 1) == want);
    let joined = join(&vals, ",");
    let mut out = to_owned_str("{\"label\":\"HTTP ");
    push_decimal(&mut out, s as u64);
    out.append("\",\"values\":[");
    out.append(joined.as_str());
    out.append("]}");
    out
}

/// Serialise the traffic history into the shape the chart script expects:
/// the timestamp of each sample after the first, and per status the
/// requests counted since the sample before.
pub fn build_chart_json(history: &Vec<TrafficSample>, status_keys: &Vec<u16>) -> (r: String)
    requires
        forall|m: int| 0 <= m < history@.len() ==> keys_unique((#[trigger] history@[m]).by_status@),
    ensures
        r@ == chart_json_spec(history@, status_keys@),
{
    if history.len() < 2 {
        return to_owned_str("{\"t\": [], \"series\": []}");
    }
    let ghost h = history@;
    let ghost tw = chart_times(h);
    let mut ts: Vec<String> = Vec::new();
    let mut k: usize = 1;
    while k < history.len()
        invariant
            1 <= k <= history.len(),
            h == history@,
            h.len() >= 2,
            tw == chart_times(h),
            strings_view(ts@) == tw.take(k - 1),
        decreases history.len() - k,
    {
        let mut item = String::new();
        push_decimal(&mut item, history[k].when_secs);
        let ghost before = ts@;
        ts.push(item);
        assert(tw[k - 1] == decimal(h[k as int].when_secs as nat));
        assert(strings_view(ts@) =~= strings_view(before).push(tw[k - 1]));
        assert(tw.take(k as int) == tw.take(k - 1).push(tw[k - 1]));
        k += 1;
    }
    assert(tw.take(history.len() - 1) == tw);
    let ghost sw = Seq::new(status_keys@.len(), |i: int| series_item(h, status_keys@[i]));
    let mut series: Vec<String> = Vec::new();
    let mut i: usize = 0;
    while i < status_keys.len()
        invariant
            i <= status_keys.len(),
            h == history@,
            h.len() >= 2,
            forall|m: int| 0 <= m < h.len() ==> keys_unique((#[trigger] h[m]).by_status@),
            sw == Seq::new(status_keys@.len(), |i: int| series_item(h, status_keys@[i])),
            strings_view(series@) == sw.take(i as int),
        decreases status_keys.len() - i,
    {
        let item = series_for(history, status_keys[i]);
        let ghost before = series@;
        series.push(item);
        assert(strings_view(series@) =~= strings_view(before).push(sw[i as int]));
        assert(sw.take(i + 1) == sw.take(i as int).push(sw[i as int]));
        i += 1;
    }
    assert(sw.take(status_keys.len() as int) == sw);
    let tj = join(&ts, ",");
    let sj = join(&series, ",");
    let mut out = to_owned_str("{\"t\":[");
    out.append(tj.as_str());
    out.append("],\"series\":[");
    out.append(sj.as_str());
    out.append("]}");
    out
}

} // verus!
