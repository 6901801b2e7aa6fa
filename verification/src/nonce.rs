//! The replay store of signed logins: the `(signer, nonce)` pairs seen
//! within the freshness window. Expired pairs are dropped lazily, on each
//! insert, so no background work is needed.

use vstd::prelude::*;

verus! {

/// One pair seen: signer, nonce, and the unix second it was recorded.
pub type SeenPair = (Seq<u8>, Seq<u8>, u64);

/// A pair recorded at `at` still counts at `now`: less than `window`
/// seconds have passed (a clock that stepped back keeps it).
pub open spec fn still_live(at: u64, now: u64, window: u64) -> bool {
    now < at + window
}

/// `(signer, nonce)` was recorded and still counts at `now`.
pub open spec fn seen_spec(s: Seq<SeenPair>, signer: Seq<u8>, nonce: Seq<u8>, now: u64, window: u64) -> bool {
    exists|i: int|
        0 <= i < s.len() && (#[trigger] s[i]).0 == signer && s[i].1 == nonce && still_live(
            s[i].2,
            now,
            window,
        )
}

/// The pairs that still count at `now`, in the order recorded.
pub open spec fn live_spec(s: Seq<SeenPair>, now: u64, window: u64) -> Seq<SeenPair>
    decreases s.len(),
{
    if s.len() == 0 {
        seq![]
    } else {
        let rest = live_spec(s.drop_last(), now, window);
        if still_live(s.last().2, now, window) {
            rest.push(s.last())
        } else {
            rest
        }
    }
}

/// No pair is held twice.
pub open spec fn pairs_unique(s: Seq<SeenPair>) -> bool {
    forall|i: int, j: int|
        0 <= i < j < s.len() ==> !((#[trigger] s[i]).0 == (#[trigger] s[j]).0 && s[i].1 == s[j].1)
}

/// Refuses a `(signer, nonce)` pair seen within the window.
pub struct NonceTracker {
    window: u64,
    pairs: Vec<(Vec<u8>, Vec<u8>, u64)>,
}

/// The pairs as byte sequences.
pub open spec fn pairs_view(v: Seq<(Vec<u8>, Vec<u8>, u64)>) -> Seq<SeenPair> {
    Seq::new(v.len(), |i: int| (v[i].0@, v[i].1@, v[i].2))
}

/// `x` is a pair of `s` that still counts at `now`.
pub open spec fn live_in(s: Seq<SeenPair>, x: SeenPair, now: u64, window: u64) -> bool {
    exists|i: int| 0 <= i < s.len() && s[i] == x && still_live(s[i].2, now, window)
}

proof fn lemma_live_is_sub(s: Seq<SeenPair>, now: u64, window: u64)
    ensures
        forall|k: int|
            0 <= k < live_spec(s, now, window).len() ==> live_in(
                s,
                #[trigger] live_spec(s, now, window)[k],
                now,
                window,
            ),
        live_spec(s, now, window).len() <= s.len(),
        pairs_unique(s) ==> pairs_unique(live_spec(s, now, window)),
    decreases s.len(),
{
    if s.len() > 0 {
        let t = s.drop_last();
        lemma_live_is_sub(t, now, window);
        let rest = live_spec(t, now, window);
        let l = live_spec(s, now, window);
        assert forall|k: int| 0 <= k < l.len() implies live_in(s, #[trigger] l[k], now, window) by {
            if k < rest.len() {
                assert(live_in(t, rest[k], now, window));
                let i = choose|i: int|
                    0 <= i < t.len() && t[i] == rest[k] && still_live(t[i].2, now, window);
                assert(s[i] == t[i]);
                assert(l[k] == rest[k]);
                assert(0 <= i < s.len() && s[i] == l[k] && still_live(s[i].2, now, window));
            } else {
                let i = s.len() - 1;
                assert(s[i] == l[k]);
                assert(0 <= i < s.len() && s[i] == l[k] && still_live(s[i].2, now, window));
            }
        }
        if pairs_unique(s) {
            assert(pairs_unique(t));
            if still_live(s.last().2, now, window) {
                assert forall|a: int, b: int| 0 <= a < b < l.len() implies !((#[trigger] l[a]).0
                    == (#[trigger] l[b]).0 && l[a].1 == l[b].1) by {
                    if b == l.len() - 1 {
                        assert(live_in(t, rest[a], now, window));
                        let i = choose|i: int|
                            0 <= i < t.len() && t[i] == rest[a] && still_live(t[i].2, now, window);
                        assert(l[a] == rest[a]);
                        assert(s[i] == t[i]);
                        assert(l[b] == s[s.len() - 1]);
                    } else {
                        assert(l[a] == rest[a] && l[b] == rest[b]);
                    }
                }
            }
        }
    }
}

impl NonceTracker {
    /// The pairs held, oldest first.
    pub closed spec fn pairs(&self) -> Seq<SeenPair> {
        pairs_view(self.pairs@)
    }

    /// How long a pair counts, in seconds.
    pub closed spec fn window_view(&self) -> u64 {
        self.window
    }

    /// The store's invariant: no pair is held twice.
    pub closed spec fn wf(&self) -> bool {
        pairs_unique(self.pairs())
    }

    /// An empty store whose pairs count for `window` seconds.
    pub fn new(window: u64) -> (r: NonceTracker)
        ensures
            r.wf(),
            r.pairs() == Seq::<SeenPair>::empty(),
            r.window_view() == window,
    {
        let r = NonceTracker { window, pairs: Vec::new() };
        assert(r.pairs() =~= Seq::<SeenPair>::empty());
        r
    }

    /// Record `(signer, nonce)` at `now`. A pair already seen within the
    /// window is refused and nothing changes. Otherwise the pairs that no
    /// longer count are dropped and this one is added.
    pub fn record(&mut self, signer: &[u8], nonce: &[u8], now: u64) -> (r: Result<(), ()>)
        requires
            old(self).wf(),
        ensures
            final(self).wf(),
            final(self).window_view() == old(self).window_view(),
            seen_spec(old(self).pairs(), signer@, nonce@, now, old(self).window_view()) ==> (r is Err
                && final(self).pairs() == old(self).pairs()),
            !seen_spec(old(self).pairs(), signer@, nonce@, now, old(self).window_view()) ==> (r is Ok
                && final(self).pairs() == live_spec(old(self).pairs(), now, old(self).window_view()).push(
                (signer@, nonce@, now),
            )),
    {
        let ghost s = self.pairs();
        let w = self.window;
        let mut i: usize = 0;
        while i < self.pairs.len()
            invariant
                i <= self.pairs@.len(),
                s == pairs_view(self.pairs@),
                pairs_unique(s),
                w == self.window,
                forall|k: int|
                    0 <= k < i ==> !((#[trigger] s[k]).0 == signer@ && s[k].1 == nonce@ && still_live(
                        s[k].2,
                        now,
                        w,
                    )),
            decreases self.pairs@.len() - i,
        {
            let live = (now as u128) < (self.pairs[i].2 as u128) + (w as u128);
            if live && bytes_same(self.pairs[i].0.as_slice(), signer) && bytes_same(
                self.pairs[i].1.as_slice(),
                nonce,
            ) {
                assert(s[i as int].0 == signer@ && s[i as int].1 == nonce@);
                return Err(());
            }
            i += 1;
        }
        assert(!seen_spec(s, signer@, nonce@, now, w));
        let mut kept: Vec<(Vec<u8>, Vec<u8>, u64)> = Vec::new();
        let mut rest: Vec<(Vec<u8>, Vec<u8>, u64)> = Vec::new();
        std::mem::swap(&mut rest, &mut self.pairs);
        let mut taken: usize = 0;
        let n = rest.len();
        while rest.len() > 0
            invariant
                taken + rest@.len() == n,
                n == s.len(),
                pairs_view(rest@) == s.skip(taken as int),
                pairs_view(kept@) == live_spec(s.take(taken as int), now, w),
            decreases rest@.len(),
        {
            let ghost old_rest = rest@;
            let e = rest.remove(0);
            proof {
                assert(pairs_view(old_rest)[0] == s.skip(taken as int)[0]);
                assert(old_rest[0] == e);
                assert((e.0@, e.1@, e.2) == s[taken as int]);
                assert forall|k: int| 0 <= k < pairs_view(rest@).len() implies pairs_view(rest@)[k]
                    == s.skip(taken + 1)[k] by {
                    assert(rest@[k] == old_rest[k + 1]);
                    assert(pairs_view(old_rest)[k + 1] == s.skip(taken as int)[k + 1]);
                }
                assert(pairs_view(rest@) =~= s.skip(taken + 1));
                assert(s.take(taken + 1).drop_last() =~= s.take(taken as int));
                assert(s.take(taken + 1).last() == s[taken as int]);
            }
            let ghost before = kept@;
            if (now as u128) < (e.2 as u128) + (w as u128) {
                kept.push(e);
                assert(pairs_view(kept@) =~= pairs_view(before).push(s[taken as int]));
            }
            taken += 1;
        }
        assert(s.take(n as int) =~= s);
        proof {
            lemma_live_is_sub(s, now, w);
        }
        let ghost before = kept@;
        kept.push((slice_to_vec(signer), slice_to_vec(nonce), now));
        self.pairs = kept;
        proof {
            let l = live_spec(s, now, w);
            assert(pairs_view(self.pairs@) =~= l.push((signer@, nonce@, now)));
            let p = self.pairs();
            assert forall|a: int, b: int| 0 <= a < b < p.len() implies !((#[trigger] p[a]).0
                == (#[trigger] p[b]).0 && p[a].1 == p[b].1) by {
                if b == p.len() - 1 {
                    assert(p[a] == l[a]);
                    assert(live_in(s, l[a], now, w));
                    let i = choose|i: int|
                        0 <= i < s.len() && s[i] == l[a] && still_live(s[i].2, now, w);
                    assert(!(s[i].0 == signer@ && s[i].1 == nonce@ && still_live(s[i].2, now, w)));
                } else {
                    assert(p[a] == l[a] && p[b] == l[b]);
                }
            }
        }
        Ok(())
    }
}

/// A pair just recorded is refused as a replay for the whole window after:
/// recording it at `at` and asking again at any `now` before `at + window`
/// finds it seen.
pub proof fn lemma_recorded_pair_is_seen(
    before: Seq<SeenPair>,
    signer: Seq<u8>,
    nonce: Seq<u8>,
    at: u64,
    now: u64,
    window: u64,
)
    requires
        now < at + window,
    ensures
        seen_spec(live_spec(before, at, window).push((signer, nonce, at)), signer, nonce, now, window),
{
    let s = live_spec(before, at, window).push((signer, nonce, at));
    assert(s[s.len() - 1] == (signer, nonce, at));
}

fn bytes_same(a: &[u8], b: &[u8]) -> (r: bool)
    ensures
        r == (a@ == b@),
{
    if a.len() != b.len() {
        return false;
    }
    let mut i: usize = 0;
    while i < a.len()
        invariant
            i <= a.len(),
            a.len() == b.len(),
            forall|k: int| 0 <= k < i ==> a@[k] == b@[k],
        decreases a.len() - i,
    {
        if a[i] != b[i] {
            return false;
        }
        i += 1;
    }
    assert(a@ =~= b@);
    true
}

fn slice_to_vec(a: &[u8]) -> (r: Vec<u8>)
    ensures
        r@ == a@,
{
    vstd::slice::slice_to_vec(a)
}

} // verus!
