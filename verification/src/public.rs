//! Where a request path that no static route claims is looked for: under the
//! site's public directory, with `.` and `..` resolved, and never above it.
use vstd::prelude::*;

use crate::text::{chars_of, split_chars, split_spec, str_eq, string_from_chars};

verus! {

/// The segments `segs` name once `.` and empty segments are dropped and each
/// `..` takes back the segment before it; none when a `..` would climb above
/// the start.
pub open spec fn resolve_segments(segs: Seq<Seq<char>>) -> Option<Seq<Seq<char>>>
    decreases segs.len(),
{
    if segs.len() == 0 {
        Some(seq![])
    } else {
        match resolve_segments(segs.drop_last()) {
            None => None,
            Some(acc) => {
                let s = segs.last();
                if s.len() == 0 || s == "."@ {
                    Some(acc)
                } else if s == ".."@ {
                    if acc.len() == 0 {
                        None
                    } else {
                        Some(acc.drop_last())
                    }
                } else {
                    Some(acc.push(s))
                }
            },
        }
    }
}

/// The route without its leading `/`.
pub open spec fn route_tail(route: Seq<char>) -> Seq<char> {
    if route.len() > 0 && route[0] == '/' {
        route.drop_first()
    } else {
        route
    }
}

/// The segments of the file a route names under the public directory; none
/// when the route would escape it.
pub open spec fn public_path_spec(route: Seq<char>) -> Option<Seq<Seq<char>>> {
    resolve_segments(split_spec(route_tail(route), '/'))
}

/// A segment that names an entry of a directory: not empty, not `.`, not `..`.
pub open spec fn plain_segment(s: Seq<char>) -> bool {
    s.len() > 0 && s != "."@ && s != ".."@
}

proof fn lemma_resolved_segments_are_plain(segs: Seq<Seq<char>>)
    ensures
        resolve_segments(segs) matches Some(p) ==> forall|i: int|
            0 <= i < p.len() ==> plain_segment(#[trigger] p[i]),
    decreases segs.len(),
{
    if segs.len() > 0 {
        lemma_resolved_segments_are_plain(segs.drop_last());
        if let Some(acc) = resolve_segments(segs.drop_last()) {
            let s = segs.last();
            if !(s.len() == 0 || s == "."@) && s == ".."@ && acc.len() > 0 {
                assert forall|i: int| 0 <= i < acc.drop_last().len() implies plain_segment(
                    #[trigger] acc.drop_last()[i],
                ) by {
                    assert(acc.drop_last()[i] == acc[i]);
                }
            }
        }
    }
}

/// A route never resolves above the public directory: every segment of the
/// file it names is an entry name, neither empty nor `.` nor `..`.
pub proof fn lemma_public_path_stays_inside(route: Seq<char>)
    ensures
        public_path_spec(route) matches Some(p) ==> forall|i: int|
            0 <= i < p.len() ==> plain_segment(#[trigger] p[i]),
{
    lemma_resolved_segments_are_plain(split_spec(route_tail(route), '/'));
}

proof fn lemma_escape_is_final(segs: Seq<Seq<char>>, i: int)
    requires
        0 <= i <= segs.len(),
        resolve_segments(segs.take(i)) is None,
    ensures
        resolve_segments(segs) is None,
    decreases segs.len() - i,
{
    if i < segs.len() {
        assert(segs.take(i + 1).drop_last() == segs.take(i));
        lemma_escape_is_final(segs, i + 1);
    } else {
        assert(segs.take(i) == segs);
    }
}

/// The character strings of a list of character vectors.
pub open spec fn segments_view(v: Seq<Vec<char>>) -> Seq<Seq<char>> {
    Seq::new(v.len(), |k: int| v[k]@)
}

/// The string views of a list of strings.
pub open spec fn strings_of(v: Seq<String>) -> Seq<Seq<char>> {
    Seq::new(v.len(), |k: int| v[k]@)
}

/// The segments of the file `route` names under the public directory, in
/// order; `None` when the route would climb above it.
pub fn public_path(route: &str) -> (r: Option<Vec<String>>)
    ensures
        match r {
            Some(p) => public_path_spec(route@) == Some(strings_of(p@)),
            None => public_path_spec(route@) is None,
        },
{
    let cs = chars_of(route);
    let mut tail: Vec<char> = Vec::new();
    let start: usize = if cs.len() > 0 && cs[0] == '/' {
        1
    } else {
        0
    };
    let mut i: usize = start;
    while i < cs.len()
        invariant
            start <= i <= cs@.len(),
            tail@ == cs@.subrange(start as int, i as int),
        decreases cs.len() - i,
    {
        tail.push(cs[i]);
        assert(cs@.subrange(start as int, i + 1) == cs@.subrange(start as int, i as int).push(
            cs@[i as int],
        ));
        i += 1;
    }
    assert(tail@ == route_tail(route@));
    let pieces = split_chars(&tail, '/');
    let ghost segs = split_spec(tail@, '/');
    let mut acc: Vec<Vec<char>> = Vec::new();
    let mut j: usize = 0;
    assert(segs.take(0) =~= Seq::<Seq<char>>::empty());
    assert(segments_view(acc@) =~= Seq::<Seq<char>>::empty());
    while j < pieces.len()
        invariant
            j <= pieces@.len(),
            pieces@.len() == segs.len(),
            segs == split_spec(route_tail(route@), '/'),
            forall|k: int| 0 <= k < pieces@.len() ==> (#[trigger] pieces@[k])@ == segs[k],
            resolve_segments(segs.take(j as int)) == Some(segments_view(acc@)),
        decreases pieces.len() - j,
    {
        let ghost before = segments_view(acc@);
        assert(segs.take(j + 1).drop_last() == segs.take(j as int));
        assert(segs.take(j + 1).last() == segs[j as int]);
        let seg = string_from_chars(&pieces[j]);
        if seg.as_str().is_empty() || str_eq(seg.as_str(), ".") {
        } else if str_eq(seg.as_str(), "..") {
            if acc.len() == 0 {
                proof {
                    lemma_escape_is_final(segs, j + 1);
                }
                return None;
            }
            acc.pop();
            assert(segments_view(acc@) =~= before.drop_last());
        } else {
            let copy = chars_of(seg.as_str());
            acc.push(copy);
            assert(segments_view(acc@) =~= before.push(segs[j as int]));
        }
        j += 1;
    }
    assert(segs.take(segs.len() as int) == segs);
    let mut out: Vec<String> = Vec::new();
    let mut k: usize = 0;
    while k < acc.len()
        invariant
            k <= acc@.len(),
            strings_of(out@) == segments_view(acc@).take(k as int),
        decreases acc.len() - k,
    {
        let ghost before = strings_of(out@);
        out.push(string_from_chars(&acc[k]));
        assert(strings_of(out@) =~= before.push(acc@[k as int]@));
        assert(segments_view(acc@).take(k + 1) =~= segments_view(acc@).take(k as int).push(
            acc@[k as int]@,
        ));
        k += 1;
    }
    assert(segments_view(acc@).take(acc@.len() as int) =~= segments_view(acc@));
    Some(out)
}

} // verus!
