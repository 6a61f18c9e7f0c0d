//! Debug overlay: whether it is shown, the maze graph drawn as few long lines,
//! the node nearest the cursor and the layout of the timing panel.

use vstd::prelude::*;

use crate::ghost::targeting::{find_nearest_node, spec_is_nearest, spec_target_in_range, Point, TargetPoint};
use crate::layout::{spec_rect, Rect};
use crate::state::stage::NodeId;

verus! {

/// Whether the debug overlay is shown.
#[derive(Debug, Default, Clone, Copy, PartialEq, Eq, Structural)]
pub struct DebugState {
    pub enabled: bool,
}

/// A segment along one axis, from `.0` to `.1`.
pub type Segment = (i32, i32);

/// The segments sorted by start, stably: each one goes after those before it
/// that start no later.
pub open spec fn spec_insert_sorted(s: Seq<Segment>, x: Segment) -> Seq<Segment>
    decreases s.len(),
{
    if s.len() == 0 {
        seq![x]
    } else if s.last().0 <= x.0 {
        s.push(x)
    } else {
        spec_insert_sorted(s.drop_last(), x).push(s.last())
    }
}

/// The segments sorted by start (stable insertion order).
pub open spec fn spec_sort_segments(s: Seq<Segment>) -> Seq<Segment>
    decreases s.len(),
{
    if s.len() == 0 {
        seq![]
    } else {
        spec_insert_sorted(spec_sort_segments(s.drop_last()), s.last())
    }
}

/// Whether segments are in order of their starts.
pub open spec fn spec_sorted_by_start(s: Seq<Segment>) -> bool {
    forall|i: int, j: int| 0 <= i < j < s.len() ==> s[i].0 <= s[j].0
}

proof fn lemma_insert_sorted(s: Seq<Segment>, x: Segment)
    requires
        spec_sorted_by_start(s),
    ensures
        spec_sorted_by_start(spec_insert_sorted(s, x)),
        spec_insert_sorted(s, x).to_multiset() == s.to_multiset().insert(x),
        spec_insert_sorted(s, x).len() == s.len() + 1,
        forall|i: int| 0 <= i < spec_insert_sorted(s, x).len() ==> (#[trigger] spec_insert_sorted(s, x)[i]) == x || (
            exists|j: int| 0 <= j < s.len() && s[j] == spec_insert_sorted(s, x)[i]),
    decreases s.len(),
{
    broadcast use vstd::seq_lib::group_to_multiset_ensures;
    if s.len() == 0 {
        assert(seq![x] =~= Seq::<Segment>::empty().push(x));
    } else if s.last().0 <= x.0 {
        let r = s.push(x);
        assert forall|i: int, j: int| 0 <= i < j < r.len() implies r[i].0 <= r[j].0 by {
            if j == r.len() - 1 {
                assert(s[i].0 <= s.last().0);
            }
        }
        assert forall|i: int| 0 <= i < r.len() implies (#[trigger] r[i]) == x || (exists|j: int|
            0 <= j < s.len() && s[j] == r[i]) by {
            if i < s.len() {
                assert(s[i] == r[i]);
            }
        }
    } else {
        let init = s.drop_last();
        assert(spec_sorted_by_start(init));
        lemma_insert_sorted(init, x);
        let t = spec_insert_sorted(init, x);
        let r = t.push(s.last());
        assert(s =~= init.push(s.last()));
        assert forall|i: int, j: int| 0 <= i < j < r.len() implies r[i].0 <= r[j].0 by {
            assert(r[i] == t[i]);
            if j == r.len() - 1 {
                if t[i] == x {
                    assert(x.0 < s.last().0);
                } else {
                    let k = choose|k: int| 0 <= k < init.len() && init[k] == t[i];
                    assert(s[k] == init[k]);
                    assert(s[k].0 <= s[s.len() - 1].0);
                }
            }
        }
        assert forall|i: int| 0 <= i < r.len() implies (#[trigger] r[i]) == x || (exists|j: int|
            0 <= j < s.len() && s[j] == r[i]) by {
            if i == r.len() - 1 {
                assert(s[s.len() - 1] == r[i]);
            } else if t[i] != x {
                let k = choose|k: int| 0 <= k < init.len() && init[k] == t[i];
                assert(s[k] == r[i]);
            }
        }
        assert(r.to_multiset() == t.to_multiset().insert(s.last()));
        assert(t.to_multiset() == init.to_multiset().insert(x));
        assert(s.to_multiset() == init.to_multiset().insert(s.last()));
        assert(r.to_multiset() =~= s.to_multiset().insert(x));
    }
}

/// Sorting by start orders the segments and keeps every one of them.
pub proof fn lemma_sort_segments(s: Seq<Segment>)
    ensures
        spec_sorted_by_start(spec_sort_segments(s)),
        spec_sort_segments(s).to_multiset() == s.to_multiset(),
        spec_sort_segments(s).len() == s.len(),
    decreases s.len(),
{
    broadcast use vstd::seq_lib::group_to_multiset_ensures;
    if s.len() > 0 {
        lemma_sort_segments(s.drop_last());
        lemma_insert_sorted(spec_sort_segments(s.drop_last()), s.last());
        assert(s =~= s.drop_last().push(s.last()));
    }
}

fn insert_sorted(v: &mut Vec<Segment>, x: Segment)
    ensures
        final(v)@ == spec_insert_sorted(old(v)@, x),
    decreases old(v)@.len(),
{
    if v.len() == 0 {
        v.push(x);
        proof {
            assert(v@ =~= seq![x]);
        }
        return;
    }
    let last = v[v.len() - 1];
    if last.0 <= x.0 {
        v.push(x);
        return;
    }
    let ghost s = v@;
    let popped = v.pop();
    proof {
        assert(v@ == s.drop_last());
    }
    insert_sorted(v, x);
    v.push(last);
}

/// Sorts segments by start, keeping the order of segments that start together.
pub fn sort_segments(segments: &Vec<Segment>) -> (r: Vec<Segment>)
    ensures
        r@ == spec_sort_segments(segments@),
        spec_sorted_by_start(r@),
        r@.to_multiset() == segments@.to_multiset(),
{
    let mut out: Vec<Segment> = Vec::new();
    let mut i: usize = 0;
    while i < segments.len()
        invariant
            0 <= i <= segments.len(),
            out@ == spec_sort_segments(segments@.subrange(0, i as int)),
        decreases segments.len() - i,
    {
        proof {
            assert(segments@.subrange(0, i + 1).drop_last() =~= segments@.subrange(0, i as int));
        }
        insert_sorted(&mut out, segments[i]);
        i = i + 1;
    }
    proof {
        assert(segments@.subrange(0, segments.len() as int) =~= segments@);
        lemma_sort_segments(segments@);
    }
    out
}

/// The state of merging after the first `k` segments (`k >= 1`): the lines
/// closed so far and the line still growing.
pub open spec fn spec_merge_state(s: Seq<Segment>, k: nat) -> (Seq<Segment>, Segment)
    decreases k,
{
    if k <= 1 {
        (seq![], s[0])
    } else {
        let (done, cur) = spec_merge_state(s, (k - 1) as nat);
        let next = s[k - 1];
        if next.0 <= cur.1 + 1 {
            (done, (cur.0, if cur.1 >= next.1 { cur.1 } else { next.1 }))
        } else {
            (done.push(cur), next)
        }
    }
}

/// Segments merged in order: each one that starts at most one past the end of
/// the growing line extends it; any other closes the line and starts the next.
pub open spec fn spec_merge(s: Seq<Segment>) -> Seq<Segment> {
    if s.len() == 0 {
        seq![]
    } else {
        let (done, cur) = spec_merge_state(s, s.len());
        done.push(cur)
    }
}

/// Whether every segment runs forwards.
pub open spec fn spec_forwards(s: Seq<Segment>) -> bool {
    forall|i: int| 0 <= i < s.len() ==> (#[trigger] s[i]).0 <= s[i].1
}

/// Whether lines are in order with a gap of at least one between neighbours.
pub open spec fn spec_separated(s: Seq<Segment>) -> bool {
    forall|i: int| 0 <= i < s.len() - 1 ==> (#[trigger] s[i]).1 + 1 < s[i + 1].0
}

proof fn lemma_merge_state_separated(s: Seq<Segment>, k: nat)
    requires
        1 <= k <= s.len(),
        spec_sorted_by_start(s),
        spec_forwards(s),
        spec_ends_below_max(s),
    ensures
        ({
            let (done, cur) = spec_merge_state(s, k);
            &&& spec_separated(done)
            &&& spec_forwards(done)
            &&& cur.0 <= cur.1
            &&& cur.0 <= s[k - 1].0
            &&& (done.len() > 0 ==> done.last().1 + 1 < cur.0)
        }),
    decreases k,
{
    if k > 1 {
        lemma_merge_state_separated(s, (k - 1) as nat);
        let (done, cur) = spec_merge_state(s, (k - 1) as nat);
        let next = s[k - 1];
        assert(s[k - 2].0 <= next.0);
        if next.0 <= cur.1 + 1 {
        } else {
            let d2 = done.push(cur);
            assert forall|i: int| 0 <= i < d2.len() - 1 implies (#[trigger] d2[i]).1 + 1 < d2[i + 1].0 by {
                if i < done.len() - 1 {
                    assert(d2[i] == done[i] && d2[i + 1] == done[i + 1]);
                } else {
                    assert(d2[i] == done.last());
                }
            }
            assert forall|i: int| 0 <= i < d2.len() implies (#[trigger] d2[i]).0 <= d2[i].1 by {
                if i < done.len() {
                    assert(d2[i] == done[i]);
                }
            }
        }
    }
}

/// Merging segments sorted by start gives forward lines in order, each at
/// least one apart from the next: no two could have been merged further.
pub proof fn lemma_merge_separated(s: Seq<Segment>)
    requires
        spec_sorted_by_start(s),
        spec_forwards(s),
        spec_ends_below_max(s),
    ensures
        spec_separated(spec_merge(s)),
        spec_forwards(spec_merge(s)),
{
    if s.len() > 0 {
        lemma_merge_state_separated(s, s.len());
        let (done, cur) = spec_merge_state(s, s.len());
        let m = done.push(cur);
        assert forall|i: int| 0 <= i < m.len() - 1 implies (#[trigger] m[i]).1 + 1 < m[i + 1].0 by {
            if i < done.len() - 1 {
                assert(m[i] == done[i] && m[i + 1] == done[i + 1]);
            } else {
                assert(m[i] == done.last());
            }
        }
        assert forall|i: int| 0 <= i < m.len() implies (#[trigger] m[i]).0 <= m[i].1 by {
            if i < done.len() {
                assert(m[i] == done[i]);
            }
        }
    }
}

/// Whether no segment ends at the largest `i32` (so "one past the end" exists).
pub open spec fn spec_ends_below_max(s: Seq<Segment>) -> bool {
    forall|i: int| 0 <= i < s.len() ==> (#[trigger] s[i]).1 < i32::MAX
}

/// Merges overlapping or adjacent segments, in the order given, into
/// continuous lines; see `spec_merge`.
pub fn merge_segments(segments: &Vec<Segment>) -> (r: Vec<Segment>)
    requires
        spec_ends_below_max(segments@),
    ensures
        r@ == spec_merge(segments@),
{
    let mut merged: Vec<Segment> = Vec::new();
    if segments.len() == 0 {
        return merged;
    }
    let mut current_start = segments[0].0;
    let mut current_end = segments[0].1;
    let mut i: usize = 1;
    while i < segments.len()
        invariant
            1 <= i <= segments.len(),
            spec_ends_below_max(segments@),
            (merged@, (current_start, current_end)) == spec_merge_state(segments@, i as nat),
            exists|j: int| 0 <= j < i && segments@[j].1 == current_end,
        decreases segments.len() - i,
    {
        let (start, end) = segments[i];
        if start <= current_end + 1 {
            if end > current_end {
                current_end = end;
            }
        } else {
            merged.push((current_start, current_end));
            current_start = start;
            current_end = end;
        }
        i = i + 1;
    }
    merged.push((current_start, current_end));
    merged
}

/// The key of an edge, the same in both directions.
pub open spec fn spec_edge_key(e: (NodeId, NodeId)) -> (NodeId, NodeId) {
    if e.0 <= e.1 { (e.0, e.1) } else { (e.1, e.0) }
}

/// The edges with a key not seen earlier in the list.
pub open spec fn spec_unique_edges(edges: Seq<(NodeId, NodeId)>) -> Seq<(NodeId, NodeId)>
    decreases edges.len(),
{
    if edges.len() == 0 {
        seq![]
    } else {
        let rest = spec_unique_edges(edges.drop_last());
        if exists|j: int| 0 <= j < edges.len() - 1 && spec_edge_key(#[trigger] edges[j]) == spec_edge_key(edges.last()) {
            rest
        } else {
            rest.push(edges.last())
        }
    }
}

/// The absolute difference of two coordinates.
pub open spec fn spec_abs_diff(a: i32, b: i32) -> int {
    if a >= b { a - b } else { b - a }
}

/// The ordered pair of two coordinates.
pub open spec fn spec_span(a: i32, b: i32) -> Segment {
    if a <= b { (a, b) } else { (b, a) }
}

/// The horizontal and vertical pieces of the edges: an edge whose ends differ
/// by less than two pixels vertically lies on the row of its start; otherwise,
/// one whose ends differ by less than two horizontally lies on the column of its
/// start; others are dropped.
pub open spec fn spec_pieces(edges: Seq<(NodeId, NodeId)>, points: Seq<(i32, i32)>, horizontal: bool) -> Seq<(i32, Segment)>
    decreases edges.len(),
{
    if edges.len() == 0 {
        seq![]
    } else {
        let rest = spec_pieces(edges.drop_last(), points, horizontal);
        let (a, b) = edges.last();
        let s = points[a as int];
        let t = points[b as int];
        if spec_abs_diff(s.1, t.1) < 2 {
            if horizontal { rest.push((s.1, spec_span(s.0, t.0))) } else { rest }
        } else if spec_abs_diff(s.0, t.0) < 2 {
            if horizontal { rest } else { rest.push((s.0, spec_span(s.1, t.1))) }
        } else {
            rest
        }
    }
}

/// The distinct keys of the pieces, in order of first appearance.
pub open spec fn spec_keys(pieces: Seq<(i32, Segment)>) -> Seq<i32>
    decreases pieces.len(),
{
    if pieces.len() == 0 {
        seq![]
    } else {
        let rest = spec_keys(pieces.drop_last());
        if rest.contains(pieces.last().0) { rest } else { rest.push(pieces.last().0) }
    }
}

/// The segments of the pieces on line `k`, in order.
pub open spec fn spec_group(pieces: Seq<(i32, Segment)>, k: i32) -> Seq<Segment>
    decreases pieces.len(),
{
    if pieces.len() == 0 {
        seq![]
    } else {
        let rest = spec_group(pieces.drop_last(), k);
        if pieces.last().0 == k { rest.push(pieces.last().1) } else { rest }
    }
}

/// The merged lines of one line key.
pub open spec fn spec_key_lines(pieces: Seq<(i32, Segment)>, k: i32) -> Seq<(i32, i32, i32)> {
    spec_merge(spec_sort_segments(spec_group(pieces, k))).map_values(|m: Segment| (k, m.0, m.1))
}

/// The merged lines of the given keys, key by key.
pub open spec fn spec_lines(pieces: Seq<(i32, Segment)>, keys: Seq<i32>) -> Seq<(i32, i32, i32)>
    decreases keys.len(),
{
    if keys.len() == 0 {
        seq![]
    } else {
        spec_lines(pieces, keys.drop_last()) + spec_key_lines(pieces, keys.last())
    }
}

/// The batched lines of a graph's edges along one axis.
pub open spec fn spec_batched(edges: Seq<(NodeId, NodeId)>, points: Seq<(i32, i32)>, horizontal: bool) -> Seq<(i32, i32, i32)> {
    let pieces = spec_pieces(spec_unique_edges(edges), points, horizontal);
    spec_lines(pieces, spec_keys(pieces))
}

/// Whether every edge end has a point and the points are small enough for the
/// line arithmetic.
pub open spec fn spec_graph_ok(edges: Seq<(NodeId, NodeId)>, points: Seq<(i32, i32)>) -> bool {
    &&& forall|i: int| 0 <= i < edges.len() ==> ((#[trigger] edges[i]).0 as int) < points.len() && (edges[i].1 as int) < points.len()
    &&& forall|i: int| 0 <= i < points.len() ==> -0x4000_0000 <= (#[trigger] points[i]).0 <= 0x4000_0000 && -0x4000_0000 <= points[i].1 <= 0x4000_0000
}

fn unique_edges(edges: &Vec<(NodeId, NodeId)>) -> (r: Vec<(NodeId, NodeId)>)
    ensures
        r@ == spec_unique_edges(edges@),
        forall|i: int| 0 <= i < r@.len() ==> exists|j: int| 0 <= j < edges@.len() && edges@[j] == #[trigger] r@[i],
{
    let mut seen: Vec<(NodeId, NodeId)> = Vec::new();
    let mut out: Vec<(NodeId, NodeId)> = Vec::new();
    let mut i: usize = 0;
    while i < edges.len()
        invariant
            0 <= i <= edges.len(),
            out@ == spec_unique_edges(edges@.subrange(0, i as int)),
            seen@.len() == i,
            forall|j: int| 0 <= j < i ==> #[trigger] seen@[j] == spec_edge_key(edges@[j]),
            forall|k: int| 0 <= k < out@.len() ==> exists|j: int| 0 <= j < i && edges@[j] == #[trigger] out@[k],
        decreases edges.len() - i,
    {
        let (a, b) = edges[i];
        let key: (NodeId, NodeId) = if a <= b { (a, b) } else { (b, a) };
        let mut found = false;
        let mut k: usize = 0;
        while k < seen.len()
            invariant
                0 <= k <= seen.len(),
                seen@.len() == i,
                found == exists|j: int| 0 <= j < k && seen@[j] == key,
            decreases seen.len() - k,
        {
            if seen[k].0 == key.0 && seen[k].1 == key.1 {
                found = true;
            }
            k = k + 1;
        }
        proof {
            let pre = edges@.subrange(0, i + 1);
            assert(pre.drop_last() =~= edges@.subrange(0, i as int));
            assert(pre.last() == edges@[i as int]);
            assert(key == spec_edge_key(edges@[i as int]));
            assert(found == exists|j: int| 0 <= j < pre.len() - 1 && spec_edge_key(#[trigger] pre[j]) == spec_edge_key(pre.last())) by {
                if found {
                    let j = choose|j: int| 0 <= j < i && seen@[j] == key;
                    assert(pre[j] == edges@[j]);
                }
                if exists|j: int| 0 <= j < pre.len() - 1 && spec_edge_key(#[trigger] pre[j]) == spec_edge_key(pre.last()) {
                    let j = choose|j: int| 0 <= j < pre.len() - 1 && spec_edge_key(#[trigger] pre[j]) == spec_edge_key(pre.last());
                    assert(pre[j] == edges@[j]);
                    assert(seen@[j] == key);
                }
            }
        }
        if !found {
            out.push((a, b));
        }
        seen.push(key);
        i = i + 1;
    }
    proof {
        assert(edges@.subrange(0, edges.len() as int) =~= edges@);
    }
    out
}

fn abs_diff(a: i32, b: i32) -> (r: i64)
    ensures
        r == spec_abs_diff(a, b),
{
    if a >= b { a as i64 - b as i64 } else { b as i64 - a as i64 }
}

fn span(a: i32, b: i32) -> (r: Segment)
    ensures
        r == spec_span(a, b),
{
    if a <= b { (a, b) } else { (b, a) }
}

fn pieces(edges: &Vec<(NodeId, NodeId)>, points: &Vec<(i32, i32)>, horizontal: bool) -> (r: Vec<(i32, Segment)>)
    requires
        spec_graph_ok(edges@, points@),
    ensures
        r@ == spec_pieces(edges@, points@, horizontal),
        forall|i: int| 0 <= i < r@.len() ==> (#[trigger] r@[i]).1.1 <= 0x4000_0000,
{
    let mut out: Vec<(i32, Segment)> = Vec::new();
    let mut i: usize = 0;
    while i < edges.len()
        invariant
            0 <= i <= edges.len(),
            spec_graph_ok(edges@, points@),
            out@ == spec_pieces(edges@.subrange(0, i as int), points@, horizontal),
            forall|i: int| 0 <= i < out@.len() ==> (#[trigger] out@[i]).1.1 <= 0x4000_0000,
        decreases edges.len() - i,
    {
        proof {
            assert(edges@.subrange(0, i + 1).drop_last() =~= edges@.subrange(0, i as int));
            assert(edges@.subrange(0, i + 1).last() == edges@[i as int]);
        }
        let (a, b) = edges[i];
        let s = points[a as usize];
        let t = points[b as usize];
        proof {
            assert(points@[a as int] == s && points@[b as int] == t);
        }
        if abs_diff(s.1, t.1) < 2 {
            if horizontal {
                out.push((s.1, span(s.0, t.0)));
            }
        } else if abs_diff(s.0, t.0) < 2 {
            if !horizontal {
                out.push((s.0, span(s.1, t.1)));
            }
        }
        i = i + 1;
    }
    proof {
        assert(edges@.subrange(0, edges.len() as int) =~= edges@);
    }
    out
}

fn keys(pieces: &Vec<(i32, Segment)>) -> (r: Vec<i32>)
    ensures
        r@ == spec_keys(pieces@),
{
    let mut out: Vec<i32> = Vec::new();
    let mut i: usize = 0;
    while i < pieces.len()
        invariant
            0 <= i <= pieces.len(),
            out@ == spec_keys(pieces@.subrange(0, i as int)),
        decreases pieces.len() - i,
    {
        proof {
            assert(pieces@.subrange(0, i + 1).drop_last() =~= pieces@.subrange(0, i as int));
            assert(pieces@.subrange(0, i + 1).last() == pieces@[i as int]);
        }
        let k = pieces[i].0;
        let mut found = false;
        let mut j: usize = 0;
        while j < out.len()
            invariant
                0 <= j <= out.len(),
                found == exists|m: int| 0 <= m < j && out@[m] == k,
            decreases out.len() - j,
        {
            if out[j] == k {
                found = true;
            }
            j = j + 1;
        }
        if !found {
            out.push(k);
        }
        i = i + 1;
    }
    proof {
        assert(pieces@.subrange(0, pieces.len() as int) =~= pieces@);
    }
    out
}

fn group(pieces: &Vec<(i32, Segment)>, k: i32) -> (r: Vec<Segment>)
    ensures
        r@ == spec_group(pieces@, k),
        forall|i: int| 0 <= i < r@.len() ==> exists|j: int| 0 <= j < pieces@.len() && pieces@[j].1 == #[trigger] r@[i],
{
    let mut out: Vec<Segment> = Vec::new();
    let mut i: usize = 0;
    while i < pieces.len()
        invariant
            0 <= i <= pieces.len(),
            out@ == spec_group(pieces@.subrange(0, i as int), k),
            forall|m: int| 0 <= m < out@.len() ==> exists|j: int| 0 <= j < i && pieces@[j].1 == #[trigger] out@[m],
        decreases pieces.len() - i,
    {
        proof {
            assert(pieces@.subrange(0, i + 1).drop_last() =~= pieces@.subrange(0, i as int));
            assert(pieces@.subrange(0, i + 1).last() == pieces@[i as int]);
        }
        if pieces[i].0 == k {
            out.push(pieces[i].1);
        }
        i = i + 1;
    }
    proof {
        assert(pieces@.subrange(0, pieces.len() as int) =~= pieces@);
    }
    out
}

fn key_lines(pieces: &Vec<(i32, Segment)>, k: i32) -> (r: Vec<(i32, i32, i32)>)
    requires
        forall|i: int| 0 <= i < pieces@.len() ==> (#[trigger] pieces@[i]).1.1 <= 0x4000_0000,
    ensures
        r@ == spec_key_lines(pieces@, k),
{
    broadcast use vstd::seq_lib::group_to_multiset_ensures;
    let g = group(pieces, k);
    let sorted = sort_segments(&g);
    proof {
        assert forall|i: int| 0 <= i < sorted@.len() implies (#[trigger] sorted@[i]).1 < i32::MAX by {
            assert(sorted@.contains(sorted@[i]));
            assert(sorted@.to_multiset().count(sorted@[i]) > 0);
            assert(g@.contains(sorted@[i]));
            let m = choose|m: int| 0 <= m < g@.len() && g@[m] == sorted@[i];
            let j = choose|j: int| 0 <= j < pieces@.len() && pieces@[j].1 == #[trigger] g@[m];
        }
    }
    let merged = merge_segments(&sorted);
    let mut out: Vec<(i32, i32, i32)> = Vec::new();
    let mut i: usize = 0;
    while i < merged.len()
        invariant
            0 <= i <= merged.len(),
            out@ == merged@.subrange(0, i as int).map_values(|m: Segment| (k, m.0, m.1)),
        decreases merged.len() - i,
    {
        let (a, b) = merged[i];
        out.push((k, a, b));
        proof {
            assert(out@ =~= merged@.subrange(0, i + 1).map_values(|m: Segment| (k, m.0, m.1)));
        }
        i = i + 1;
    }
    proof {
        assert(merged@.subrange(0, merged.len() as int) =~= merged@);
    }
    out
}

fn lines(pieces: &Vec<(i32, Segment)>, keys: &Vec<i32>) -> (r: Vec<(i32, i32, i32)>)
    requires
        forall|i: int| 0 <= i < pieces@.len() ==> (#[trigger] pieces@[i]).1.1 <= 0x4000_0000,
    ensures
        r@ == spec_lines(pieces@, keys@),
{
    let mut out: Vec<(i32, i32, i32)> = Vec::new();
    let mut i: usize = 0;
    while i < keys.len()
        invariant
            0 <= i <= keys.len(),
            forall|i: int| 0 <= i < pieces@.len() ==> (#[trigger] pieces@[i]).1.1 <= 0x4000_0000,
            out@ == spec_lines(pieces@, keys@.subrange(0, i as int)),
        decreases keys.len() - i,
    {
        proof {
            assert(keys@.subrange(0, i + 1).drop_last() =~= keys@.subrange(0, i as int));
            assert(keys@.subrange(0, i + 1).last() == keys@[i as int]);
        }
        let mut more = key_lines(pieces, keys[i]);
        out.append(&mut more);
        i = i + 1;
    }
    proof {
        assert(keys@.subrange(0, keys.len() as int) =~= keys@);
    }
    out
}

/// The maze graph's edges as few long lines: each edge once (whichever
/// direction comes first), horizontal and vertical pieces grouped by row and
/// column, sorted and merged where they touch or overlap.
#[derive(Debug, Clone)]
pub struct BatchedLinesResource {
    horizontal_lines: Vec<(i32, i32, i32)>,
    vertical_lines: Vec<(i32, i32, i32)>,
}

impl BatchedLinesResource {
    /// Horizontal lines as (row, first column, last column).
    pub closed spec fn spec_horizontal(self) -> Seq<(i32, i32, i32)> {
        self.horizontal_lines@
    }

    /// Vertical lines as (column, first row, last row).
    pub closed spec fn spec_vertical(self) -> Seq<(i32, i32, i32)> {
        self.vertical_lines@
    }

    /// Batches the edges (start node, end node) of a graph whose nodes are
    /// drawn at `points`, in window pixels.
    pub fn new(edges: &Vec<(NodeId, NodeId)>, points: &Vec<(i32, i32)>) -> (r: Self)
        requires
            spec_graph_ok(edges@, points@),
        ensures
            r.spec_horizontal() == spec_batched(edges@, points@, true),
            r.spec_vertical() == spec_batched(edges@, points@, false),
    {
        let unique = unique_edges(edges);
        proof {
            assert forall|i: int| 0 <= i < unique@.len() implies ((#[trigger] unique@[i]).0 as int) < points@.len() && (unique@[i].1 as int) < points@.len() by {
                let j = choose|j: int| 0 <= j < edges@.len() && edges@[j] == #[trigger] unique@[i];
            }
        }
        let h = pieces(&unique, points, true);
        let v = pieces(&unique, points, false);
        let hk = keys(&h);
        let vk = keys(&v);
        BatchedLinesResource { horizontal_lines: lines(&h, &hk), vertical_lines: lines(&v, &vk) }
    }

    /// Horizontal lines as (row, first column, last column).
    pub fn horizontal_lines(&self) -> (r: &Vec<(i32, i32, i32)>)
        ensures
            r@ == self.spec_horizontal(),
    {
        &self.horizontal_lines
    }

    /// Vertical lines as (column, first row, last row).
    pub fn vertical_lines(&self) -> (r: &Vec<(i32, i32, i32)>)
        ensures
            r@ == self.spec_vertical(),
    {
        &self.vertical_lines
    }
}

impl Default for BatchedLinesResource {
    fn default() -> (r: Self)
        ensures
            r.spec_horizontal() == Seq::<(i32, i32, i32)>::empty(),
            r.spec_vertical() == Seq::<(i32, i32, i32)>::empty(),
    {
        BatchedLinesResource { horizontal_lines: Vec::new(), vertical_lines: Vec::new() }
    }
}

/// The node nearest the cursor, if there is a cursor and a node; see
/// `find_nearest_node`.
pub fn closest_node(positions: &Vec<Point>, cursor: Option<Point>) -> (r: Option<NodeId>)
    ensures
        (cursor is None || positions@.len() == 0) ==> r is None,
        cursor matches Some(c) ==> positions@.len() > 0 ==> exists|i: int|
            #[trigger] spec_is_nearest(positions@, TargetPoint { x: c.x as i64, y: c.y as i64 }, i) && r == Some(i as u16),
{
    match cursor {
        None => None,
        Some(c) => if positions.len() == 0 {
            None
        } else {
            Some(find_nearest_node(positions, TargetPoint { x: c.x as i64, y: c.y as i64 }))
        },
    }
}

/// Left and top margin of the timing panel's text.
pub const TIMING_PADDING: i32 = 10;

/// Margin of the panel's background around the text.
pub const TIMING_BG_PADDING: i32 = 5;

/// Where the timing panel goes: a background behind the text, when there is
/// any, and the row of each non-empty line.
#[derive(Debug, Clone)]
pub struct TimingPanel {
    pub background: Option<Rect>,
    /// (line index, top) of each line drawn.
    pub rows: Vec<(usize, i32)>,
}

/// The widest of the non-empty lines (0 when none).
pub open spec fn spec_max_width(lines: Seq<Option<u32>>) -> u32
    decreases lines.len(),
{
    if lines.len() == 0 {
        0
    } else {
        let w = spec_max_width(lines.drop_last());
        match lines.last() {
            Some(x) => if x > w { x } else { w },
            None => w,
        }
    }
}

/// The rows of the non-empty lines among the first `n`, a line height apart
/// from the top margin.
pub open spec fn spec_rows(lines: Seq<Option<u32>>, line_height: int) -> Seq<(usize, i32)>
    decreases lines.len(),
{
    if lines.len() == 0 {
        seq![]
    } else {
        let i = lines.len() - 1;
        let rest = spec_rows(lines.drop_last(), line_height);
        if lines.last() is Some {
            rest.push((i as usize, (TIMING_PADDING + i * line_height) as i32))
        } else {
            rest
        }
    }
}

/// Whether a line has text of some width.
pub open spec fn spec_has_width(line: Option<u32>) -> bool {
    match line {
        Some(w) => w > 0,
        None => false,
    }
}

proof fn lemma_max_width_witness(s: Seq<Option<u32>>)
    ensures
        spec_max_width(s) > 0 ==> exists|i: int| 0 <= i < s.len() && s[i] == Some(spec_max_width(s)),
    decreases s.len(),
{
    if s.len() > 0 {
        lemma_max_width_witness(s.drop_last());
        let w = spec_max_width(s.drop_last());
        if spec_max_width(s) > 0 && spec_max_width(s) == w {
            let i = choose|i: int| 0 <= i < s.drop_last().len() && s.drop_last()[i] == Some(w);
            assert(s[i] == Some(w));
        }
        if spec_max_width(s) > 0 && spec_max_width(s) != w {
            assert(s[s.len() - 1] == Some(spec_max_width(s)));
        }
    }
}

/// Lays out the timing panel for lines of the given widths (`None` for an
/// empty line) and text height: lines are the text height plus two apart; the
/// background spans the widest line and all lines, with a margin. The sizes must
/// stay within the integer types the panel is measured in.
pub fn timing_panel(lines: &Vec<Option<u32>>, text_height: u32) -> (r: TimingPanel)
    requires
        text_height + 2 <= i32::MAX,
        lines@.len() * (text_height + 2) <= u32::MAX,
        forall|i: int| 0 <= i < lines@.len() ==> ((#[trigger] lines@[i]) matches Some(w) ==> w + 2 * TIMING_BG_PADDING <= u32::MAX
            && TIMING_PADDING + i * (text_height + 2) <= i32::MAX),
        (exists|i: int| 0 <= i < lines@.len() && spec_has_width(#[trigger] lines@[i])) ==> lines@.len() * (
        text_height + 2) + TIMING_BG_PADDING <= u32::MAX,
    ensures
        ({
            let lh = text_height + 2;
            let max_w = spec_max_width(lines@);
            let total_h = lines@.len() * lh;
            &&& r.background == (if max_w > 0 && total_h > 0 {
                Some(spec_rect(
                    (TIMING_PADDING - TIMING_BG_PADDING) as i32,
                    (TIMING_PADDING - TIMING_BG_PADDING) as i32,
                    (max_w + 2 * TIMING_BG_PADDING) as u32,
                    (total_h + TIMING_BG_PADDING) as u32,
                ))
            } else {
                None
            })
            &&& r.rows@ == spec_rows(lines@, lh)
        }),
{
    let lh: u32 = text_height + 2;
    let mut max_w: u32 = 0;
    let mut rows: Vec<(usize, i32)> = Vec::new();
    let mut i: usize = 0;
    while i < lines.len()
        invariant
            0 <= i <= lines.len(),
            lh == text_height + 2,
            lh <= i32::MAX,
            lines@.len() * lh <= u32::MAX,
            forall|i: int| 0 <= i < lines@.len() ==> ((#[trigger] lines@[i]) matches Some(w) ==> w + 2 * TIMING_BG_PADDING <= u32::MAX
                && TIMING_PADDING + i * (text_height + 2) <= i32::MAX),
            max_w == spec_max_width(lines@.subrange(0, i as int)),
            max_w + 2 * TIMING_BG_PADDING <= u32::MAX,
            rows@ == spec_rows(lines@.subrange(0, i as int), lh as int),
        decreases lines.len() - i,
    {
        proof {
            assert(lines@.subrange(0, i + 1).drop_last() =~= lines@.subrange(0, i as int));
            assert(lines@.subrange(0, i + 1).last() == lines@[i as int]);
        }
        if let Some(w) = lines[i] {
            if w > max_w {
                max_w = w;
            }
            assert(TIMING_PADDING + i * (text_height + 2) <= i32::MAX) by {
                assert(lines@[i as int] matches Some(_));
            }
            assert(0 <= i * lh && i <= u32::MAX) by (nonlinear_arith)
                requires 0 <= i, 2 <= lh, i < lines@.len(), lines@.len() * lh <= u32::MAX;
            let yi: i64 = (i as i64) * (lh as i64);
            assert(yi == i * lh);
            rows.push((i, (TIMING_PADDING as i64 + yi) as i32));
        }
        i = i + 1;
    }
    proof {
        assert(lines@.subrange(0, lines.len() as int) =~= lines@);
        lemma_max_width_witness(lines@);
        if max_w > 0 {
            let k = choose|k: int| 0 <= k < lines@.len() && lines@[k] == Some(spec_max_width(lines@));
            assert(spec_has_width(lines@[k]));
        }
    }
    let total_h: u32 = ((lines.len() as u64) * (lh as u64)) as u32;
    let background = if max_w > 0 && total_h > 0 {
        Some(Rect::new(
            TIMING_PADDING - TIMING_BG_PADDING,
            TIMING_PADDING - TIMING_BG_PADDING,
            max_w + (2 * TIMING_BG_PADDING) as u32,
            total_h + TIMING_BG_PADDING as u32,
        ))
    } else {
        None
    };
    TimingPanel { background, rows }
}

/// Whether some segment of `s` covers the point `p`.
pub open spec fn spec_covers(s: Seq<Segment>, p: int) -> bool {
    exists|i: int| 0 <= i < s.len() && (#[trigger] s[i]).0 <= p <= s[i].1
}

proof fn lemma_covers_push(s: Seq<Segment>, x: Segment, p: int)
    ensures
        spec_covers(s.push(x), p) == (spec_covers(s, p) || (x.0 <= p <= x.1)),
{
    let t = s.push(x);
    if spec_covers(s, p) {
        let i = choose|i: int| 0 <= i < s.len() && (#[trigger] s[i]).0 <= p <= s[i].1;
        assert(t[i] == s[i]);
    }
    if x.0 <= p <= x.1 {
        assert(t[s.len() as int] == x);
    }
    if spec_covers(t, p) {
        let i = choose|i: int| 0 <= i < t.len() && (#[trigger] t[i]).0 <= p <= t[i].1;
        if i < s.len() {
            assert(t[i] == s[i]);
        }
    }
}

proof fn lemma_merge_state_covers(s: Seq<Segment>, k: nat, p: int)
    requires
        1 <= k <= s.len(),
        spec_sorted_by_start(s),
        spec_forwards(s),
        spec_ends_below_max(s),
    ensures
        ({
            let (done, cur) = spec_merge_state(s, k);
            (spec_covers(done, p) || (cur.0 <= p <= cur.1)) == spec_covers(s.subrange(0, k as int), p)
        }),
    decreases k,
{
    if k == 1 {
        assert(s.subrange(0, 1) =~= Seq::<Segment>::empty().push(s[0]));
        lemma_covers_push(Seq::<Segment>::empty(), s[0], p);
    } else {
        lemma_merge_state_covers(s, (k - 1) as nat, p);
        lemma_merge_state_separated(s, (k - 1) as nat);
        let (done, cur) = spec_merge_state(s, (k - 1) as nat);
        let next = s[k - 1];
        assert(s.subrange(0, k as int) =~= s.subrange(0, k - 1).push(next));
        lemma_covers_push(s.subrange(0, k - 1), next, p);
        if next.0 <= cur.1 + 1 {
        } else {
            lemma_covers_push(done, cur, p);
        }
    }
}

/// Merging segments sorted by start covers exactly the points they cover.
pub proof fn lemma_merge_covers(s: Seq<Segment>, p: int)
    requires
        spec_sorted_by_start(s),
        spec_forwards(s),
        spec_ends_below_max(s),
    ensures
        spec_covers(spec_merge(s), p) == spec_covers(s, p),
{
    if s.len() > 0 {
        lemma_merge_state_covers(s, s.len(), p);
        let (done, cur) = spec_merge_state(s, s.len());
        lemma_covers_push(done, cur, p);
        assert(s.subrange(0, s.len() as int) =~= s);
    }
}

proof fn lemma_same_elements_cover(a: Seq<Segment>, b: Seq<Segment>, p: int)
    requires
        a.to_multiset() == b.to_multiset(),
    ensures
        spec_covers(a, p) == spec_covers(b, p),
        forall|i: int| 0 <= i < a.len() ==> b.contains(#[trigger] a[i]),
{
    broadcast use vstd::seq_lib::group_to_multiset_ensures;
    assert forall|i: int| 0 <= i < a.len() implies b.contains(#[trigger] a[i]) by {
        assert(a.contains(a[i]));
        assert(a.to_multiset().count(a[i]) > 0);
    }
    if spec_covers(a, p) {
        let i = choose|i: int| 0 <= i < a.len() && (#[trigger] a[i]).0 <= p <= a[i].1;
        assert(a.contains(a[i]));
        assert(a.to_multiset().count(a[i]) > 0);
        assert(b.contains(a[i]));
        let j = choose|j: int| 0 <= j < b.len() && b[j] == a[i];
        assert(b[j].0 <= p <= b[j].1);
    }
    if spec_covers(b, p) {
        let i = choose|i: int| 0 <= i < b.len() && (#[trigger] b[i]).0 <= p <= b[i].1;
        assert(b.contains(b[i]));
        assert(b.to_multiset().count(b[i]) > 0);
        assert(a.contains(b[i]));
        let j = choose|j: int| 0 <= j < a.len() && a[j] == b[i];
        assert(a[j].0 <= p <= a[j].1);
    }
}

/// Whether piece `i` lies on line `k` and covers `p`.
pub open spec fn spec_piece_covers(pieces: Seq<(i32, Segment)>, k: i32, i: int, p: int) -> bool {
    pieces[i].0 == k && pieces[i].1.0 <= p <= pieces[i].1.1
}

proof fn lemma_group_covers(pieces: Seq<(i32, Segment)>, k: i32, p: int)
    ensures
        spec_covers(spec_group(pieces, k), p) == exists|i: int| 0 <= i < pieces.len() && #[trigger] spec_piece_covers(pieces, k, i, p),
        forall|i: int| 0 <= i < spec_group(pieces, k).len() ==> exists|j: int|
            0 <= j < pieces.len() && pieces[j].0 == k && pieces[j].1 == #[trigger] spec_group(pieces, k)[i],
    decreases pieces.len(),
{
    if pieces.len() > 0 {
        let init = pieces.drop_last();
        lemma_group_covers(init, k, p);
        let g0 = spec_group(init, k);
        let last = pieces.last();
        assert forall|i: int| 0 <= i < init.len() implies #[trigger] spec_piece_covers(init, k, i, p) == spec_piece_covers(pieces, k, i, p) by {
            assert(init[i] == pieces[i]);
        }
        if last.0 == k {
            lemma_covers_push(g0, last.1, p);
        }
        if exists|i: int| 0 <= i < pieces.len() && #[trigger] spec_piece_covers(pieces, k, i, p) {
            let i = choose|i: int| 0 <= i < pieces.len() && #[trigger] spec_piece_covers(pieces, k, i, p);
            if i < init.len() {
                assert(spec_piece_covers(init, k, i, p));
            }
        }
        if exists|i: int| 0 <= i < init.len() && #[trigger] spec_piece_covers(init, k, i, p) {
            let i = choose|i: int| 0 <= i < init.len() && #[trigger] spec_piece_covers(init, k, i, p);
            assert(spec_piece_covers(pieces, k, i, p));
        }
        if last.0 == k && last.1.0 <= p <= last.1.1 {
            assert(spec_piece_covers(pieces, k, pieces.len() - 1, p));
        }
        let g = spec_group(pieces, k);
        assert forall|i: int| 0 <= i < g.len() implies exists|j: int|
            0 <= j < pieces.len() && pieces[j].0 == k && pieces[j].1 == #[trigger] g[i] by {
            if i < g0.len() {
                assert(g[i] == g0[i]);
                let j = choose|j: int| 0 <= j < init.len() && init[j].0 == k && init[j].1 == #[trigger] g0[i];
                assert(pieces[j] == init[j]);
            } else {
                assert(g[i] == last.1);
                assert(pieces[pieces.len() - 1] == last);
            }
        }
    }
}

/// Whether every piece runs forwards and ends below the largest `i32`.
pub open spec fn spec_pieces_ok(pieces: Seq<(i32, Segment)>) -> bool {
    forall|i: int| 0 <= i < pieces.len() ==> (#[trigger] pieces[i]).1.0 <= pieces[i].1.1 && pieces[i].1.1 < i32::MAX
}

/// The lines of one row (or column) are in order, each at least one apart from
/// the next, and together cover exactly the points that the pieces on that row
/// cover.
pub proof fn lemma_key_lines(pieces: Seq<(i32, Segment)>, k: i32, p: int)
    requires
        spec_pieces_ok(pieces),
    ensures
        ({
            let lines = spec_merge(spec_sort_segments(spec_group(pieces, k)));
            &&& spec_separated(lines)
            &&& spec_forwards(lines)
            &&& spec_covers(lines, p) == exists|i: int| 0 <= i < pieces.len() && #[trigger] spec_piece_covers(pieces, k, i, p)
        }),
{
    let g = spec_group(pieces, k);
    let sorted = spec_sort_segments(g);
    lemma_group_covers(pieces, k, p);
    lemma_sort_segments(g);
    lemma_same_elements_cover(sorted, g, p);
    assert forall|i: int| 0 <= i < sorted.len() implies (#[trigger] sorted[i]).0 <= sorted[i].1 && sorted[i].1 < i32::MAX by {
        assert(g.contains(sorted[i]));
        let m = choose|m: int| 0 <= m < g.len() && g[m] == sorted[i];
        let j = choose|j: int| 0 <= j < pieces.len() && pieces[j].0 == k && pieces[j].1 == #[trigger] g[m];
    }
    lemma_merge_separated(sorted);
    lemma_merge_covers(sorted, p);
}

/// The pieces of a graph's edges run forwards and end below the largest `i32`.
pub proof fn lemma_pieces_ok(edges: Seq<(NodeId, NodeId)>, points: Seq<(i32, i32)>, horizontal: bool)
    requires
        spec_graph_ok(edges, points),
    ensures
        spec_pieces_ok(spec_pieces(edges, points, horizontal)),
    decreases edges.len(),
{
    if edges.len() > 0 {
        let init = edges.drop_last();
        assert forall|i: int| 0 <= i < init.len() implies ((#[trigger] init[i]).0 as int) < points.len() && (init[i].1 as int) < points.len() by {
            assert(init[i] == edges[i]);
        }
        lemma_pieces_ok(init, points, horizontal);
        let (a, b) = edges.last();
        assert(edges[edges.len() - 1] == edges.last());
        let ps = spec_pieces(edges, points, horizontal);
        let rest = spec_pieces(init, points, horizontal);
        assert forall|i: int| 0 <= i < ps.len() implies (#[trigger] ps[i]).1.0 <= ps[i].1.1 && ps[i].1.1 < i32::MAX by {
            if i < rest.len() {
                assert(ps[i] == rest[i]);
            } else {
                assert(points[a as int] == points[a as int]);
            }
        }
    }
}

proof fn lemma_unique_edges_from(edges: Seq<(NodeId, NodeId)>)
    ensures
        forall|i: int| 0 <= i < spec_unique_edges(edges).len() ==> edges.contains(#[trigger] spec_unique_edges(edges)[i]),
    decreases edges.len(),
{
    if edges.len() > 0 {
        let init = edges.drop_last();
        lemma_unique_edges_from(init);
        let u = spec_unique_edges(edges);
        let u0 = spec_unique_edges(init);
        assert forall|i: int| 0 <= i < u.len() implies edges.contains(#[trigger] u[i]) by {
            if i < u0.len() {
                assert(u[i] == u0[i]);
                let j = choose|j: int| 0 <= j < init.len() && init[j] == u0[i];
                assert(edges[j] == init[j]);
            } else {
                assert(u[i] == edges.last());
                assert(edges[edges.len() - 1] == edges.last());
            }
        }
    }
}

/// The batched lines of each row (horizontal) or column (vertical) are in
/// order, each at least one apart from the next, and cover exactly the points
/// that the spans of the distinct edges on that row or column cover.
pub proof fn lemma_batched_rows(edges: Seq<(NodeId, NodeId)>, points: Seq<(i32, i32)>, horizontal: bool, k: i32, p: int)
    requires
        spec_graph_ok(edges, points),
    ensures
        ({
            let pieces = spec_pieces(spec_unique_edges(edges), points, horizontal);
            let lines = spec_merge(spec_sort_segments(spec_group(pieces, k)));
            &&& spec_separated(lines)
            &&& spec_forwards(lines)
            &&& spec_covers(lines, p) == exists|i: int| 0 <= i < pieces.len() && #[trigger] spec_piece_covers(pieces, k, i, p)
        }),
{
    let u = spec_unique_edges(edges);
    lemma_unique_edges_from(edges);
    assert forall|i: int| 0 <= i < u.len() implies ((#[trigger] u[i]).0 as int) < points.len() && (u[i].1 as int) < points.len() by {
        assert(edges.contains(u[i]));
        let j = choose|j: int| 0 <= j < edges.len() && edges[j] == u[i];
    }
    lemma_pieces_ok(u, points, horizontal);
    lemma_key_lines(spec_pieces(u, points, horizontal), k, p);
}

/// The lines of `lines` that lie on row (or column) `k`, in order.
pub open spec fn spec_row_entries(lines: Seq<(i32, i32, i32)>, k: i32) -> Seq<(i32, i32, i32)>
    decreases lines.len(),
{
    if lines.len() == 0 {
        seq![]
    } else {
        let rest = spec_row_entries(lines.drop_last(), k);
        if lines.last().0 == k { rest.push(lines.last()) } else { rest }
    }
}

proof fn lemma_row_entries_concat(a: Seq<(i32, i32, i32)>, b: Seq<(i32, i32, i32)>, k: i32)
    ensures
        spec_row_entries(a + b, k) == spec_row_entries(a, k) + spec_row_entries(b, k),
    decreases b.len(),
{
    if b.len() == 0 {
        assert(a + b =~= a);
        assert(spec_row_entries(a, k) + spec_row_entries(b, k) =~= spec_row_entries(a, k));
    } else {
        lemma_row_entries_concat(a, b.drop_last(), k);
        assert((a + b).drop_last() =~= a + b.drop_last());
        assert((a + b).last() == b.last());
        if b.last().0 == k {
            assert(spec_row_entries(a, k) + spec_row_entries(b.drop_last(), k).push(b.last()) =~= (spec_row_entries(
                a,
                k,
            ) + spec_row_entries(b.drop_last(), k)).push(b.last()));
        }
    }
}

proof fn lemma_row_entries_uniform(s: Seq<(i32, i32, i32)>, k: i32, on: bool)
    requires
        forall|i: int| 0 <= i < s.len() ==> ((#[trigger] s[i]).0 == k) == on,
    ensures
        spec_row_entries(s, k) == (if on { s } else { Seq::<(i32, i32, i32)>::empty() }),
    decreases s.len(),
{
    if s.len() > 0 {
        lemma_row_entries_uniform(s.drop_last(), k, on);
        assert(s.drop_last().push(s.last()) =~= s);
    }
}

proof fn lemma_keys_distinct(pieces: Seq<(i32, Segment)>)
    ensures
        spec_keys(pieces).no_duplicates(),
        forall|k: i32| spec_keys(pieces).contains(k) <==> exists|i: int| 0 <= i < pieces.len() && (#[trigger] pieces[i]).0 == k,
    decreases pieces.len(),
{
    if pieces.len() > 0 {
        let init = pieces.drop_last();
        lemma_keys_distinct(init);
        let rest = spec_keys(init);
        let keys = spec_keys(pieces);
        assert forall|k: i32| keys.contains(k) <==> exists|i: int| 0 <= i < pieces.len() && (#[trigger] pieces[i]).0 == k by {
            if keys.contains(k) {
                if rest.contains(k) {
                    let i = choose|i: int| 0 <= i < init.len() && (#[trigger] init[i]).0 == k;
                    assert(pieces[i] == init[i]);
                } else {
                    assert(k == pieces.last().0);
                    assert(pieces[pieces.len() - 1] == pieces.last());
                }
            }
            if exists|i: int| 0 <= i < pieces.len() && (#[trigger] pieces[i]).0 == k {
                let i = choose|i: int| 0 <= i < pieces.len() && (#[trigger] pieces[i]).0 == k;
                if i < init.len() {
                    assert(init[i] == pieces[i]);
                    assert(rest.contains(k));
                    if !rest.contains(pieces.last().0) {
                        let j = choose|j: int| 0 <= j < rest.len() && rest[j] == k;
                        assert(keys[j] == rest[j]);
                    }
                } else {
                    assert(pieces.last().0 == k);
                    if !rest.contains(k) {
                        assert(keys[rest.len() as int] == k);
                    }
                }
            }
        }
    }
}

proof fn lemma_group_absent(pieces: Seq<(i32, Segment)>, k: i32)
    requires
        forall|i: int| 0 <= i < pieces.len() ==> (#[trigger] pieces[i]).0 != k,
    ensures
        spec_group(pieces, k) == Seq::<Segment>::empty(),
    decreases pieces.len(),
{
    if pieces.len() > 0 {
        let init = pieces.drop_last();
        assert forall|i: int| 0 <= i < init.len() implies (#[trigger] init[i]).0 != k by {
            assert(init[i] == pieces[i]);
        }
        lemma_group_absent(init, k);
        assert(pieces[pieces.len() - 1] == pieces.last());
    }
}

proof fn lemma_lines_rows(pieces: Seq<(i32, Segment)>, keys: Seq<i32>, k: i32)
    requires
        keys.no_duplicates(),
    ensures
        spec_row_entries(spec_lines(pieces, keys), k) == (if keys.contains(k) {
            spec_key_lines(pieces, k)
        } else {
            Seq::<(i32, i32, i32)>::empty()
        }),
    decreases keys.len(),
{
    if keys.len() > 0 {
        let init = keys.drop_last();
        let last = keys.last();
        assert(init.no_duplicates()) by {
            assert forall|a: int, b: int| 0 <= a < b < init.len() implies init[a] != init[b] by {
                assert(init[a] == keys[a] && init[b] == keys[b]);
            }
        }
        lemma_lines_rows(pieces, init, k);
        lemma_row_entries_concat(spec_lines(pieces, init), spec_key_lines(pieces, last), k);
        let kl = spec_key_lines(pieces, last);
        lemma_row_entries_uniform(kl, k, last == k);
        if last == k {
            assert(!init.contains(k)) by {
                if init.contains(k) {
                    let j = choose|j: int| 0 <= j < init.len() && init[j] == k;
                    assert(keys[j] == keys[keys.len() - 1]);
                }
            }
            assert(Seq::<(i32, i32, i32)>::empty() + kl =~= kl);
            assert(keys[keys.len() - 1] == k);
        } else {
            assert(keys.contains(k) == init.contains(k)) by {
                if keys.contains(k) {
                    let j = choose|j: int| 0 <= j < keys.len() && keys[j] == k;
                    assert(init[j] == keys[j]);
                }
                if init.contains(k) {
                    let j = choose|j: int| 0 <= j < init.len() && init[j] == k;
                    assert(keys[j] == init[j]);
                }
            }
            assert(spec_row_entries(spec_lines(pieces, init), k) + Seq::<(i32, i32, i32)>::empty() =~= spec_row_entries(
                spec_lines(pieces, init),
                k,
            ));
        }
    }
}

/// The batched output itself: the entries of a graph's batched lines that lie
/// on row (or column) `k` are, in order, exactly that row's merged lines, so by
/// `lemma_batched_rows` they are in order, apart from each other, and cover
/// exactly the spans of the distinct edges on that row.
pub proof fn lemma_batched_output_rows(edges: Seq<(NodeId, NodeId)>, points: Seq<(i32, i32)>, horizontal: bool, k: i32)
    ensures
        ({
            let pieces = spec_pieces(spec_unique_edges(edges), points, horizontal);
            spec_row_entries(spec_batched(edges, points, horizontal), k) == spec_key_lines(pieces, k)
        }),
{
    let pieces = spec_pieces(spec_unique_edges(edges), points, horizontal);
    let keys = spec_keys(pieces);
    lemma_keys_distinct(pieces);
    lemma_lines_rows(pieces, keys, k);
    if !keys.contains(k) {
        assert forall|i: int| 0 <= i < pieces.len() implies (#[trigger] pieces[i]).0 != k by {
            if pieces[i].0 == k {
                assert(keys.contains(k));
            }
        }
        lemma_group_absent(pieces, k);
        let g = spec_group(pieces, k);
        assert(spec_sort_segments(g) == Seq::<Segment>::empty());
        assert(spec_key_lines(pieces, k) =~= Seq::<(i32, i32, i32)>::empty());
    }
}

} // verus!
