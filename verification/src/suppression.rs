//! The mathematics of ordering boxes by confidence and of greedy overlap suppression.

use vstd::prelude::*;
use vstd::seq_lib::to_multiset_insert;
use crate::geometry::{BoundingBox, intersection_area, iou_exceeds, union_area};

verus! {

/// No box is followed by one of higher confidence.
pub open spec fn confidence_descending(s: Seq<BoundingBox>) -> bool {
    forall|i: int, j: int| 0 <= i < j < s.len() ==> s[i].confidence >= s[j].confidence
}

/// Where `b` goes in `s`: directly behind the last box that is not less confident than `b`.
pub open spec fn insertion_index(s: Seq<BoundingBox>, b: BoundingBox) -> int
    decreases s.len(),
{
    if s.len() > 0 && s.last().confidence < b.confidence {
        insertion_index(s.drop_last(), b)
    } else {
        s.len() as int
    }
}

/// The boxes of `s` by descending confidence; boxes of equal confidence keep
/// the order they have in `s`.
pub open spec fn sort_by_confidence(s: Seq<BoundingBox>) -> Seq<BoundingBox>
    decreases s.len(),
{
    if s.len() == 0 {
        s
    } else {
        let head = sort_by_confidence(s.drop_last());
        head.insert(insertion_index(head, s.last()), s.last())
    }
}

/// Whether box `j` of `s` is still standing once the first `m` boxes have had
/// their turn: none of them that is itself retained overlaps it beyond `threshold`.
pub open spec fn survives(s: Seq<BoundingBox>, threshold: int, j: int, m: int) -> bool
    decreases j, m,
{
    if m <= 0 || j <= 0 {
        true
    } else if m > j {
        survives(s, threshold, j, j)
    } else {
        survives(s, threshold, j, m - 1) && !(survives(s, threshold, m - 1, m - 1) && iou_exceeds(
            s[m - 1],
            s[j],
            threshold,
        ))
    }
}

/// Whether greedy suppression retains box `j` of `s`.
pub open spec fn is_kept(s: Seq<BoundingBox>, threshold: int, j: int) -> bool {
    survives(s, threshold, j, j)
}

/// The retained boxes among the first `n` of `s`, in the order of `s`.
pub open spec fn kept_prefix(s: Seq<BoundingBox>, threshold: int, n: int) -> Seq<BoundingBox>
    decreases n,
{
    if n <= 0 {
        Seq::empty()
    } else if is_kept(s, threshold, n - 1) {
        kept_prefix(s, threshold, n - 1).push(s[n - 1])
    } else {
        kept_prefix(s, threshold, n - 1)
    }
}

/// Greedy suppression over `s` as it is ordered: a box is retained unless a
/// retained box before it overlaps it beyond `threshold`.
pub open spec fn suppress(s: Seq<BoundingBox>, threshold: int) -> Seq<BoundingBox> {
    kept_prefix(s, threshold, s.len() as int)
}

/// Non-max suppression: order by confidence, then suppress greedily.
pub open spec fn non_max_suppressed(boxes: Seq<BoundingBox>, threshold: int) -> Seq<BoundingBox> {
    suppress(sort_by_confidence(boxes), threshold)
}

/// The insertion index splits `s` into boxes at least as confident as `b` next
/// to it, and strictly less confident ones behind it.
pub proof fn lemma_insertion_index(s: Seq<BoundingBox>, b: BoundingBox)
    ensures
        0 <= insertion_index(s, b) <= s.len(),
        forall|k: int| insertion_index(s, b) <= k < s.len() ==> s[k].confidence < b.confidence,
        insertion_index(s, b) > 0 ==> s[insertion_index(s, b) - 1].confidence >= b.confidence,
    decreases s.len(),
{
    if s.len() > 0 && s.last().confidence < b.confidence {
        let head = s.drop_last();
        lemma_insertion_index(head, b);
        assert forall|k: int| insertion_index(s, b) <= k < s.len() implies s[k].confidence
            < b.confidence by {
            if k < head.len() {
                assert(s[k] == head[k]);
            }
        }
        if insertion_index(s, b) > 0 {
            assert(s[insertion_index(s, b) - 1] == head[insertion_index(head, b) - 1]);
        }
    }
}

/// Sorting yields a descending sequence.
pub proof fn lemma_sort_descending(s: Seq<BoundingBox>)
    ensures
        confidence_descending(sort_by_confidence(s)),
    decreases s.len(),
{
    if s.len() > 0 {
        let head = sort_by_confidence(s.drop_last());
        let b = s.last();
        let at = insertion_index(head, b);
        lemma_sort_descending(s.drop_last());
        lemma_insertion_index(head, b);
        let out = head.insert(at, b);
        assert forall|i: int, j: int| 0 <= i < j < out.len() implies out[i].confidence
            >= out[j].confidence by {
            if j < at {
                assert(out[i] == head[i] && out[j] == head[j]);
            } else if j == at {
                assert(out[i] == head[i]);
                if i < at - 1 {
                    assert(head[i].confidence >= head[at - 1].confidence);
                }
            } else if i < at {
                assert(out[i] == head[i] && out[j] == head[j - 1]);
            } else if i == at {
                assert(out[j] == head[j - 1]);
            } else {
                assert(out[i] == head[i - 1] && out[j] == head[j - 1]);
            }
        }
    }
}

/// Sorting rearranges: it neither adds nor loses a box.
pub proof fn lemma_sort_permutes(s: Seq<BoundingBox>)
    ensures
        sort_by_confidence(s).to_multiset() == s.to_multiset(),
        sort_by_confidence(s).len() == s.len(),
    decreases s.len(),
{
    if s.len() > 0 {
        let head = sort_by_confidence(s.drop_last());
        let b = s.last();
        lemma_sort_permutes(s.drop_last());
        lemma_insertion_index(head, b);
        to_multiset_insert(head, insertion_index(head, b), b);
        assert(s.drop_last().push(b) == s);
        vstd::seq_lib::to_multiset_build(s.drop_last(), b);
    }
}

/// What holds of every box of `s` holds of every box of the sorted sequence.
pub proof fn lemma_sort_keeps(s: Seq<BoundingBox>, holds: spec_fn(BoundingBox) -> bool)
    requires
        forall|i: int| 0 <= i < s.len() ==> holds(#[trigger] s[i]),
    ensures
        forall|i: int|
            0 <= i < sort_by_confidence(s).len() ==> holds(#[trigger] sort_by_confidence(s)[i]),
    decreases s.len(),
{
    if s.len() > 0 {
        let head = sort_by_confidence(s.drop_last());
        let b = s.last();
        let at = insertion_index(head, b);
        assert forall|i: int| 0 <= i < s.drop_last().len() implies holds(
            #[trigger] s.drop_last()[i],
        ) by {
            assert(s.drop_last()[i] == s[i]);
        }
        lemma_sort_keeps(s.drop_last(), holds);
        lemma_insertion_index(head, b);
        let out = head.insert(at, b);
        assert forall|i: int| 0 <= i < out.len() implies holds(#[trigger] out[i]) by {
            if i < at {
                assert(out[i] == head[i]);
            } else if i == at {
                assert(out[i] == s[s.len() - 1]);
            } else {
                assert(out[i] == head[i - 1]);
            }
        }
    }
}

/// Every box of the sorted sequence is a box of `s`.
pub proof fn lemma_sort_origin(s: Seq<BoundingBox>, p: int) -> (i: int)
    requires
        0 <= p < sort_by_confidence(s).len(),
    ensures
        0 <= i < s.len(),
        s[i] == sort_by_confidence(s)[p],
    decreases s.len(),
{
    let head = sort_by_confidence(s.drop_last());
    let at = insertion_index(head, s.last());
    lemma_insertion_index(head, s.last());
    if p == at {
        s.len() - 1
    } else {
        let i = lemma_sort_origin(s.drop_last(), if p < at { p } else { p - 1 });
        assert(s.drop_last()[i] == s[i]);
        i
    }
}

/// Sorting is stable: two boxes of equal confidence stand in the sorted
/// sequence in the order in which they stand in `s`.
pub proof fn lemma_sort_stable(s: Seq<BoundingBox>, p: int, q: int) -> (ij: (int, int))
    requires
        0 <= p < q < sort_by_confidence(s).len(),
        sort_by_confidence(s)[p].confidence == sort_by_confidence(s)[q].confidence,
    ensures
        0 <= ij.0 < ij.1 < s.len(),
        s[ij.0] == sort_by_confidence(s)[p],
        s[ij.1] == sort_by_confidence(s)[q],
    decreases s.len(),
{
    let rest = s.drop_last();
    let head = sort_by_confidence(rest);
    let at = insertion_index(head, s.last());
    lemma_insertion_index(head, s.last());
    lemma_sort_permutes(rest);
    // The last box of `s` goes behind every box that is as confident as it is:
    // it cannot stand at `p` with its equal at `q` behind it.
    assert(p != at) by {
        if p == at {
            assert(head[q - 1].confidence < s.last().confidence);
        }
    }
    if q == at {
        let i = lemma_sort_origin(rest, p);
        assert(rest[i] == s[i]);
        (i, s.len() - 1)
    } else {
        let (i, j) = lemma_sort_stable(
            rest,
            if p < at { p } else { p - 1 },
            if q < at { q } else { q - 1 },
        );
        assert(rest[i] == s[i] && rest[j] == s[j]);
        (i, j)
    }
}

/// The overlap ratio does not depend on the order of its arguments.
pub proof fn lemma_iou_symmetric(a: BoundingBox, b: BoundingBox, threshold: int)
    ensures
        intersection_area(a, b) == intersection_area(b, a),
        union_area(a, b) == union_area(b, a),
        iou_exceeds(a, b, threshold) == iou_exceeds(b, a, threshold),
{
}

/// A box that survives `m` turns survived every earlier turn, and no retained
/// box among the first `m` overlaps it beyond the threshold.
pub proof fn lemma_survives(s: Seq<BoundingBox>, threshold: int, j: int, m: int)
    requires
        0 <= m <= j,
        survives(s, threshold, j, m),
    ensures
        forall|i: int|
            0 <= i < m && #[trigger] is_kept(s, threshold, i) ==> !iou_exceeds(
                s[i],
                s[j],
                threshold,
            ),
    decreases m,
{
    if m > 0 {
        lemma_survives(s, threshold, j, m - 1);
    }
}

/// A box is retained exactly when no retained box before it overlaps it
/// beyond the threshold.
pub proof fn lemma_is_kept(s: Seq<BoundingBox>, threshold: int, j: int)
    requires
        0 <= j,
    ensures
        is_kept(s, threshold, j) <==> (forall|i: int|
            0 <= i < j && #[trigger] is_kept(s, threshold, i) ==> !iou_exceeds(
                s[i],
                s[j],
                threshold,
            )),
{
    if is_kept(s, threshold, j) {
        lemma_survives(s, threshold, j, j);
    } else {
        lemma_falls(s, threshold, j, j);
    }
}

/// A box that does not survive `m` turns is overlapped beyond the threshold by
/// a retained box among the first `m`.
pub proof fn lemma_falls(s: Seq<BoundingBox>, threshold: int, j: int, m: int)
    requires
        0 <= m <= j,
        !survives(s, threshold, j, m),
    ensures
        exists|i: int|
            0 <= i < m && #[trigger] is_kept(s, threshold, i) && iou_exceeds(s[i], s[j], threshold),
    decreases m,
{
    if survives(s, threshold, j, m - 1) {
        assert(is_kept(s, threshold, m - 1));
    } else {
        lemma_falls(s, threshold, j, m - 1);
    }
}

/// Any two boxes of a retained prefix come from two retained positions of `s`,
/// in the same order.
pub proof fn lemma_kept_pair(s: Seq<BoundingBox>, threshold: int, n: int, p: int, q: int) -> (ij: (
    int,
    int,
))
    requires
        0 <= n <= s.len(),
        0 <= p < q < kept_prefix(s, threshold, n).len(),
    ensures
        0 <= ij.0 < ij.1 < n,
        is_kept(s, threshold, ij.0),
        is_kept(s, threshold, ij.1),
        kept_prefix(s, threshold, n)[p] == s[ij.0],
        kept_prefix(s, threshold, n)[q] == s[ij.1],
    decreases n,
{
    let shorter = kept_prefix(s, threshold, n - 1);
    if is_kept(s, threshold, n - 1) && q == shorter.len() {
        let i = lemma_kept_one(s, threshold, n - 1, p);
        (i, n - 1)
    } else {
        lemma_kept_pair(s, threshold, n - 1, p, q)
    }
}

/// Any box of a retained prefix comes from a retained position of `s`.
pub proof fn lemma_kept_one(s: Seq<BoundingBox>, threshold: int, n: int, p: int) -> (i: int)
    requires
        0 <= n <= s.len(),
        0 <= p < kept_prefix(s, threshold, n).len(),
    ensures
        0 <= i < n,
        is_kept(s, threshold, i),
        kept_prefix(s, threshold, n)[p] == s[i],
    decreases n,
{
    let shorter = kept_prefix(s, threshold, n - 1);
    if is_kept(s, threshold, n - 1) && p == shorter.len() {
        n - 1
    } else {
        lemma_kept_one(s, threshold, n - 1, p)
    }
}

/// No two boxes that suppression retains overlap beyond the threshold.
pub proof fn lemma_retained_apart(boxes: Seq<BoundingBox>, threshold: int, p: int, q: int)
    requires
        0 <= p < non_max_suppressed(boxes, threshold).len(),
        0 <= q < non_max_suppressed(boxes, threshold).len(),
        p != q,
    ensures
        !iou_exceeds(
            non_max_suppressed(boxes, threshold)[p],
            non_max_suppressed(boxes, threshold)[q],
            threshold,
        ),
{
    let s = sort_by_confidence(boxes);
    let n = s.len() as int;
    let (lo, hi) = if p < q { (p, q) } else { (q, p) };
    let (i, j) = lemma_kept_pair(s, threshold, n, lo, hi);
    lemma_survives(s, threshold, j, j);
    lemma_iou_symmetric(s[i], s[j], threshold);
}

/// At the threshold of one half, the common area of two retained boxes is at
/// most half of the area that they cover together.
pub proof fn lemma_retained_iou_at_most_half(boxes: Seq<BoundingBox>, p: int, q: int)
    requires
        0 <= p < non_max_suppressed(boxes, 500_000).len(),
        0 <= q < non_max_suppressed(boxes, 500_000).len(),
        p != q,
    ensures
        2 * intersection_area(non_max_suppressed(boxes, 500_000)[p], non_max_suppressed(boxes, 500_000)[q])
            <= union_area(non_max_suppressed(boxes, 500_000)[p], non_max_suppressed(boxes, 500_000)[q]),
{
    lemma_retained_apart(boxes, 500_000, p, q);
}

/// Suppression hands its boxes out by descending confidence.
pub proof fn lemma_suppressed_descending(boxes: Seq<BoundingBox>, threshold: int)
    ensures
        confidence_descending(non_max_suppressed(boxes, threshold)),
{
    let s = sort_by_confidence(boxes);
    let n = s.len() as int;
    let out = non_max_suppressed(boxes, threshold);
    lemma_sort_descending(boxes);
    assert forall|p: int, q: int| 0 <= p < q < out.len() implies out[p].confidence
        >= out[q].confidence by {
        let (i, j) = lemma_kept_pair(s, threshold, n, p, q);
    }
}

/// Every box that suppression retains is one of the boxes it was given.
pub proof fn lemma_retained_is_given(boxes: Seq<BoundingBox>, threshold: int, p: int)
    requires
        0 <= p < non_max_suppressed(boxes, threshold).len(),
    ensures
        boxes.contains(non_max_suppressed(boxes, threshold)[p]),
{
    let s = sort_by_confidence(boxes);
    let i = lemma_kept_one(s, threshold, s.len() as int, p);
    lemma_sort_permutes(boxes);
    assert(s.contains(s[i]));
    vstd::seq_lib::to_multiset_contains(s, s[i]);
    vstd::seq_lib::to_multiset_contains(boxes, s[i]);
}

/// Unless nothing was given, the most confident box is retained and comes first.
pub proof fn lemma_first_is_retained(boxes: Seq<BoundingBox>, threshold: int)
    requires
        boxes.len() > 0,
    ensures
        non_max_suppressed(boxes, threshold).len() > 0,
        non_max_suppressed(boxes, threshold)[0] == sort_by_confidence(boxes)[0],
{
    let s = sort_by_confidence(boxes);
    lemma_sort_permutes(boxes);
    lemma_kept_prefix_first(s, threshold, s.len() as int);
}

proof fn lemma_kept_prefix_first(s: Seq<BoundingBox>, threshold: int, n: int)
    requires
        1 <= n <= s.len(),
    ensures
        kept_prefix(s, threshold, n).len() > 0,
        kept_prefix(s, threshold, n)[0] == s[0],
    decreases n,
{
    if n > 1 {
        lemma_kept_prefix_first(s, threshold, n - 1);
    } else {
        assert(kept_prefix(s, threshold, 0).len() == 0);
        assert(is_kept(s, threshold, 0));
    }
}

} // verus!
