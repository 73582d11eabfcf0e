//! Properties of the grammar and of the compiler, proved once for all inputs.
use crate::ast::{BoundedView, DataView, Range, SegmentType, SegmentView};
use crate::compile::{
    bounded_list_ops, bounded_ops, ending_ops, prepend, read_ops, variable_then_anchor_ops,
    CompileError,
};
use crate::grammar::{
    in_class, is_nucleotide, lemma_class_end_bounds, p_bounded, p_bounded_list,
    p_fixed_sequence, p_int, p_read, parse_geometry, CharClass,
};
use crate::ops::{admits_length, OpView};
use vstd::prelude::*;

verus! {

/// The position after `k` read descriptions in a row from `i`, if there are.
pub open spec fn reads_from(s: Seq<char>, i: int, k: nat) -> Option<int>
    decreases k,
{
    if k == 0 {
        Some(i)
    } else {
        match p_read(s, i) {
            Some((_, e)) => reads_from(s, e, (k - 1) as nat),
            None => None,
        }
    }
}

/// A geometry string is accepted exactly when it is two read descriptions
/// and nothing more, and then it yields two of them; a string made of any
/// other number of read descriptions is rejected.
pub proof fn lemma_two_read_descriptions(s: Seq<char>, k: nat)
    requires
        reads_from(s, 0, k) == Some(s.len() as int),
    ensures
        parse_geometry(s) is Ok <==> k == 2,
        parse_geometry(s) matches Ok(v) ==> v.len() == 2,
{
    if k >= 1 {
        assert(p_read(s, 0) is Some);
        let (_, e1) = p_read(s, 0).unwrap();
        assert(reads_from(s, e1, (k - 1) as nat) == Some(s.len() as int));
        if k == 1 {
            assert(e1 == s.len());
            assert(p_read(s, e1) is None);
        } else {
            assert(p_read(s, e1) is Some);
            let (_, e2) = p_read(s, e1).unwrap();
            assert(reads_from(s, e2, (k - 2) as nat) == Some(s.len() as int));
            if k >= 3 {
                assert(p_read(s, e2) is Some);
                assert(e2 < s.len());
            }
        }
    }
}

/// A literal anchor, wherever the grammar recognises one, holds only the
/// characters A, T, G and C.
pub proof fn lemma_literal_is_nucleotides(s: Seq<char>, i: int)
    requires
        0 <= i <= s.len(),
    ensures
        p_fixed_sequence(s, i) matches Some((SegmentView::FixedSequence(_, DataView::Sequence(q)), _))
            ==> forall|m: int| 0 <= m < q.len() ==> is_nucleotide(#[trigger] q[m]),
{
    if let Some((SegmentView::FixedSequence(_, DataView::Sequence(q)), _)) = p_fixed_sequence(s, i) {
        let j = crate::grammar::p_label(s, i + 1);
        if 0 <= j + 1 <= s.len() {
            lemma_class_end_bounds(s, j + 1, CharClass::Nucleotide);
            assert forall|m: int| 0 <= m < q.len() implies is_nucleotide(#[trigger] q[m]) by {
                assert(q[m] == s[j + 1 + m]);
                assert(in_class(CharClass::Nucleotide, s[j + 1 + m]));
            }
        }
    }
}

/// The operations of a first part, followed by those of the rest; the first
/// part's error if it fails.
pub open spec fn chain(
    first: Result<Seq<OpView>, CompileError>,
    rest: Result<Seq<OpView>, CompileError>,
) -> Result<Seq<OpView>, CompileError> {
    match first {
        Ok(a) => prepend(a, rest),
        Err(e) => Err(e),
    }
}

/// Compiling the bounded segments of a mate is compiling its first `k`
/// segments alone, then the rest from position `k` on: what is emitted for a
/// segment depends on the mate, the segment and its position only, and
/// nothing carries over from one segment to the next.
pub proof fn lemma_segments_compile_independently(n: nat, bs: Seq<BoundedView>, k: nat)
    requires
        k <= bs.len(),
    ensures
        bounded_list_ops(n, bs, 0) == chain(
            bounded_list_ops(n, bs.subrange(0, k as int), 0),
            bounded_list_ops(n, bs, k),
        ),
{
    lemma_split_from(n, bs, k, 0);
}

proof fn lemma_split_from(n: nat, bs: Seq<BoundedView>, k: nat, i: nat)
    requires
        i <= k <= bs.len(),
    ensures
        bounded_list_ops(n, bs, i) == chain(
            bounded_list_ops(n, bs.subrange(0, k as int), i),
            bounded_list_ops(n, bs, k),
        ),
    decreases k - i,
{
    let pre = bs.subrange(0, k as int);
    if i == k {
        if let Ok(x) = bounded_list_ops(n, bs, k) {
            assert(Seq::<OpView>::empty() + x =~= x);
        }
    } else {
        lemma_split_from(n, bs, k, i + 1);
        assert(pre[i as int] == bs[i as int]);
        if let Ok(a) = bounded_ops(n, i, bs[i as int]) {
            if let Ok(b) = bounded_list_ops(n, pre, i + 1) {
                if let Ok(x) = bounded_list_ops(n, bs, k) {
                    assert(a + (b + x) =~= (a + b) + x);
                }
            }
        }
    }
}

/// A ranged region whose lower bound exceeds its upper bound is compiled
/// like any other, into a length check that no length passes: every record
/// is dropped there.
pub proof fn lemma_inverted_range_admits_nothing(
    st: Seq<char>,
    l: Seq<char>,
    t: SegmentType,
    r: Range,
    anchor: SegmentView,
)
    requires
        r.from > r.to,
    ensures
        ending_ops(st, l, SegmentView::Ranged(t, r)) matches Ok(ops) ==> ops[1] is LengthInBounds
            && forall|len: nat| !admits_length(ops[1], len),
        variable_then_anchor_ops(st, l, SegmentView::Ranged(t, r), anchor) matches Ok(ops)
            ==> ops[2] is LengthInBounds && forall|len: nat| !admits_length(ops[2], len),
{
}

/// A bounded segment of a shape that the compiler handles.
pub open spec fn compilable_bounded(b: BoundedView) -> bool {
    match b {
        BoundedView::Fixed(SegmentView::FixedLength(_, DataView::Num(_))) => true,
        BoundedView::Fixed(SegmentView::FixedSequence(_, DataView::Sequence(_))) => true,
        BoundedView::VariableLenToSequence(v, f) => (v is Ranged || v is Unbounded) && f matches SegmentView::FixedSequence(_, DataView::Sequence(_)),
        _ => false,
    }
}

/// The compilation of a read failed for want of room only, or succeeded.
pub open spec fn compiles(r: Result<Seq<OpView>, CompileError>) -> bool {
    r is Ok || r == Err::<Seq<OpView>, CompileError>(CompileError::PadLengthOverflow)
}

proof fn lemma_bounded_list_shape(s: Seq<char>, i: int)
    ensures
        forall|k: int|
            0 <= k < p_bounded_list(s, i).0.len() ==> compilable_bounded(
                #[trigger] p_bounded_list(s, i).0[k],
            ),
    decreases s.len() - i,
{
    if let Some((b, e)) = p_bounded(s, i) {
        if i < e <= s.len() {
            lemma_bounded_list_shape(s, e);
            let rest = p_bounded_list(s, e).0;
            assert forall|k: int| 0 <= k < p_bounded_list(s, i).0.len() implies compilable_bounded(
                #[trigger] p_bounded_list(s, i).0[k],
            ) by {
                if k > 0 {
                    assert(p_bounded_list(s, i).0[k] == rest[k - 1]);
                }
            }
        }
    }
}

proof fn lemma_bounded_list_compiles(n: nat, bs: Seq<BoundedView>, i: nat)
    requires
        forall|k: int| 0 <= k < bs.len() ==> compilable_bounded(#[trigger] bs[k]),
    ensures
        compiles(bounded_list_ops(n, bs, i)),
    decreases bs.len() - i,
{
    if i < bs.len() {
        lemma_bounded_list_compiles(n, bs, i + 1);
        assert(compilable_bounded(bs[i as int]));
    }
}

/// Every read description that the grammar yields has a shape that the
/// compiler handles: compiling it can fail only where a padded length does
/// not fit in `usize`.
pub proof fn lemma_parsed_reads_compile(s: Seq<char>)
    ensures
        parse_geometry(s) matches Ok(v) ==> forall|j: int|
            0 <= j < v.len() ==> compiles(#[trigger] read_ops(v[j])),
{
    if let Ok(v) = parse_geometry(s) {
        let (_, e1) = p_read(s, 0).unwrap();
        lemma_read_compiles(s, 0);
        lemma_read_compiles(s, e1);
        assert forall|j: int| 0 <= j < v.len() implies compiles(#[trigger] read_ops(v[j])) by {
            if j == 0 {
                assert(v[j] == p_read(s, 0).unwrap().0);
            } else {
                assert(v[j] == p_read(s, e1).unwrap().0);
            }
        }
    }
}

proof fn lemma_read_compiles(s: Seq<char>, i: int)
    ensures
        p_read(s, i) matches Some((r, _)) ==> compiles(read_ops(r)),
{
    if let Some((r, _)) = p_read(s, i) {
        let (n, j) = p_int(s, i).unwrap();
        lemma_bounded_list_shape(s, j + 1);
        let bs = p_bounded_list(s, j + 1).0;
        lemma_bounded_list_compiles(n as nat, bs, 0);
    }
}

} // verus!
