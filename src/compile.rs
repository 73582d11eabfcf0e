//! The compiler from a read description to its ordered list of operations.
//!
//! Compilation walks the segments of one mate left to right and keeps a
//! frontier: the part of the read not consumed yet. The frontier is named
//! `seq{n}.` at first and gains `_r` with each bounded segment; the parts
//! that a segment splits off are named after the frontier with `_l`,
//! `_anchor` and `_r`.
use crate::ast::{
    bounded_views, opt_segment_view, BoundedSegment, BoundedView, CompositeView, DataView, ReadDescription, ReadView, Segment,
    SegmentComposite, SegmentData, SegmentType, SegmentView,
};
use crate::ops::{ops_view, AlignMode, OpView, Operation};
use vstd::prelude::*;

verus! {

/// A read description of a shape that the grammar never produces.
#[derive(Debug, Clone, Copy, PartialEq, Eq, Structural)]
pub enum CompileError {
    /// The mate index or a fixed length is not a number.
    ExpectedNumber,
    /// An anchor is not a nucleotide literal.
    ExpectedSequence,
    /// A fixed segment was expected.
    ExpectedFixed,
    /// A ranged or unbounded segment was expected.
    ExpectedVariable,
    /// A padded region's upper bound is `usize::MAX`, so its padded length does not fit.
    PadLengthOverflow,
}

pub open spec fn digit_char(d: nat) -> char {
    if d == 0 {
        '0'
    } else if d == 1 {
        '1'
    } else if d == 2 {
        '2'
    } else if d == 3 {
        '3'
    } else if d == 4 {
        '4'
    } else if d == 5 {
        '5'
    } else if d == 6 {
        '6'
    } else if d == 7 {
        '7'
    } else if d == 8 {
        '8'
    } else {
        '9'
    }
}

/// The decimal digits of `n`.
pub open spec fn decimal(n: nat) -> Seq<char>
    decreases n,
{
    if n < 10 {
        seq![digit_char(n)]
    } else {
        decimal(n / 10).push(digit_char(n % 10))
    }
}

/// The name of the whole read of mate `n`.
pub open spec fn mate_tag(n: nat) -> Seq<char> {
    "seq"@ + decimal(n) + "."@
}

/// The name of the frontier after `i` bounded segments of mate `n`.
pub open spec fn frontier(n: nat, i: nat) -> Seq<char>
    decreases i,
{
    if i == 0 {
        mate_tag(n)
    } else {
        frontier(n, (i - 1) as nat) + "_r"@
    }
}

/// The selector of the frontier after `i` bounded segments: at first all of
/// the read's fields, later the frontier field itself.
pub open spec fn selector(n: nat, i: nat) -> Seq<char> {
    if i == 0 {
        mate_tag(n) + "*"@
    } else {
        frontier(n, i)
    }
}

/// Split the frontier `st` into `l_l` (the first `index` bytes) and `l_r`.
pub open spec fn cut_op(st: Seq<char>, l: Seq<char>, index: usize) -> OpView {
    OpView::Cut { transform: st + " -> "@ + l + "_l, "@ + l + "_r"@, index }
}

/// Keep only records whose `l_l` has a length in `[min, max]`.
pub open spec fn length_op(l: Seq<char>, min: usize, max: usize) -> OpView {
    OpView::LengthInBounds {
        field: l + "_l"@,
        transform: l + "_l -> "@ + l + "_l.v_len"@,
        min,
        max,
        retain: l + "_l.v_len"@,
    }
}

/// Locate the literal `q` in the frontier `st`, keep only records where it
/// is found, then drop the anchor field.
pub open spec fn anchor_ops(st: Seq<char>, l: Seq<char>, q: Seq<char>, mode: AlignMode) -> Seq<
    OpView,
> {
    let transform = match mode {
        AlignMode::Prefix => st + " -> "@ + l + "_anchor, "@ + l + "_r"@,
        AlignMode::Local => st + " -> "@ + l + "_l, "@ + l + "_anchor, "@ + l + "_r"@,
    };
    seq![
        OpView::MatchAnchor {
            transform,
            literal: q,
            mode,
            retain: l + "_anchor"@,
        },
        OpView::Trim { label: l + "_anchor"@ },
    ]
}

/// Drop `l_l` if the segment is discarded.
pub open spec fn discard_ops(l: Seq<char>, t: SegmentType) -> Seq<OpView> {
    if t == SegmentType::Discard {
        seq![OpView::Trim { label: l + "_l"@ }]
    } else {
        seq![]
    }
}

/// A fixed length or fixed sequence segment standing alone.
pub open spec fn fixed_alone_ops(st: Seq<char>, l: Seq<char>, seg: SegmentView) -> Result<
    Seq<OpView>,
    CompileError,
> {
    match seg {
        SegmentView::FixedLength(t, DataView::Num(n)) => Ok(
            seq![cut_op(st, l, n), length_op(l, n, n)] + discard_ops(l, t),
        ),
        SegmentView::FixedLength(_, _) => Err(CompileError::ExpectedNumber),
        SegmentView::FixedSequence(_, DataView::Sequence(q)) => Ok(
            anchor_ops(st, l, q, AlignMode::Prefix),
        ),
        SegmentView::FixedSequence(_, _) => Err(CompileError::ExpectedSequence),
        _ => Err(CompileError::ExpectedFixed),
    }
}

/// A variable segment whose end is found by the anchor that follows it.
pub open spec fn variable_then_anchor_ops(
    st: Seq<char>,
    l: Seq<char>,
    var: SegmentView,
    anchor: SegmentView,
) -> Result<Seq<OpView>, CompileError> {
    match anchor {
        SegmentView::FixedSequence(_, DataView::Sequence(q)) => {
            let a = anchor_ops(st, l, q, AlignMode::Local);
            match var {
                SegmentView::Ranged(t, r) => if t == SegmentType::Discard {
                    Ok(a + seq![length_op(l, r.from, r.to), OpView::Trim { label: l + "_l"@ }])
                } else if r.to == usize::MAX {
                    Err(CompileError::PadLengthOverflow)
                } else {
                    Ok(
                        a + seq![
                            length_op(l, r.from, r.to),
                            OpView::Pad { label: l + "_l"@, length: (r.to + 1) as usize },
                        ],
                    )
                },
                SegmentView::Unbounded(t) => Ok(a + discard_ops(l, t)),
                _ => Err(CompileError::ExpectedVariable),
            }
        },
        _ => Err(CompileError::ExpectedSequence),
    }
}

/// The variable segment that ends a read, applied to the frontier `l`.
pub open spec fn ending_ops(st: Seq<char>, l: Seq<char>, seg: SegmentView) -> Result<
    Seq<OpView>,
    CompileError,
> {
    match seg {
        SegmentView::Unbounded(t) => if t == SegmentType::Discard {
            Ok(seq![OpView::Trim { label: l }])
        } else {
            Ok(seq![])
        },
        SegmentView::Ranged(t, r) => if t == SegmentType::Discard {
            Ok(
                seq![
                    cut_op(st, l, r.to),
                    length_op(l, r.from, r.to),
                    OpView::Trim { label: l + "_l"@ },
                    OpView::Trim { label: l + "_r"@ },
                ],
            )
        } else if r.to == usize::MAX {
            Err(CompileError::PadLengthOverflow)
        } else {
            Ok(
                seq![
                    cut_op(st, l, r.to),
                    length_op(l, r.from, r.to),
                    OpView::Pad { label: l + "_l"@, length: (r.to + 1) as usize },
                    OpView::Trim { label: l + "_r"@ },
                ],
            )
        },
        _ => Err(CompileError::ExpectedVariable),
    }
}

/// The `i`-th bounded segment of mate `n`.
pub open spec fn bounded_ops(n: nat, i: nat, b: BoundedView) -> Result<Seq<OpView>, CompileError> {
    match b {
        BoundedView::Fixed(s) => fixed_alone_ops(selector(n, i), frontier(n, i), s),
        BoundedView::VariableLenToSequence(v, f) => variable_then_anchor_ops(
            selector(n, i),
            frontier(n, i),
            v,
            f,
        ),
    }
}

/// `p` followed by what `r` holds, or the error of `r`.
pub open spec fn prepend(p: Seq<OpView>, r: Result<Seq<OpView>, CompileError>) -> Result<
    Seq<OpView>,
    CompileError,
> {
    match r {
        Ok(x) => Ok(p + x),
        Err(e) => Err(e),
    }
}

/// The bounded segments of mate `n` from the `i`-th on, each on its own frontier.
pub open spec fn bounded_list_ops(n: nat, bs: Seq<BoundedView>, i: nat) -> Result<
    Seq<OpView>,
    CompileError,
>
    decreases bs.len() - i,
{
    if i >= bs.len() {
        Ok(seq![])
    } else {
        match bounded_ops(n, i, bs[i as int]) {
            Ok(a) => prepend(a, bounded_list_ops(n, bs, i + 1)),
            Err(e) => Err(e),
        }
    }
}

/// The operations of a whole read description, or the first shape error.
pub open spec fn read_ops(rd: ReadView) -> Result<Seq<OpView>, CompileError> {
    match rd.num {
        DataView::Num(n) => match rd.description {
            CompositeView::BoundedToMaybeRangedOrUnbounded(bs, tail) => {
                let k = bs.len();
                match bounded_list_ops(n as nat, bs, 0) {
                    Ok(a) => prepend(
                        a,
                        match tail {
                            Some(t) => ending_ops(selector(n as nat, k), frontier(n as nat, k), t),
                            None => Ok(seq![OpView::Trim { label: frontier(n as nat, k) }]),
                        },
                    ),
                    Err(e) => Err(e),
                }
            },
            CompositeView::VariableLen(s) => ending_ops(
                selector(n as nat, 0),
                frontier(n as nat, 0),
                s,
            ),
        },
        _ => Err(CompileError::ExpectedNumber),
    }
}

/// The list `new` is `old` followed by the operations that `s` holds, or
/// the call failed with the error of `s`.
pub open spec fn outcome(
    new: Seq<OpView>,
    old: Seq<OpView>,
    r: Result<(), CompileError>,
    s: Result<Seq<OpView>, CompileError>,
) -> bool {
    match r {
        Ok(_) => prepend(old, s) == Ok::<Seq<OpView>, CompileError>(new),
        Err(e) => s == Err::<Seq<OpView>, CompileError>(e),
    }
}

proof fn lemma_prepend_assoc(p: Seq<OpView>, a: Seq<OpView>, r: Result<Seq<OpView>, CompileError>)
    ensures
        prepend(p, prepend(a, r)) == prepend(p + a, r),
{
    if let Ok(x) = r {
        assert(p + (a + x) =~= (p + a) + x);
    }
}

fn digit_str(d: usize) -> (r: &'static str)
    requires
        d < 10,
    ensures
        r@ == seq![digit_char(d as nat)],
{
    proof {
        reveal_strlit("0");
        reveal_strlit("1");
        reveal_strlit("2");
        reveal_strlit("3");
        reveal_strlit("4");
        reveal_strlit("5");
        reveal_strlit("6");
        reveal_strlit("7");
        reveal_strlit("8");
        reveal_strlit("9");
    }
    match d {
        0 => "0",
        1 => "1",
        2 => "2",
        3 => "3",
        4 => "4",
        5 => "5",
        6 => "6",
        7 => "7",
        8 => "8",
        _ => "9",
    }
}

fn push_decimal(out: &mut String, n: usize)
    ensures
        final(out)@ == old(out)@ + decimal(n as nat),
    decreases n,
{
    let ghost o = out@;
    if n >= 10 {
        push_decimal(out, n / 10);
    }
    out.append(digit_str(n % 10));
    proof {
        if n >= 10 {
            assert(o + decimal((n / 10) as nat) + seq![digit_char((n % 10) as nat)] =~= o + decimal(
                n as nat,
            ));
        } else {
            assert(o + seq![digit_char((n % 10) as nat)] =~= o + decimal(n as nat));
        }
    }
}

fn suffixed(l: &String, suffix: &str) -> (r: String)
    ensures
        r@ == l@ + suffix@,
{
    let mut r = l.clone();
    r.append(suffix);
    r
}

fn push_op(out: &mut Vec<Operation>, op: Operation)
    ensures
        ops_view(final(out)@) == ops_view(old(out)@) + seq![op@],
{
    out.push(op);
    assert(ops_view(out@) =~= ops_view(old(out)@) + seq![op@]);
}

fn make_cut(st: &String, l: &String, index: usize) -> (r: Operation)
    ensures
        r@ == cut_op(st@, l@, index),
{
    let mut t = suffixed(st, " -> ");
    t.append(l.as_str());
    t.append("_l, ");
    t.append(l.as_str());
    t.append("_r");
    Operation::Cut { transform: t, index }
}

fn make_length(l: &String, min: usize, max: usize) -> (r: Operation)
    ensures
        r@ == length_op(l@, min, max),
{
    let mut t = suffixed(l, "_l -> ");
    t.append(l.as_str());
    t.append("_l.v_len");
    Operation::LengthInBounds {
        field: suffixed(l, "_l"),
        transform: t,
        min,
        max,
        retain: suffixed(l, "_l.v_len"),
    }
}

fn push_anchor(out: &mut Vec<Operation>, st: &String, l: &String, q: &String, mode: AlignMode)
    ensures
        ops_view(final(out)@) == ops_view(old(out)@) + anchor_ops(st@, l@, q@, mode),
{
    let mut t = suffixed(st, " -> ");
    t.append(l.as_str());
    match mode {
        AlignMode::Prefix => {},
        AlignMode::Local => {
            t.append("_l, ");
            t.append(l.as_str());
        },
    }
    t.append("_anchor, ");
    t.append(l.as_str());
    t.append("_r");
    let ghost o = ops_view(out@);
    push_op(out, Operation::MatchAnchor {
            transform: t,
            literal: q.clone(),
            mode,
            retain: suffixed(l, "_anchor"),
        });
    push_op(out, Operation::Trim { label: suffixed(l, "_anchor") });
    assert(ops_view(out@) =~= o + anchor_ops(st@, l@, q@, mode));
}

fn push_discard(out: &mut Vec<Operation>, l: &String, t: SegmentType)
    ensures
        ops_view(final(out)@) == ops_view(old(out)@) + discard_ops(l@, t),
{
    if matches!(t, SegmentType::Discard) {
        push_op(out, Operation::Trim { label: suffixed(l, "_l") });
    } else {
        assert(ops_view(out@) =~= ops_view(out@) + Seq::<OpView>::empty());
    }
}

fn push_fixed_alone(out: &mut Vec<Operation>, st: &String, l: &String, seg: &Segment) -> (r: Result<
    (),
    CompileError,
>)
    ensures
        outcome(ops_view(final(out)@), ops_view(old(out)@), r, fixed_alone_ops(st@, l@, seg@)),
{
    let ghost o = ops_view(out@);
    match seg {
        Segment::FixedLength(t, SegmentData::Num(n)) => {
            push_op(out, make_cut(st, l, *n));
            push_op(out, make_length(l, *n, *n));
            push_discard(out, l, *t);
            assert(ops_view(out@) =~= o + (seq![cut_op(st@, l@, *n), length_op(l@, *n, *n)]
                + discard_ops(l@, *t)));
            Ok(())
        },
        Segment::FixedLength(_, _) => Err(CompileError::ExpectedNumber),
        Segment::FixedSequence(_, SegmentData::Sequence(q)) => {
            push_anchor(out, st, l, q, AlignMode::Prefix);
            Ok(())
        },
        Segment::FixedSequence(_, _) => Err(CompileError::ExpectedSequence),
        _ => Err(CompileError::ExpectedFixed),
    }
}

fn push_variable_then_anchor(
    out: &mut Vec<Operation>,
    st: &String,
    l: &String,
    var: &Segment,
    anchor: &Segment,
) -> (r: Result<(), CompileError>)
    ensures
        outcome(
            ops_view(final(out)@),
            ops_view(old(out)@),
            r,
            variable_then_anchor_ops(st@, l@, var@, anchor@),
        ),
{
    let ghost o = ops_view(out@);
    let q = match anchor {
        Segment::FixedSequence(_, SegmentData::Sequence(q)) => q,
        _ => {
            return Err(CompileError::ExpectedSequence);
        },
    };
    match var {
        Segment::Ranged(t, r) => {
            if !matches!(t, SegmentType::Discard) && r.to == usize::MAX {
                return Err(CompileError::PadLengthOverflow);
            }
            push_anchor(out, st, l, q, AlignMode::Local);
            let ghost a = anchor_ops(st@, l@, q@, AlignMode::Local);
            push_op(out, make_length(l, r.from, r.to));
            if matches!(t, SegmentType::Discard) {
                push_op(out, Operation::Trim { label: suffixed(l, "_l") });
                assert(ops_view(out@) =~= o + (a + seq![
                    length_op(l@, r.from, r.to),
                    OpView::Trim { label: l@ + "_l"@ },
                ]));
            } else {
                push_op(out, Operation::Pad { label: suffixed(l, "_l"), length: r.to + 1 });
                assert(ops_view(out@) =~= o + (a + seq![
                    length_op(l@, r.from, r.to),
                    OpView::Pad { label: l@ + "_l"@, length: (r.to + 1) as usize },
                ]));
            }
            Ok(())
        },
        Segment::Unbounded(t) => {
            push_anchor(out, st, l, q, AlignMode::Local);
            push_discard(out, l, *t);
            assert(ops_view(out@) =~= o + (anchor_ops(st@, l@, q@, AlignMode::Local) + discard_ops(l@, *t)));
            Ok(())
        },
        _ => Err(CompileError::ExpectedVariable),
    }
}

fn push_ending(out: &mut Vec<Operation>, st: &String, l: &String, seg: &Segment) -> (r: Result<
    (),
    CompileError,
>)
    ensures
        outcome(ops_view(final(out)@), ops_view(old(out)@), r, ending_ops(st@, l@, seg@)),
{
    let ghost o = ops_view(out@);
    match seg {
        Segment::Unbounded(t) => {
            if matches!(t, SegmentType::Discard) {
                push_op(out, Operation::Trim { label: l.clone() });
            } else {
                assert(o + Seq::<OpView>::empty() =~= o);
            }
            Ok(())
        },
        Segment::Ranged(t, r) => {
            if !matches!(t, SegmentType::Discard) && r.to == usize::MAX {
                return Err(CompileError::PadLengthOverflow);
            }
            push_op(out, make_cut(st, l, r.to));
            push_op(out, make_length(l, r.from, r.to));
            if matches!(t, SegmentType::Discard) {
                push_op(out, Operation::Trim { label: suffixed(l, "_l") });
                push_op(out, Operation::Trim { label: suffixed(l, "_r") });
                assert(ops_view(out@) =~= o + seq![
                    cut_op(st@, l@, r.to),
                    length_op(l@, r.from, r.to),
                    OpView::Trim { label: l@ + "_l"@ },
                    OpView::Trim { label: l@ + "_r"@ },
                ]);
            } else {
                push_op(out, Operation::Pad { label: suffixed(l, "_l"), length: r.to + 1 });
                push_op(out, Operation::Trim { label: suffixed(l, "_r") });
                assert(ops_view(out@) =~= o + seq![
                    cut_op(st@, l@, r.to),
                    length_op(l@, r.from, r.to),
                    OpView::Pad { label: l@ + "_l"@, length: (r.to + 1) as usize },
                    OpView::Trim { label: l@ + "_r"@ },
                ]);
            }
            Ok(())
        },
        _ => Err(CompileError::ExpectedVariable),
    }
}

fn push_bounded(out: &mut Vec<Operation>, st: &String, l: &String, b: &BoundedSegment) -> (r: Result<
    (),
    CompileError,
>)
    ensures
        outcome(
            ops_view(final(out)@),
            ops_view(old(out)@),
            r,
            match b@ {
                BoundedView::Fixed(s) => fixed_alone_ops(st@, l@, s),
                BoundedView::VariableLenToSequence(v, f) => variable_then_anchor_ops(
                    st@,
                    l@,
                    v,
                    f,
                ),
            },
        ),
{
    match b {
        BoundedSegment::Fixed(s) => push_fixed_alone(out, st, l, s),
        BoundedSegment::VariableLenToSequence(v, f) => push_variable_then_anchor(out, st, l, v, f),
    }
}

impl ReadDescription {
    /// Compiles this read description into the operations that extract its
    /// fields, in the order in which they are to run.
    pub fn build_pipeline(&self) -> (r: Result<Vec<Operation>, CompileError>)
        ensures
            match r {
                Ok(v) => read_ops(self@) == Ok::<Seq<OpView>, CompileError>(ops_view(v@)),
                Err(e) => read_ops(self@) == Err::<Seq<OpView>, CompileError>(e),
            },
    {
        let n = match &self.num {
            SegmentData::Num(n) => *n,
            _ => {
                return Err(CompileError::ExpectedNumber);
            },
        };
        let mut out: Vec<Operation> = Vec::new();
        let mut tag = String::from_str("seq");
        push_decimal(&mut tag, n);
        tag.append(".");
        let start = suffixed(&tag, "*");
        match &self.description {
            SegmentComposite::BoundedToMaybeRangedOrUnbounded(bs, tail) => {
                let ghost bsv = bounded_views(bs@);
                let mut label = tag.clone();
                let mut st = start;
                let mut i: usize = 0;
                assert(ops_view(out@) =~= Seq::<OpView>::empty());
                while i < bs.len()
                    invariant
                        0 <= i <= bs@.len(),
                        bsv == bounded_views(bs@),
                        self@.num == DataView::Num(n),
                        self@.description == CompositeView::BoundedToMaybeRangedOrUnbounded(
                            bsv,
                            opt_segment_view(*tail),
                        ),
                        label@ == frontier(n as nat, i as nat),
                        st@ == selector(n as nat, i as nat),
                        bounded_list_ops(n as nat, bsv, 0) == prepend(
                            ops_view(out@),
                            bounded_list_ops(n as nat, bsv, i as nat),
                        ),
                    decreases bs@.len() - i,
                {
                    let ghost p = ops_view(out@);
                    assert(bsv[i as int] == bs@[i as int]@);
                    let r = push_bounded(&mut out, &st, &label, &bs[i]);
                    match r {
                        Ok(_) => {
                            proof {
                                let a = bounded_ops(n as nat, i as nat, bsv[i as int]);
                                lemma_prepend_assoc(p, a->Ok_0, bounded_list_ops(n as nat, bsv, (i + 1) as nat));
                            }
                        },
                        Err(e) => {
                            assert(bounded_list_ops(n as nat, bsv, i as nat) == Err::<
                                Seq<OpView>,
                                CompileError,
                            >(e));
                            assert(bounded_list_ops(n as nat, bsv, 0) == Err::<
                                Seq<OpView>,
                                CompileError,
                            >(e));
                            return Err(e);
                        },
                    }
                    label.append("_r");
                    st = label.clone();
                    i = i + 1;
                }
                assert(ops_view(out@) + Seq::<OpView>::empty() =~= ops_view(out@));
                match tail {
                    Some(t) => {
                        let r = push_ending(&mut out, &st, &label, t);
                        match r {
                            Ok(_) => Ok(out),
                            Err(e) => Err(e),
                        }
                    },
                    None => {
                        push_op(&mut out, Operation::Trim { label: label.clone() });
                        Ok(out)
                    },
                }
            },
            SegmentComposite::VariableLen(s) => {
                assert(ops_view(out@) =~= Seq::<OpView>::empty());
                let r = push_ending(&mut out, &start, &tag, s);
                assert(Seq::<OpView>::empty() + ops_view(out@) =~= ops_view(out@));
                match r {
                    Ok(_) => Ok(out),
                    Err(e) => Err(e),
                }
            },
        }
    }
}

} // verus!
