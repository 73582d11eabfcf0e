//! The abstract syntax of geometry strings, with a mathematical view of each node.
use vstd::prelude::*;

verus! {

/// Data attached to a segment: a count, a label, or a nucleotide literal.
#[derive(Debug, Clone, PartialEq, Eq)]
pub enum SegmentData {
    Num(usize),
    Label(String),
    Sequence(String),
}

/// Inclusive length bounds of a ranged segment. `from <= to` is not required.
#[derive(Debug, Clone, Copy, PartialEq, Eq)]
pub struct Range {
    pub from: usize,
    pub to: usize,
}

/// The role of a segment; `Discard` segments are removed from the output.
#[derive(Debug, Clone, Copy, Hash, PartialEq, Eq, Structural)]
pub enum SegmentType {
    Barcode,
    UMI,
    Sequence,
    Read,
    Discard,
}

#[derive(Debug, Clone, PartialEq, Eq)]
pub enum Segment {
    FixedLength(SegmentType, SegmentData),
    FixedSequence(SegmentType, SegmentData),
    Ranged(SegmentType, Range),
    Unbounded(SegmentType),
}

#[derive(Debug, Clone, PartialEq, Eq)]
pub enum BoundedSegment {
    Fixed(Segment),
    VariableLenToSequence(Segment, Segment),
}

#[derive(Debug, Clone, PartialEq, Eq)]
pub enum SegmentComposite {
    BoundedToMaybeRangedOrUnbounded(Vec<BoundedSegment>, Option<Segment>),
    VariableLen(Segment),
}

/// The layout of one mate: its number and its segments.
#[derive(Debug, Clone, PartialEq, Eq)]
pub struct ReadDescription {
    pub num: SegmentData,
    pub description: SegmentComposite,
}

/// Mathematical value of a `SegmentData`.
pub enum DataView {
    Num(usize),
    Label(Seq<char>),
    Sequence(Seq<char>),
}

/// Mathematical value of a `Segment`.
pub enum SegmentView {
    FixedLength(SegmentType, DataView),
    FixedSequence(SegmentType, DataView),
    Ranged(SegmentType, Range),
    Unbounded(SegmentType),
}

/// Mathematical value of a `BoundedSegment`.
pub enum BoundedView {
    Fixed(SegmentView),
    VariableLenToSequence(SegmentView, SegmentView),
}

/// Mathematical value of a `SegmentComposite`.
pub enum CompositeView {
    BoundedToMaybeRangedOrUnbounded(Seq<BoundedView>, Option<SegmentView>),
    VariableLen(SegmentView),
}

/// Mathematical value of a `ReadDescription`.
pub struct ReadView {
    pub num: DataView,
    pub description: CompositeView,
}

impl View for SegmentData {
    type V = DataView;

    open spec fn view(&self) -> DataView {
        match self {
            SegmentData::Num(n) => DataView::Num(*n),
            SegmentData::Label(l) => DataView::Label(l@),
            SegmentData::Sequence(s) => DataView::Sequence(s@),
        }
    }
}

impl View for Segment {
    type V = SegmentView;

    open spec fn view(&self) -> SegmentView {
        match self {
            Segment::FixedLength(t, d) => SegmentView::FixedLength(*t, d@),
            Segment::FixedSequence(t, d) => SegmentView::FixedSequence(*t, d@),
            Segment::Ranged(t, r) => SegmentView::Ranged(*t, *r),
            Segment::Unbounded(t) => SegmentView::Unbounded(*t),
        }
    }
}

impl View for BoundedSegment {
    type V = BoundedView;

    open spec fn view(&self) -> BoundedView {
        match self {
            BoundedSegment::Fixed(s) => BoundedView::Fixed(s@),
            BoundedSegment::VariableLenToSequence(v, f) => BoundedView::VariableLenToSequence(
                v@,
                f@,
            ),
        }
    }
}

/// The views of a list of bounded segments.
pub open spec fn bounded_views(v: Seq<BoundedSegment>) -> Seq<BoundedView> {
    v.map_values(|b: BoundedSegment| b@)
}

/// The view of an optional segment.
pub open spec fn opt_segment_view(o: Option<Segment>) -> Option<SegmentView> {
    match o {
        Some(s) => Some(s@),
        None => None,
    }
}

impl View for SegmentComposite {
    type V = CompositeView;

    open spec fn view(&self) -> CompositeView {
        match self {
            SegmentComposite::BoundedToMaybeRangedOrUnbounded(b, t) => {
                CompositeView::BoundedToMaybeRangedOrUnbounded(
                    bounded_views(b@),
                    opt_segment_view(*t),
                )
            },
            SegmentComposite::VariableLen(s) => CompositeView::VariableLen(s@),
        }
    }
}

impl View for ReadDescription {
    type V = ReadView;

    open spec fn view(&self) -> ReadView {
        ReadView { num: self.num@, description: self.description@ }
    }
}

/// The views of a list of read descriptions.
pub open spec fn read_views(v: Seq<ReadDescription>) -> Seq<ReadView> {
    v.map_values(|r: ReadDescription| r@)
}

/// The segment type that a type character stands for, if any.
pub open spec fn type_of_char(c: char) -> Option<SegmentType> {
    if c == 'b' {
        Some(SegmentType::Barcode)
    } else if c == 'u' {
        Some(SegmentType::UMI)
    } else if c == 'x' {
        Some(SegmentType::Discard)
    } else if c == 'r' {
        Some(SegmentType::Read)
    } else if c == 'f' {
        Some(SegmentType::Sequence)
    } else {
        None
    }
}

impl SegmentType {
    /// The segment type of a type character (`b`, `u`, `x`, `r` or `f`).
    pub fn new(segment_type: char) -> (r: Self)
        requires
            type_of_char(segment_type) is Some,
        ensures
            type_of_char(segment_type) == Some(r),
    {
        match segment_type {
            'b' => SegmentType::Barcode,
            'u' => SegmentType::UMI,
            'x' => SegmentType::Discard,
            'r' => SegmentType::Read,
            _ => SegmentType::Sequence,
        }
    }
}

impl Segment {
    /// A ranged segment of the given type character between two numbers.
    pub fn new_ranged(segment_type: char, from: SegmentData, to: SegmentData) -> (r: Self)
        requires
            type_of_char(segment_type) is Some,
            from is Num,
            to is Num,
        ensures
            r@ == SegmentView::Ranged(
                type_of_char(segment_type).unwrap(),
                Range { from: from->Num_0, to: to->Num_0 },
            ),
    {
        let t = SegmentType::new(segment_type);
        match (from, to) {
            (SegmentData::Num(f), SegmentData::Num(e)) => Segment::Ranged(t, Range { from: f, to: e }),
            (_, _) => unreached(),
        }
    }
}

} // verus!
