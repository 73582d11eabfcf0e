//! The operations that a compiled read description consists of, to be run
//! in order over the records of one mate by a read-processing engine.
//! Field names and transforms are written in that engine's expression syntax.
use vstd::prelude::*;

verus! {

/// How an anchor is located in the frontier.
#[derive(Debug, Clone, Copy, PartialEq, Eq, Structural)]
pub enum AlignMode {
    /// At the start of the frontier.
    Prefix,
    /// Anywhere inside the frontier.
    Local,
}

#[derive(Debug, Clone, PartialEq, Eq)]
pub enum Operation {
    /// Split a field at `index` bytes from its left end, as `transform` names the parts.
    Cut { transform: String, index: usize },
    /// Find the nucleotide `literal` with full identity and overlap, splitting
    /// as `transform` names the parts; keep only records where the `retain`
    /// field exists.
    MatchAnchor { transform: String, literal: String, mode: AlignMode, retain: String },
    /// Check that the length of `field` lies in `[min, max]`, writing the
    /// outcome as `transform` names it; keep only records where the check
    /// (the `retain` attribute) holds.
    LengthInBounds { field: String, transform: String, min: usize, max: usize, retain: String },
    /// Pad a field to `length` bytes.
    Pad { label: String, length: usize },
    /// Remove a field from the output.
    Trim { label: String },
}

/// Mathematical value of an `Operation`.
pub enum OpView {
    Cut { transform: Seq<char>, index: usize },
    MatchAnchor { transform: Seq<char>, literal: Seq<char>, mode: AlignMode, retain: Seq<char> },
    LengthInBounds {
        field: Seq<char>,
        transform: Seq<char>,
        min: usize,
        max: usize,
        retain: Seq<char>,
    },
    Pad { label: Seq<char>, length: usize },
    Trim { label: Seq<char> },
}

impl View for Operation {
    type V = OpView;

    open spec fn view(&self) -> OpView {
        match self {
            Operation::Cut { transform, index } => OpView::Cut {
                transform: transform@,
                index: *index,
            },
            Operation::MatchAnchor { transform, literal, mode, retain } => OpView::MatchAnchor {
                transform: transform@,
                literal: literal@,
                mode: *mode,
                retain: retain@,
            },
            Operation::LengthInBounds { field, transform, min, max, retain } => OpView::LengthInBounds {
                field: field@,
                transform: transform@,
                min: *min,
                max: *max,
                retain: retain@,
            },
            Operation::Pad { label, length } => OpView::Pad { label: label@, length: *length },
            Operation::Trim { label } => OpView::Trim { label: label@ },
        }
    }
}

/// The views of a list of operations.
pub open spec fn ops_view(v: Seq<Operation>) -> Seq<OpView> {
    v.map_values(|o: Operation| o@)
}

/// A record whose field has length `len` passes a length check.
pub open spec fn admits_length(op: OpView, len: nat) -> bool {
    match op {
        OpView::LengthInBounds { min, max, .. } => min <= len <= max,
        _ => true,
    }
}

} // verus!
