//! Checks that the read-processing engine accepts every name and transform
//! in a compiled operation list, before any record is read.
use crate::ops::{OpView, Operation};
use vstd::prelude::*;

verus! {

/// Whether antisequence takes the text as a `type.label` name.
pub uninterp spec fn label_accepted(s: Seq<char>) -> bool;

/// Whether antisequence takes the text as a transform expression.
pub uninterp spec fn transform_accepted(s: Seq<char>) -> bool;

/// The longest name part that the engine stores.
pub const PART_LIMIT: usize = 24;

/// How many characters other than `.` and `,` end at index `k`.
pub open spec fn run_len_at(s: Seq<char>, k: int) -> nat
    decreases k + 1,
{
    if k < 0 || k >= s.len() || s[k] == '.' || s[k] == ',' {
        0
    } else {
        run_len_at(s, k - 1) + 1
    }
}

/// No stretch of the text between `.` and `,` is longer than `PART_LIMIT`.
pub open spec fn runs_fit(s: Seq<char>) -> bool {
    forall|k: int| 0 <= k < s.len() ==> #[trigger] run_len_at(s, k) <= PART_LIMIT
}

/// Why the engine cannot use a name.
#[derive(Debug, Clone, Copy, PartialEq, Eq, Structural)]
pub enum NameFault {
    /// A part of it is longer than the engine can store.
    TooLong,
    /// The engine's parser rejects it.
    Rejected,
}

/// The first operation, by index, with a name that the engine cannot use.
#[derive(Debug, Clone, Copy, PartialEq, Eq, Structural)]
pub struct NameError {
    pub op: usize,
    pub fault: NameFault,
}

/// The fault of one name, read as a transform or as a label.
pub open spec fn name_fault(s: Seq<char>, transform: bool) -> Option<NameFault> {
    if !runs_fit(s) {
        Some(NameFault::TooLong)
    } else if transform && !transform_accepted(s) {
        Some(NameFault::Rejected)
    } else if !transform && !label_accepted(s) {
        Some(NameFault::Rejected)
    } else {
        None
    }
}

/// The fault of the first name of an operation that the engine reads, if any.
pub open spec fn op_fault(op: OpView) -> Option<NameFault> {
    match op {
        OpView::Cut { transform, .. } => name_fault(transform, true),
        OpView::MatchAnchor { transform, retain, .. } => match name_fault(transform, true) {
            Some(f) => Some(f),
            None => name_fault(retain, false),
        },
        OpView::LengthInBounds { field, .. } => name_fault(field, false),
        OpView::Pad { label, .. } => name_fault(label, false),
        OpView::Trim { label } => name_fault(label, false),
    }
}

/// Relies on antisequence's `Label::new`, which parses a `type.label` name.
/// It panics only where the label part, made of `[A-Za-z0-9_*]`, is longer
/// than 24 bytes, which `runs_fit` rules out.
#[verifier::external_body]
fn label_parses(s: &str) -> (r: bool)
    requires
        runs_fit(s@),
    ensures
        r == label_accepted(s@),
{
    antisequence::expr::Label::new(s.as_bytes()).is_ok()
}

/// Relies on antisequence's `TransformExpr::from_bytes`, which parses a
/// transform expression. Each name part that it stores lies between
/// separators `.` and `,`, and it panics only where one is longer than 24
/// bytes, which `runs_fit` rules out.
#[verifier::external_body]
fn transform_parses(s: &str) -> (r: bool)
    requires
        runs_fit(s@),
    ensures
        r == transform_accepted(s@),
{
    antisequence::expr::TransformExpr::from_bytes(s.as_bytes()).is_ok()
}

fn parts_fit(s: &str) -> (r: bool)
    ensures
        r == runs_fit(s@),
{
    let n = s.unicode_len();
    let mut cur: usize = 0;
    let mut k: usize = 0;
    while k < n
        invariant
            k <= n == s@.len(),
            cur == run_len_at(s@, k - 1),
            cur <= PART_LIMIT,
            forall|m: int| 0 <= m < k ==> #[trigger] run_len_at(s@, m) <= PART_LIMIT,
        decreases n - k,
    {
        let c = s.get_char(k);
        if c == '.' || c == ',' {
            cur = 0;
        } else {
            if cur == PART_LIMIT {
                assert(run_len_at(s@, k as int) > PART_LIMIT);
                return false;
            }
            cur = cur + 1;
        }
        k = k + 1;
    }
    true
}

fn check_name(s: &String, transform: bool) -> (r: Option<NameFault>)
    ensures
        r == name_fault(s@, transform),
{
    if !parts_fit(s.as_str()) {
        Some(NameFault::TooLong)
    } else if transform && !transform_parses(s.as_str()) {
        Some(NameFault::Rejected)
    } else if !transform && !label_parses(s.as_str()) {
        Some(NameFault::Rejected)
    } else {
        None
    }
}

fn check_op(op: &Operation) -> (r: Option<NameFault>)
    ensures
        r == op_fault(op@),
{
    match op {
        Operation::Cut { transform, .. } => check_name(transform, true),
        Operation::MatchAnchor { transform, retain, .. } => match check_name(transform, true) {
            Some(f) => Some(f),
            None => check_name(retain, false),
        },
        Operation::LengthInBounds { field, .. } => check_name(field, false),
        Operation::Pad { label, .. } => check_name(label, false),
        Operation::Trim { label } => check_name(label, false),
    }
}

/// Finds the first operation with a name that the engine cannot use.
pub fn check_names(ops: &Vec<Operation>) -> (r: Result<(), NameError>)
    ensures
        match r {
            Ok(_) => forall|i: int| 0 <= i < ops@.len() ==> op_fault(#[trigger] ops@[i]@) is None,
            Err(e) => {
                &&& e.op < ops@.len()
                &&& op_fault(ops@[e.op as int]@) == Some(e.fault)
                &&& forall|i: int| 0 <= i < e.op ==> op_fault(#[trigger] ops@[i]@) is None
            },
        },
{
    let mut i: usize = 0;
    while i < ops.len()
        invariant
            i <= ops@.len(),
            forall|j: int| 0 <= j < i ==> op_fault(#[trigger] ops@[j]@) is None,
        decreases ops@.len() - i,
    {
        match check_op(&ops[i]) {
            Some(fault) => {
                return Err(NameError { op: i, fault });
            },
            None => {},
        }
        i = i + 1;
    }
    Ok(())
}

} // verus!
