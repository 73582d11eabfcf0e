//! The grammar of geometry strings, stated as spec functions over the
//! characters of the input. Each rule takes a position and yields the node it
//! recognises there with the position after it, or `None`. Alternatives are
//! tried in order and repetition is greedy.
use crate::ast::{type_of_char, BoundedView, CompositeView, DataView, Range, ReadView, SegmentType, SegmentView};
use vstd::prelude::*;

verus! {

/// A whitespace character, as Unicode's White_Space property lists them.
pub open spec fn is_ws(c: char) -> bool {
    ('\t' <= c && c <= '\r') || c == ' ' || c == '\u{85}' || c == '\u{a0}' || c == '\u{1680}'
        || ('\u{2000}' <= c && c <= '\u{200a}') || c == '\u{2028}' || c == '\u{2029}' || c
        == '\u{202f}' || c == '\u{205f}' || c == '\u{3000}'
}

pub open spec fn is_digit(c: char) -> bool {
    '0' <= c && c <= '9'
}

pub open spec fn is_ident_start(c: char) -> bool {
    ('a' <= c && c <= 'z') || ('A' <= c && c <= 'Z') || c == '_'
}

pub open spec fn is_ident_char(c: char) -> bool {
    is_ident_start(c) || is_digit(c)
}

pub open spec fn is_nucleotide(c: char) -> bool {
    c == 'A' || c == 'T' || c == 'G' || c == 'C'
}

/// A character that names the type of a length, range or unbounded segment.
pub open spec fn is_type_char(c: char) -> bool {
    c == 'b' || c == 'u' || c == 'r' || c == 'x'
}

/// The character classes that the grammar scans runs of.
pub enum CharClass {
    Whitespace,
    Digit,
    IdentChar,
    Nucleotide,
}

pub open spec fn in_class(k: CharClass, c: char) -> bool {
    match k {
        CharClass::Whitespace => is_ws(c),
        CharClass::Digit => is_digit(c),
        CharClass::IdentChar => is_ident_char(c),
        CharClass::Nucleotide => is_nucleotide(c),
    }
}

/// The end of the longest run, starting at `i`, of characters of class `k`.
pub open spec fn class_end(s: Seq<char>, i: int, k: CharClass) -> int
    decreases s.len() - i,
{
    if 0 <= i < s.len() && in_class(k, s[i]) {
        class_end(s, i + 1, k)
    } else {
        i
    }
}

/// `s[i] == c`, within bounds.
pub open spec fn at(s: Seq<char>, i: int, c: char) -> bool {
    0 <= i < s.len() && s[i] == c
}

/// The value of a string of decimal digits.
pub open spec fn dec_value(d: Seq<char>) -> nat
    decreases d.len(),
{
    if d.len() == 0 {
        0
    } else {
        dec_value(d.drop_last()) * 10 + (d.last() as nat - '0' as nat) as nat
    }
}

/// A decimal integer without leading zeros (`0` alone, or a nonzero digit and
/// more digits), whose value fits in `usize`.
pub open spec fn p_int(s: Seq<char>, i: int) -> Option<(usize, int)> {
    let e = if 0 <= i < s.len() && '1' <= s[i] && s[i] <= '9' {
        class_end(s, i + 1, CharClass::Digit)
    } else if at(s, i, '0') {
        i + 1
    } else {
        i
    };
    if e > i && dec_value(s.subrange(i, e)) <= usize::MAX {
        Some((dec_value(s.subrange(i, e)) as usize, e))
    } else {
        None
    }
}

/// An optional `<identifier>` label, which is skipped; the identifier may be empty.
pub open spec fn p_label(s: Seq<char>, i: int) -> int {
    let j = if 0 <= i + 1 < s.len() && is_ident_start(s[i + 1]) {
        class_end(s, i + 2, CharClass::IdentChar)
    } else {
        i + 1
    };
    if at(s, i, '<') && at(s, j, '>') {
        j + 1
    } else {
        i
    }
}

/// The type character at `i` and the position after its optional label.
pub open spec fn p_head(s: Seq<char>, i: int) -> Option<(SegmentType, int)> {
    if 0 <= i < s.len() && is_type_char(s[i]) {
        Some((type_of_char(s[i]).unwrap(), p_label(s, i + 1)))
    } else {
        None
    }
}

/// `t<label>[n]`
pub open spec fn p_fixed(s: Seq<char>, i: int) -> Option<(SegmentView, int)> {
    match p_head(s, i) {
        Some((t, j)) => if at(s, j, '[') {
            match p_int(s, j + 1) {
                Some((n, k)) => if at(s, k, ']') {
                    Some((SegmentView::FixedLength(t, DataView::Num(n)), k + 1))
                } else {
                    None
                },
                None => None,
            }
        } else {
            None
        },
        None => None,
    }
}

/// `f<label>[ACGT...]`
pub open spec fn p_fixed_sequence(s: Seq<char>, i: int) -> Option<(SegmentView, int)> {
    if at(s, i, 'f') {
        let j = p_label(s, i + 1);
        let k = class_end(s, j + 1, CharClass::Nucleotide);
        if at(s, j, '[') && at(s, k, ']') {
            Some(
                (
                    SegmentView::FixedSequence(
                        SegmentType::Sequence,
                        DataView::Sequence(s.subrange(j + 1, k)),
                    ),
                    k + 1,
                ),
            )
        } else {
            None
        }
    } else {
        None
    }
}

/// `t<label>[n-m]`
pub open spec fn p_ranged(s: Seq<char>, i: int) -> Option<(SegmentView, int)> {
    match p_head(s, i) {
        Some((t, j)) => if at(s, j, '[') {
            match p_int(s, j + 1) {
                Some((from, k)) => if at(s, k, '-') {
                    match p_int(s, k + 1) {
                        Some((to, l)) => if at(s, l, ']') {
                            Some((SegmentView::Ranged(t, Range { from, to }), l + 1))
                        } else {
                            None
                        },
                        None => None,
                    }
                } else {
                    None
                },
                None => None,
            }
        } else {
            None
        },
        None => None,
    }
}

/// `t<label>:`
pub open spec fn p_unbounded(s: Seq<char>, i: int) -> Option<(SegmentView, int)> {
    match p_head(s, i) {
        Some((t, j)) => if at(s, j, ':') {
            Some((SegmentView::Unbounded(t), j + 1))
        } else {
            None
        },
        None => None,
    }
}

/// A ranged or an unbounded segment.
pub open spec fn p_variable(s: Seq<char>, i: int) -> Option<(SegmentView, int)> {
    match p_ranged(s, i) {
        Some(r) => Some(r),
        None => p_unbounded(s, i),
    }
}

/// A bounded segment, with whitespace around it: a fixed length or fixed
/// sequence segment alone, or else a variable segment closed by a fixed sequence.
pub open spec fn p_bounded(s: Seq<char>, i: int) -> Option<(BoundedView, int)> {
    let a = class_end(s, i, CharClass::Whitespace);
    let inner = match p_fixed(s, a) {
        Some((f, e)) => Some((BoundedView::Fixed(f), e)),
        None => match p_fixed_sequence(s, a) {
            Some((f, e)) => Some((BoundedView::Fixed(f), e)),
            None => match p_variable(s, a) {
                Some((v, e)) => match p_fixed_sequence(s, e) {
                    Some((f, e2)) => Some((BoundedView::VariableLenToSequence(v, f), e2)),
                    None => None,
                },
                None => None,
            },
        },
    };
    match inner {
        Some((b, e)) => Some((b, class_end(s, e, CharClass::Whitespace))),
        None => None,
    }
}

/// As many bounded segments as follow one another from `i`.
pub open spec fn p_bounded_list(s: Seq<char>, i: int) -> (Seq<BoundedView>, int)
    decreases s.len() - i,
{
    match p_bounded(s, i) {
        Some((b, e)) => if i < e <= s.len() {
            let (rest, end) = p_bounded_list(s, e);
            (seq![b] + rest, end)
        } else {
            (seq![], i)
        },
        None => (seq![], i),
    }
}

/// One or more bounded segments and an optional variable one, or else a
/// variable segment alone.
pub open spec fn p_composite(s: Seq<char>, i: int) -> Option<(CompositeView, int)> {
    let (bs, e) = p_bounded_list(s, i);
    if bs.len() > 0 {
        match p_variable(s, e) {
            Some((t, e2)) => Some((CompositeView::BoundedToMaybeRangedOrUnbounded(bs, Some(t)), e2)),
            None => Some((CompositeView::BoundedToMaybeRangedOrUnbounded(bs, None), e)),
        }
    } else {
        match p_variable(s, i) {
            Some((t, e2)) => Some((CompositeView::VariableLen(t), e2)),
            None => None,
        }
    }
}

/// `n{composite}`
pub open spec fn p_read(s: Seq<char>, i: int) -> Option<(ReadView, int)> {
    match p_int(s, i) {
        Some((n, j)) => if at(s, j, '{') {
            match p_composite(s, j + 1) {
                Some((c, k)) => if at(s, k, '}') {
                    Some((ReadView { num: DataView::Num(n), description: c }, k + 1))
                } else {
                    None
                },
                None => None,
            }
        } else {
            None
        },
        None => None,
    }
}

/// A whole geometry string: exactly two read descriptions and nothing after.
/// On failure, the position at which the read description that failed
/// starts, or at which the end of the input was expected.
pub open spec fn parse_geometry(s: Seq<char>) -> Result<Seq<ReadView>, int> {
    match p_read(s, 0) {
        None => Err(0),
        Some((r1, e1)) => match p_read(s, e1) {
            None => Err(e1),
            Some((r2, e2)) => if e2 == s.len() {
                Ok(seq![r1, r2])
            } else {
                Err(e2)
            },
        },
    }
}

/// A run of class `k` from `i` ends within the input, and all of it is of that class.
pub proof fn lemma_class_end_bounds(s: Seq<char>, i: int, k: CharClass)
    requires
        0 <= i <= s.len(),
    ensures
        i <= class_end(s, i, k) <= s.len(),
        forall|m: int| i <= m < class_end(s, i, k) ==> in_class(k, #[trigger] s[m]),
    decreases s.len() - i,
{
    if 0 <= i < s.len() && in_class(k, s[i]) {
        lemma_class_end_bounds(s, i + 1, k);
    }
}

} // verus!
