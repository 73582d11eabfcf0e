//! The parser of geometry strings, proved to compute `parse_geometry`.
use crate::ast::{
    bounded_views, read_views, BoundedSegment, BoundedView, Range, ReadDescription, ReadView,
    Segment, SegmentComposite, SegmentData, SegmentType,
};
use crate::grammar::{
    at, class_end, dec_value, in_class, p_bounded, p_bounded_list, p_composite, p_fixed,
    p_fixed_sequence, p_head, p_int, p_label, p_ranged, p_read, p_unbounded, p_variable,
    parse_geometry, CharClass,
};
use vstd::prelude::*;

verus! {

/// A geometry string that the grammar does not accept.
#[derive(Debug, Clone, Copy, PartialEq, Eq)]
pub struct ParseError {
    /// Where the read description that failed starts, or where the end of
    /// the input was expected, counted in characters.
    pub position: usize,
}

/// The input, as text and as its characters.
struct Input<'a> {
    text: &'a str,
    chars: Vec<char>,
}

impl<'a> Input<'a> {
    spec fn s(&self) -> Seq<char> {
        self.chars@
    }

    spec fn wf(&self) -> bool {
        &&& self.chars@ == self.text@
        &&& self.chars@.len() <= usize::MAX
    }
}

/// An exec result agrees with a grammar rule's result.
pub open spec fn agrees<T: View>(r: Option<(T, usize)>, g: Option<(T::V, int)>) -> bool {
    match r {
        Some((x, e)) => g == Some((x@, e as int)),
        None => g is None,
    }
}

proof fn lemma_dec_value_prefix(d: Seq<char>, m: int)
    requires
        0 <= m <= d.len(),
    ensures
        dec_value(d.subrange(0, m)) <= dec_value(d),
    decreases d.len(),
{
    if m < d.len() {
        lemma_dec_value_prefix(d.drop_last(), m);
        assert(d.drop_last().subrange(0, m) =~= d.subrange(0, m));
    } else {
        assert(d.subrange(0, m) =~= d);
    }
}

fn char_in_class(k: &CharClass, c: char) -> (r: bool)
    ensures
        r == in_class(*k, c),
{
    match k {
        CharClass::Whitespace => ('\t' <= c && c <= '\r') || c == ' ' || c == '\u{85}' || c
            == '\u{a0}' || c == '\u{1680}' || ('\u{2000}' <= c && c <= '\u{200a}') || c
            == '\u{2028}' || c == '\u{2029}' || c == '\u{202f}' || c == '\u{205f}' || c
            == '\u{3000}',
        CharClass::Digit => '0' <= c && c <= '9',
        CharClass::IdentChar => ('a' <= c && c <= 'z') || ('A' <= c && c <= 'Z') || c == '_'
            || ('0' <= c && c <= '9'),
        CharClass::Nucleotide => c == 'A' || c == 'T' || c == 'G' || c == 'C',
    }
}

fn scan(inp: &Input, i: usize, k: CharClass) -> (r: usize)
    requires
        i <= inp.s().len(),
        inp.wf(),
    ensures
        r as int == class_end(inp.s(), i as int, k),
        i <= r <= inp.s().len(),
        forall|m: int| i <= m < r ==> in_class(k, #[trigger] inp.s()[m]),
{
    let mut j: usize = i;
    while j < inp.chars.len() && char_in_class(&k, inp.chars[j])
        invariant
            i <= j <= inp.s().len(),
            class_end(inp.s(), i as int, k) == class_end(inp.s(), j as int, k),
            forall|m: int| i <= m < j ==> in_class(k, #[trigger] inp.s()[m]),
        decreases inp.s().len() - j,
    {
        j = j + 1;
    }
    j
}

fn at_char(inp: &Input, i: usize, c: char) -> (r: bool)
    ensures
        r == at(inp.s(), i as int, c),
{
    i < inp.chars.len() && inp.chars[i] == c
}

fn parse_int(inp: &Input, i: usize) -> (r: Option<(usize, usize)>)
    requires
        i <= inp.s().len(),
        inp.wf(),
    ensures
        match r {
            Some((n, e)) => p_int(inp.s(), i as int) == Some((n, e as int)) && i < e <= inp.s().len(),
            None => p_int(inp.s(), i as int) is None,
        },
{
    let ghost s = inp.s();
    let e: usize;
    if i < inp.chars.len() && '1' <= inp.chars[i] && inp.chars[i] <= '9' {
        e = scan(inp, i + 1, CharClass::Digit);
    } else if at_char(inp, i, '0') {
        e = i + 1;
    } else {
        return None;
    }
    let mut v: usize = 0;
    let mut k: usize = i;
    while k < e
        invariant
            i <= k <= e <= s.len(),
            s == inp.s(),
            s.len() <= usize::MAX,
            e > i,
            p_int(s, i as int) == (if dec_value(s.subrange(i as int, e as int)) <= usize::MAX {
                Some((dec_value(s.subrange(i as int, e as int)) as usize, e as int))
            } else {
                None
            }),
            forall|m: int| i <= m < e ==> '0' <= #[trigger] s[m] && s[m] <= '9',
            v as nat == dec_value(s.subrange(i as int, k as int)),
        decreases e - k,
    {
        let d = (inp.chars[k] as u32 - '0' as u32) as usize;
        assert(s.subrange(i as int, k + 1).drop_last() =~= s.subrange(i as int, k as int));
        assert(dec_value(s.subrange(i as int, k + 1)) == v * 10 + d);
        let m = v.checked_mul(10);
        let w = match m {
            Some(m) => m.checked_add(d),
            None => None,
        };
        match w {
            Some(w) => {
                v = w;
            },
            None => {
                proof {
                    lemma_dec_value_prefix(s.subrange(i as int, e as int), k + 1 - i);
                    assert(s.subrange(i as int, e as int).subrange(0, k + 1 - i) =~= s.subrange(
                        i as int,
                        k + 1,
                    ));
                    assert(dec_value(s.subrange(i as int, e as int)) > usize::MAX);
                }
                return None;
            },
        }
        k = k + 1;
    }
    Some((v, e))
}

fn parse_label(inp: &Input, i: usize) -> (r: usize)
    requires
        i <= inp.s().len(),
        inp.wf(),
    ensures
        r as int == p_label(inp.s(), i as int),
        i <= r <= inp.s().len(),
{
    if !at_char(inp, i, '<') {
        return i;
    }
    let j: usize;
    if i + 1 < inp.chars.len() && (char_in_class(&CharClass::IdentChar, inp.chars[i + 1]) && !(
    '0' <= inp.chars[i + 1] && inp.chars[i + 1] <= '9')) {
        j = scan(inp, i + 2, CharClass::IdentChar);
    } else {
        j = i + 1;
    }
    if at_char(inp, j, '>') {
        j + 1
    } else {
        i
    }
}

fn parse_head(inp: &Input, i: usize) -> (r: Option<(SegmentType, usize)>)
    requires
        i <= inp.s().len(),
        inp.wf(),
    ensures
        match r {
            Some((t, e)) => p_head(inp.s(), i as int) == Some((t, e as int)) && i < e <= inp.s().len(),
            None => p_head(inp.s(), i as int) is None,
        },
{
    if i < inp.chars.len() {
        let c = inp.chars[i];
        if c == 'b' || c == 'u' || c == 'r' || c == 'x' {
            let t = SegmentType::new(c);
            let j = parse_label(inp, i + 1);
            return Some((t, j));
        }
    }
    None
}

fn parse_fixed(inp: &Input, i: usize) -> (r: Option<(Segment, usize)>)
    requires
        i <= inp.s().len(),
        inp.wf(),
    ensures
        agrees(r, p_fixed(inp.s(), i as int)),
        r matches Some((_, e)) ==> i < e <= inp.s().len(),
{
    if let Some((t, j)) = parse_head(inp, i) {
        if at_char(inp, j, '[') {
            if let Some((n, k)) = parse_int(inp, j + 1) {
                if at_char(inp, k, ']') {
                    return Some((Segment::FixedLength(t, SegmentData::Num(n)), k + 1));
                }
            }
        }
    }
    None
}

fn parse_fixed_sequence(inp: &Input, i: usize) -> (r: Option<(Segment, usize)>)
    requires
        i <= inp.s().len(),
        inp.wf(),
    ensures
        agrees(r, p_fixed_sequence(inp.s(), i as int)),
        r matches Some((_, e)) ==> i < e <= inp.s().len(),
{
    if !at_char(inp, i, 'f') {
        return None;
    }
    let j = parse_label(inp, i + 1);
    if !at_char(inp, j, '[') {
        return None;
    }
    let k = scan(inp, j + 1, CharClass::Nucleotide);
    if !at_char(inp, k, ']') {
        return None;
    }
    let lit = String::from_str(inp.text.substring_char(j + 1, k));
    Some((Segment::FixedSequence(SegmentType::Sequence, SegmentData::Sequence(lit)), k + 1))
}

fn parse_ranged(inp: &Input, i: usize) -> (r: Option<(Segment, usize)>)
    requires
        i <= inp.s().len(),
        inp.wf(),
    ensures
        agrees(r, p_ranged(inp.s(), i as int)),
        r matches Some((_, e)) ==> i < e <= inp.s().len(),
{
    if let Some((t, j)) = parse_head(inp, i) {
        if at_char(inp, j, '[') {
            if let Some((from, k)) = parse_int(inp, j + 1) {
                if at_char(inp, k, '-') {
                    if let Some((to, l)) = parse_int(inp, k + 1) {
                        if at_char(inp, l, ']') {
                            return Some((Segment::Ranged(t, Range { from, to }), l + 1));
                        }
                    }
                }
            }
        }
    }
    None
}

fn parse_unbounded(inp: &Input, i: usize) -> (r: Option<(Segment, usize)>)
    requires
        i <= inp.s().len(),
        inp.wf(),
    ensures
        agrees(r, p_unbounded(inp.s(), i as int)),
        r matches Some((_, e)) ==> i < e <= inp.s().len(),
{
    if let Some((t, j)) = parse_head(inp, i) {
        if at_char(inp, j, ':') {
            return Some((Segment::Unbounded(t), j + 1));
        }
    }
    None
}

fn parse_variable(inp: &Input, i: usize) -> (r: Option<(Segment, usize)>)
    requires
        i <= inp.s().len(),
        inp.wf(),
    ensures
        agrees(r, p_variable(inp.s(), i as int)),
        r matches Some((_, e)) ==> i < e <= inp.s().len(),
{
    match parse_ranged(inp, i) {
        Some(r) => Some(r),
        None => parse_unbounded(inp, i),
    }
}

fn parse_bounded(inp: &Input, i: usize) -> (r: Option<(BoundedSegment, usize)>)
    requires
        i <= inp.s().len(),
        inp.wf(),
    ensures
        agrees(r, p_bounded(inp.s(), i as int)),
        r matches Some((_, e)) ==> i < e <= inp.s().len(),
{
    let a = scan(inp, i, CharClass::Whitespace);
    let inner = match parse_fixed(inp, a) {
        Some((f, e)) => Some((BoundedSegment::Fixed(f), e)),
        None => match parse_fixed_sequence(inp, a) {
            Some((f, e)) => Some((BoundedSegment::Fixed(f), e)),
            None => match parse_variable(inp, a) {
                Some((v, e)) => match parse_fixed_sequence(inp, e) {
                    Some((f, e2)) => Some((BoundedSegment::VariableLenToSequence(v, f), e2)),
                    None => None,
                },
                None => None,
            },
        },
    };
    match inner {
        Some((b, e)) => {
            let end = scan(inp, e, CharClass::Whitespace);
            Some((b, end))
        },
        None => None,
    }
}

fn parse_bounded_list(inp: &Input, i: usize) -> (r: (Vec<BoundedSegment>, usize))
    requires
        i <= inp.s().len(),
        inp.wf(),
    ensures
        p_bounded_list(inp.s(), i as int) == (bounded_views(r.0@), r.1 as int),
        i <= r.1 <= inp.s().len(),
{
    let mut v: Vec<BoundedSegment> = Vec::new();
    let mut pos: usize = i;
    loop
        invariant
            i <= pos <= inp.s().len(),
            inp.wf(),
            p_bounded_list(inp.s(), i as int) == (
                bounded_views(v@) + p_bounded_list(inp.s(), pos as int).0,
                p_bounded_list(inp.s(), pos as int).1,
            ),
        decreases inp.s().len() - pos,
    {
        match parse_bounded(inp, pos) {
            Some((b, e)) => {
                let ghost old_v = v@;
                let ghost rest = p_bounded_list(inp.s(), e as int).0;
                v.push(b);
                assert(bounded_views(v@) =~= bounded_views(old_v) + seq![b@]);
                assert(bounded_views(old_v) + (seq![b@] + rest) =~= bounded_views(v@) + rest);
                pos = e;
            },
            None => {
                assert(bounded_views(v@) + Seq::<BoundedView>::empty() =~= bounded_views(v@));
                return (v, pos);
            },
        }
    }
}

fn parse_composite(inp: &Input, i: usize) -> (r: Option<(SegmentComposite, usize)>)
    requires
        i <= inp.s().len(),
        inp.wf(),
    ensures
        agrees(r, p_composite(inp.s(), i as int)),
        r matches Some((_, e)) ==> i <= e <= inp.s().len(),
{
    let (bs, e) = parse_bounded_list(inp, i);
    if bs.len() > 0 {
        match parse_variable(inp, e) {
            Some((t, e2)) => Some(
                (SegmentComposite::BoundedToMaybeRangedOrUnbounded(bs, Some(t)), e2),
            ),
            None => Some((SegmentComposite::BoundedToMaybeRangedOrUnbounded(bs, None), e)),
        }
    } else {
        match parse_variable(inp, i) {
            Some((t, e2)) => Some((SegmentComposite::VariableLen(t), e2)),
            None => None,
        }
    }
}

fn parse_read(inp: &Input, i: usize) -> (r: Option<(ReadDescription, usize)>)
    requires
        i <= inp.s().len(),
        inp.wf(),
    ensures
        agrees(r, p_read(inp.s(), i as int)),
        r matches Some((_, e)) ==> i < e <= inp.s().len(),
{
    if let Some((n, j)) = parse_int(inp, i) {
        if at_char(inp, j, '{') {
            if let Some((c, k)) = parse_composite(inp, j + 1) {
                if at_char(inp, k, '}') {
                    return Some(
                        (ReadDescription { num: SegmentData::Num(n), description: c }, k + 1),
                    );
                }
            }
        }
    }
    None
}

fn chars_of(geom: &str) -> (r: Vec<char>)
    ensures
        r@ == geom@,
        r@.len() <= usize::MAX,
{
    let n = geom.unicode_len();
    let mut chars: Vec<char> = Vec::new();
    let mut i: usize = 0;
    while i < n
        invariant
            i <= n,
            n == geom@.len(),
            chars@ == geom@.subrange(0, i as int),
        decreases n - i,
    {
        chars.push(geom.get_char(i));
        i = i + 1;
        assert(chars@ =~= geom@.subrange(0, i as int));
    }
    assert(chars@ =~= geom@);
    chars
}

/// Parses a geometry string into its two read descriptions, one per mate.
pub fn parser(geom: &str) -> (r: Result<Vec<ReadDescription>, ParseError>)
    ensures
        match r {
            Ok(v) => parse_geometry(geom@) == Ok::<Seq<ReadView>, int>(read_views(v@)),
            Err(e) => parse_geometry(geom@) == Err::<Seq<ReadView>, int>(e.position as int),
        },
{
    let chars = chars_of(geom);
    let inp = Input { text: geom, chars };
    match parse_read(&inp, 0) {
        None => Err(ParseError { position: 0 }),
        Some((r1, e1)) => match parse_read(&inp, e1) {
            None => Err(ParseError { position: e1 }),
            Some((r2, e2)) => if e2 == inp.chars.len() {
                let v = vec![r1, r2];
                assert(read_views(v@) =~= seq![r1@, r2@]);
                Ok(v)
            } else {
                Err(ParseError { position: e2 })
            },
        },
    }
}

} // verus!
