use chumsky::prelude::{end, just, one_of, Parser, Simple};
use chumsky::text;
use chumsky::text::TextParser;
use seqproc::ast::{
    BoundedSegment, Range, ReadDescription, Segment, SegmentComposite, SegmentData, SegmentType,
};
use seqproc::parser::parser;

fn combinator_grammar() -> impl Parser<char, Vec<ReadDescription>, Error = Simple<char>> {
    let ident = text::ident()
        .repeated()
        .collect::<String>()
        .map(SegmentData::Label)
        .delimited_by(just('<'), just('>'));
    let int = text::int(10).map(|s: String| SegmentData::Num(s.parse().unwrap()));
    let nucleotides = one_of("ATGC").repeated().collect::<String>().map(SegmentData::Sequence);

    let fixed = one_of("burx")
        .then(ident.or_not())
        .then_ignore(just('['))
        .then(int)
        .then_ignore(just(']'))
        .map(|((t, _), n)| Segment::FixedLength(SegmentType::new(t), n));
    let fixed_sequence = just('f')
        .then(ident.or_not())
        .then(nucleotides.delimited_by(just('['), just(']')))
        .map(|(_, q)| Segment::FixedSequence(SegmentType::Sequence, q));
    let ranged = one_of("burx")
        .then(ident.or_not())
        .then_ignore(just('['))
        .then(int)
        .then_ignore(just('-'))
        .then(int)
        .then_ignore(just(']'))
        .map(|(((t, _), from), to)| Segment::new_ranged(t, from, to));
    let unbounded = one_of("burx")
        .then(ident.or_not())
        .then_ignore(just(':'))
        .map(|(t, _)| Segment::Unbounded(SegmentType::new(t)));

    let bounded = fixed
        .or(fixed_sequence.clone())
        .map(BoundedSegment::Fixed)
        .or(ranged
            .clone()
            .or(unbounded.clone())
            .then(fixed_sequence)
            .map(|(v, f)| BoundedSegment::VariableLenToSequence(v, f)))
        .padded();
    let composite = bounded
        .repeated()
        .at_least(1)
        .then(ranged.clone().or(unbounded.clone()).or_not())
        .map(|(b, t)| SegmentComposite::BoundedToMaybeRangedOrUnbounded(b, t))
        .or(unbounded.or(ranged).map(SegmentComposite::VariableLen));
    int.then(composite.delimited_by(just('{'), just('}')))
        .map(|(num, description)| ReadDescription { num, description })
        .repeated()
        .exactly(2)
        .then_ignore(end())
}

#[test]
fn agrees_with_combinator_grammar() {
    let cases = [
        "1{b[4]f[ATGC]x[0-10]}2{r:}",
        "1{b[16]u[12]r:}2{r:}",
        "1{b[8]}2{r:}",
        "1{f[ATGC]}2{r:}",
        "1{f[]}2{x:}",
        "1{f[ATXG]}2{r:}",
        "1{u[3-9]f[GG]r:}2{r:}",
        "1{ b<bc>[8] u<>[2]\tr:}2{r<rest>:}",
        "1{b<1a>[8]}2{r:}",
        "1{b[08]}2{r:}",
        "1{b[0]}2{r:}",
        "1{b[4]}2{r:} ",
        " 1{b[4]}2{r:}",
        "1{ r:}2{r:}",
        "1{r: }2{r:}",
        "1{b[4] }2{r:}",
        "1{q[4]}2{r:}",
        "1{b[4}2{r:}",
        "1{r:}",
        "1{r:}2{r:}3{r:}",
        "",
        "1{x[5-2]f[A]}2{r[9-1]}",
        "1{x[5-2]}2{r[1-2]f[C]x[3]}",
        "1{r:f[A]r:f[T]}2{b[1]x:f[G]}",
        "1{r:f[A]r:}2{r:f[T]}",
        "1{b[1]f[A]x[1-3]f[C]u[2-4]}2{r[0-0]}",
        "1{b[1]r[2-3]}2{r:}",
        "1{b[1]r[2-3]r:}2{r:}",
        "1{b[1] b[2]}2{r:}",
        "1{b[1]\nb[2]\n}2{r:}",
        "1{b[1]}2{r:}\n",
        "1{f<x>[AC]}2{f<>[G]}",
        "01{r:}2{r:}",
        "1{r:}2{r}",
        "1{r[-3]}2{r:}",
        "1{b[1]f[A]}2{r:f[A]}",
        "10{r:}200{x:}",
    ];
    let grammar = combinator_grammar();
    for case in cases {
        let expected = grammar.parse(case).ok();
        let actual = parser(case).ok();
        assert_eq!(actual, expected, "on {:?}", case);
    }
}
