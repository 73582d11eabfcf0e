use seqproc::ast::{
    BoundedSegment, Range, ReadDescription, Segment, SegmentComposite, SegmentData, SegmentType,
};
use seqproc::compile::CompileError;
use seqproc::names::{check_names, NameError, NameFault};
use seqproc::ops::{AlignMode, Operation};
use seqproc::parser::{parser, ParseError};

fn s(x: &str) -> String {
    x.to_string()
}

fn only_bounded(geom: &str) -> Vec<BoundedSegment> {
    let reads = parser(geom).unwrap();
    match &reads[0].description {
        SegmentComposite::BoundedToMaybeRangedOrUnbounded(b, _) => b.clone(),
        other => panic!("unexpected composite {:?}", other),
    }
}

#[test]
fn fixed_length_barcode_parses_exactly() {
    let b = only_bounded("1{b[8]}2{r:}");
    assert_eq!(
        b,
        vec![BoundedSegment::Fixed(Segment::FixedLength(SegmentType::Barcode, SegmentData::Num(8)))]
    );
}

#[test]
fn fixed_sequence_parses_exactly() {
    let b = only_bounded("1{f[ATGC]}2{r:}");
    assert_eq!(
        b,
        vec![BoundedSegment::Fixed(Segment::FixedSequence(
            SegmentType::Sequence,
            SegmentData::Sequence(s("ATGC"))
        ))]
    );
}

#[test]
fn non_nucleotide_literal_is_rejected() {
    assert_eq!(parser("1{f[ATXG]}2{r:}"), Err(ParseError { position: 0 }));
    assert_eq!(parser("1{r:}2{f[ACGN]}"), Err(ParseError { position: 5 }));
    assert_eq!(parser("1{f[atgc]}2{r:}"), Err(ParseError { position: 0 }));
}

#[test]
fn exactly_two_descriptions_are_required() {
    assert_eq!(parser(""), Err(ParseError { position: 0 }));
    assert_eq!(parser("1{r:}"), Err(ParseError { position: 5 }));
    assert_eq!(parser("1{r:}2{r:}3{r:}"), Err(ParseError { position: 10 }));
    assert_eq!(parser("1{r:}2{r:}").unwrap().len(), 2);
}

#[test]
fn full_geometry_parses() {
    let reads = parser("1{b[4]f[ATGC]x[0-10]}2{r:}").unwrap();
    assert_eq!(
        reads,
        vec![
            ReadDescription {
                num: SegmentData::Num(1),
                description: SegmentComposite::BoundedToMaybeRangedOrUnbounded(
                    vec![
                        BoundedSegment::Fixed(Segment::FixedLength(
                            SegmentType::Barcode,
                            SegmentData::Num(4)
                        )),
                        BoundedSegment::Fixed(Segment::FixedSequence(
                            SegmentType::Sequence,
                            SegmentData::Sequence(s("ATGC"))
                        )),
                    ],
                    Some(Segment::Ranged(SegmentType::Discard, Range { from: 0, to: 10 })),
                ),
            },
            ReadDescription {
                num: SegmentData::Num(2),
                description: SegmentComposite::VariableLen(Segment::Unbounded(SegmentType::Read)),
            },
        ]
    );
}

#[test]
fn variable_region_to_anchor_parses() {
    let b = only_bounded("1{u[3-9]f[GG]r:}2{r:}");
    assert_eq!(
        b,
        vec![BoundedSegment::VariableLenToSequence(
            Segment::Ranged(SegmentType::UMI, Range { from: 3, to: 9 }),
            Segment::FixedSequence(SegmentType::Sequence, SegmentData::Sequence(s("GG")))
        )]
    );
}

#[test]
fn labels_and_whitespace_are_skipped() {
    let with = parser("1{ b<bc>[8] u<>[2]\tr:}2{r<rest>:}").unwrap();
    let without = parser("1{b[8]u[2]r:}2{r:}").unwrap();
    assert_eq!(with, without);
}

#[test]
fn numbers_have_no_leading_zeros_and_fit() {
    assert_eq!(parser("1{b[08]}2{r:}"), Err(ParseError { position: 0 }));
    assert_eq!(parser("1{b[0]}2{r:}").unwrap().len(), 2);
    assert_eq!(
        parser("1{b[99999999999999999999999]}2{r:}"),
        Err(ParseError { position: 0 })
    );
    assert_eq!(parser("1{b[4]}2{r:} "), Err(ParseError { position: 12 }));
}

#[test]
fn unknown_type_character_is_rejected() {
    assert_eq!(parser("1{q[4]}2{r:}"), Err(ParseError { position: 0 }));
    assert_eq!(parser("1{b[4}2{r:}"), Err(ParseError { position: 0 }));
}

#[test]
fn compiles_barcode_anchor_and_discard() {
    let reads = parser("1{b[4]f[ATGC]x[0-10]}2{r:}").unwrap();
    let ops = reads[0].build_pipeline().unwrap();
    assert_eq!(
        ops,
        vec![
            Operation::Cut { transform: s("seq1.* -> seq1._l, seq1._r"), index: 4 },
            Operation::LengthInBounds {
                field: s("seq1._l"),
                transform: s("seq1._l -> seq1._l.v_len"),
                min: 4,
                max: 4,
                retain: s("seq1._l.v_len"),
            },
            Operation::MatchAnchor {
                transform: s("seq1._r -> seq1._r_anchor, seq1._r_r"),
                literal: s("ATGC"),
                mode: AlignMode::Prefix,
                retain: s("seq1._r_anchor"),
            },
            Operation::Trim { label: s("seq1._r_anchor") },
            Operation::Cut { transform: s("seq1._r_r -> seq1._r_r_l, seq1._r_r_r"), index: 10 },
            Operation::LengthInBounds {
                field: s("seq1._r_r_l"),
                transform: s("seq1._r_r_l -> seq1._r_r_l.v_len"),
                min: 0,
                max: 10,
                retain: s("seq1._r_r_l.v_len"),
            },
            Operation::Trim { label: s("seq1._r_r_l") },
            Operation::Trim { label: s("seq1._r_r_r") },
        ]
    );
    assert_eq!(reads[1].build_pipeline().unwrap(), vec![]);
}

#[test]
fn compiles_barcode_umi_read() {
    let reads = parser("1{b[16]u[12]r:}2{r:}").unwrap();
    let ops = reads[0].build_pipeline().unwrap();
    assert_eq!(
        ops,
        vec![
            Operation::Cut { transform: s("seq1.* -> seq1._l, seq1._r"), index: 16 },
            Operation::LengthInBounds {
                field: s("seq1._l"),
                transform: s("seq1._l -> seq1._l.v_len"),
                min: 16,
                max: 16,
                retain: s("seq1._l.v_len"),
            },
            Operation::Cut { transform: s("seq1._r -> seq1._r_l, seq1._r_r"), index: 12 },
            Operation::LengthInBounds {
                field: s("seq1._r_l"),
                transform: s("seq1._r_l -> seq1._r_l.v_len"),
                min: 12,
                max: 12,
                retain: s("seq1._r_l.v_len"),
            },
        ]
    );
    assert_eq!(reads[1].build_pipeline().unwrap(), vec![]);
}

#[test]
fn compiling_twice_gives_the_same_operations() {
    let reads = parser("1{b[4]x[2-5]f[ACG]u:f[T]r[1-50]}2{x[3]r:}").unwrap();
    for r in &reads {
        assert_eq!(r.build_pipeline(), r.build_pipeline());
    }
}

#[test]
fn variable_region_before_anchor_is_located_locally() {
    let reads = parser("12{u[3-9]f[GG]}7{x:}").unwrap();
    let ops = reads[0].build_pipeline().unwrap();
    assert_eq!(
        ops,
        vec![
            Operation::MatchAnchor {
                transform: s("seq12.* -> seq12._l, seq12._anchor, seq12._r"),
                literal: s("GG"),
                mode: AlignMode::Local,
                retain: s("seq12._anchor"),
            },
            Operation::Trim { label: s("seq12._anchor") },
            Operation::LengthInBounds {
                field: s("seq12._l"),
                transform: s("seq12._l -> seq12._l.v_len"),
                min: 3,
                max: 9,
                retain: s("seq12._l.v_len"),
            },
            Operation::Pad { label: s("seq12._l"), length: 10 },
            Operation::Trim { label: s("seq12._r") },
        ]
    );
    assert_eq!(
        reads[1].build_pipeline().unwrap(),
        vec![Operation::Trim { label: s("seq7.") }]
    );
}

#[test]
fn ending_ranged_read_is_cut_padded_and_trimmed() {
    let reads = parser("1{r[2-5]}2{x[0-1]f[A]}").unwrap();
    assert_eq!(
        reads[0].build_pipeline().unwrap(),
        vec![
            Operation::Cut { transform: s("seq1.* -> seq1._l, seq1._r"), index: 5 },
            Operation::LengthInBounds {
                field: s("seq1._l"),
                transform: s("seq1._l -> seq1._l.v_len"),
                min: 2,
                max: 5,
                retain: s("seq1._l.v_len"),
            },
            Operation::Pad { label: s("seq1._l"), length: 6 },
            Operation::Trim { label: s("seq1._r") },
        ]
    );
    let second = reads[1].build_pipeline().unwrap();
    assert_eq!(second[3], Operation::Trim { label: s("seq2._l") });
    assert_eq!(second.len(), 5);
}

#[test]
fn inverted_range_is_kept_and_admits_no_length() {
    let reads = parser("1{x[5-2]f[A]}2{r[9-1]}").unwrap();
    let ops = reads[0].build_pipeline().unwrap();
    assert_eq!(
        ops[2],
        Operation::LengthInBounds {
            field: s("seq1._l"),
            transform: s("seq1._l -> seq1._l.v_len"),
            min: 5,
            max: 2,
            retain: s("seq1._l.v_len"),
        }
    );
    let ops = reads[1].build_pipeline().unwrap();
    assert!(matches!(ops[1], Operation::LengthInBounds { min: 9, max: 1, .. }));
}

#[test]
fn shapes_the_grammar_never_builds_are_errors() {
    let label = ReadDescription {
        num: SegmentData::Label(s("a")),
        description: SegmentComposite::VariableLen(Segment::Unbounded(SegmentType::Read)),
    };
    assert_eq!(label.build_pipeline(), Err(CompileError::ExpectedNumber));
    let ranged_alone = ReadDescription {
        num: SegmentData::Num(1),
        description: SegmentComposite::BoundedToMaybeRangedOrUnbounded(
            vec![BoundedSegment::Fixed(Segment::Unbounded(SegmentType::Read))],
            None,
        ),
    };
    assert_eq!(ranged_alone.build_pipeline(), Err(CompileError::ExpectedFixed));
    let bad_anchor = ReadDescription {
        num: SegmentData::Num(1),
        description: SegmentComposite::BoundedToMaybeRangedOrUnbounded(
            vec![BoundedSegment::VariableLenToSequence(
                Segment::Unbounded(SegmentType::Read),
                Segment::FixedLength(SegmentType::Barcode, SegmentData::Num(3)),
            )],
            None,
        ),
    };
    assert_eq!(bad_anchor.build_pipeline(), Err(CompileError::ExpectedSequence));
    let fixed_at_end = ReadDescription {
        num: SegmentData::Num(1),
        description: SegmentComposite::VariableLen(Segment::FixedLength(
            SegmentType::Read,
            SegmentData::Num(3),
        )),
    };
    assert_eq!(fixed_at_end.build_pipeline(), Err(CompileError::ExpectedVariable));
    let huge = ReadDescription {
        num: SegmentData::Num(1),
        description: SegmentComposite::VariableLen(Segment::Ranged(
            SegmentType::Read,
            Range { from: 0, to: usize::MAX },
        )),
    };
    assert_eq!(huge.build_pipeline(), Err(CompileError::PadLengthOverflow));
}

#[test]
fn no_trailing_segment_trims_the_frontier() {
    let reads = parser("1{b[2]}2{r:}").unwrap();
    let ops = reads[0].build_pipeline().unwrap();
    assert_eq!(ops[2], Operation::Trim { label: s("seq1._r") });
    assert_eq!(ops.len(), 3);
}

#[test]
fn discarded_fixed_segment_is_trimmed() {
    let reads = parser("1{x[3]r:}2{r:}").unwrap();
    let ops = reads[0].build_pipeline().unwrap();
    assert_eq!(ops[2], Operation::Trim { label: s("seq1._l") });
    assert_eq!(ops.len(), 3);
}

#[test]
fn segment_constructors() {
    assert_eq!(SegmentType::new('b'), SegmentType::Barcode);
    assert_eq!(SegmentType::new('u'), SegmentType::UMI);
    assert_eq!(SegmentType::new('x'), SegmentType::Discard);
    assert_eq!(SegmentType::new('r'), SegmentType::Read);
    assert_eq!(SegmentType::new('f'), SegmentType::Sequence);
    assert_eq!(
        Segment::new_ranged('x', SegmentData::Num(2), SegmentData::Num(7)),
        Segment::Ranged(SegmentType::Discard, Range { from: 2, to: 7 })
    );
}

#[test]
fn engine_accepts_compiled_names() {
    let reads = parser("1{b[4]f[ATGC]x[0-10]}2{u[3-9]f[GG]r:}").unwrap();
    for r in &reads {
        assert_eq!(check_names(&r.build_pipeline().unwrap()), Ok(()));
    }
}

#[test]
fn engine_rejects_an_empty_field_name() {
    let reads = parser("1{x:}2{r:}").unwrap();
    let ops = reads[0].build_pipeline().unwrap();
    assert_eq!(ops, vec![Operation::Trim { label: s("seq1.") }]);
    assert_eq!(check_names(&ops), Err(NameError { op: 0, fault: NameFault::Rejected }));
}

#[test]
fn engine_cannot_store_long_field_names() {
    let reads = parser("1{b[1]b[1]b[1]b[1]b[1]b[1]b[1]b[1]b[1]b[1]}2{r:}").unwrap();
    let ops = reads[0].build_pipeline().unwrap();
    assert_eq!(check_names(&ops), Err(NameError { op: 18, fault: NameFault::TooLong }));
    let rejected = vec![Operation::Cut { transform: s("seq1.* seq1._l"), index: 1 }];
    assert_eq!(check_names(&rejected), Err(NameError { op: 0, fault: NameFault::Rejected }));
}
