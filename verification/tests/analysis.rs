use struct_lint::analysis::{analyze_structs, infer_packed, natural_align, sum_member_sizes};
use struct_lint::model::{AnalysisConfig, Issue, MemberInfo, StructInfo};

const PACK_PATTERN: &str = r"_(rec|pkt(_\w+)?|header)_t$";

fn mem(name: &str, ty: &str, offset: u64, size: u64, is_bitfield: bool) -> MemberInfo {
    MemberInfo {
        name: name.to_string(),
        ty_name: ty.to_string(),
        offset,
        size,
        is_bitfield,
    }
}

fn agg(name: &str, size: u64, members: Vec<MemberInfo>) -> StructInfo {
    StructInfo {
        name: name.to_string(),
        size,
        members,
        decl_file: "include/defs.h".to_string(),
        decl_line: 42,
    }
}

fn cfg(max_align: u64) -> AnalysisConfig {
    AnalysisConfig {
        max_align,
        pattern: PACK_PATTERN.to_string(),
        alignment_check: true,
        packed_check: true,
    }
}

#[test]
fn natural_align_is_min_of_size_and_word_width() {
    assert_eq!(natural_align(1, 4), 1);
    assert_eq!(natural_align(4, 4), 4);
    assert_eq!(natural_align(8, 4), 4);
    assert_eq!(natural_align(16, 8), 8);
    assert_eq!(natural_align(2, 8), 2);
}

#[test]
fn sum_of_member_sizes_is_exact() {
    let ms = vec![mem("a", "u8", 0, 1, false), mem("b", "u32", 1, 4, false)];
    assert_eq!(sum_member_sizes(&ms), 5);
    let empty: Vec<MemberInfo> = vec![];
    assert_eq!(sum_member_sizes(&empty), 0);
}

#[test]
fn scenario_a_packed_header_with_misaligned_u32() {
    // Two fields, u8 at 0 and u32 at 1, total 5 = sum: packed, and the u32
    // sits off its natural alignment of 4.
    let s = agg(
        "foo_header_t",
        5,
        vec![mem("tag", "unsigned char", 0, 1, false), mem("len", "unsigned int", 1, 4, false)],
    );
    assert!(infer_packed(&s, 4));
    let issues = analyze_structs(&vec![s], &cfg(4));
    assert_eq!(issues.len(), 1);
    match &issues[0] {
        Issue::MisalignedMember {
            struct_name,
            member_name,
            member_size,
            offset,
            natural_alignment,
            decl_file,
            decl_line,
            ..
        } => {
            assert_eq!(struct_name, "foo_header_t");
            assert_eq!(member_name, "len");
            assert_eq!(*member_size, 4);
            assert_eq!(*offset, 1);
            assert_eq!(*natural_alignment, 4);
            assert_eq!(decl_file, "include/defs.h");
            assert_eq!(*decl_line, 42);
        },
        other => panic!("expected a misaligned-member finding, got {:?}", other),
    }
}

#[test]
fn scenario_b_padded_packet_is_flagged_not_packed() {
    // u8 at 0, u32 at 4, total 8 but sum 5: not packed, the name matches the
    // pattern, and 3 bytes of padding are reported.
    let s = agg(
        "net_pkt_t",
        8,
        vec![mem("kind", "unsigned char", 0, 1, false), mem("len", "unsigned int", 4, 4, false)],
    );
    assert!(!infer_packed(&s, 4));
    let issues = analyze_structs(&vec![s], &cfg(4));
    assert_eq!(issues.len(), 1);
    match &issues[0] {
        Issue::NotPacked { struct_name, padding_bytes, pattern, .. } => {
            assert_eq!(struct_name, "net_pkt_t");
            assert_eq!(*padding_bytes, 3);
            assert_eq!(pattern, PACK_PATTERN);
        },
        other => panic!("expected a not-packed finding, got {:?}", other),
    }
}

#[test]
fn scenario_c_padded_but_name_does_not_match() {
    let s = agg(
        "plain_counter_t",
        8,
        vec![mem("kind", "unsigned char", 0, 1, false), mem("len", "unsigned int", 4, 4, false)],
    );
    let issues = analyze_structs(&vec![s], &cfg(4));
    assert!(issues.is_empty());
}

#[test]
fn small_and_bitfield_members_never_trip_the_alignment_check() {
    // Packed via a misaligned u32; the bitfield and the one-byte member sit
    // at odd offsets too, yet only the plain u32 is reported.
    let s = agg(
        "mix_rec_t",
        9,
        vec![
            mem("a", "unsigned char", 0, 1, false),
            mem("b", "unsigned int", 1, 4, false),
            mem("c", "unsigned int", 5, 4, true),
        ],
    );
    assert!(infer_packed(&s, 4));
    let issues = analyze_structs(&vec![s], &cfg(4));
    assert_eq!(issues.len(), 1);
    match &issues[0] {
        Issue::MisalignedMember { member_name, .. } => assert_eq!(member_name, "b"),
        other => panic!("expected a misaligned-member finding, got {:?}", other),
    }
}

#[test]
fn wide_member_alignment_is_capped_at_word_width() {
    // A 16-byte member at offset 4 under an 8-byte word: its natural
    // alignment is 8, not 16.
    let s = agg("v_rec_t", 20, vec![
        mem("head", "unsigned int", 0, 4, false),
        mem("body", "vec16", 4, 16, false),
    ]);
    assert!(infer_packed(&s, 8));
    let issues = analyze_structs(&vec![s], &cfg(8));
    assert_eq!(issues.len(), 1);
    match &issues[0] {
        Issue::MisalignedMember { member_name, natural_alignment, .. } => {
            assert_eq!(member_name, "body");
            assert_eq!(*natural_alignment, 8);
        },
        other => panic!("expected a misaligned-member finding, got {:?}", other),
    }
}

#[test]
fn tail_padding_marks_a_layout_as_packed() {
    // u32 then u8, total 5 = sum: default layout would pad the tail to 8,
    // so the layout is packed; all offsets are aligned, so no finding.
    let s = agg("tail_t", 5, vec![
        mem("len", "unsigned int", 0, 4, false),
        mem("tag", "unsigned char", 4, 1, false),
    ]);
    assert!(infer_packed(&s, 4));
    let issues = analyze_structs(&vec![s], &cfg(4));
    assert!(issues.is_empty());
}

#[test]
fn default_aligned_layout_is_not_packed() {
    // u32 at 0, u32 at 4, total 8 = sum, nothing would be padded.
    let s = agg("pair_rec_t", 8, vec![
        mem("a", "unsigned int", 0, 4, false),
        mem("b", "unsigned int", 4, 4, false),
    ]);
    assert!(!infer_packed(&s, 4));
    let issues = analyze_structs(&vec![s], &cfg(4));
    assert!(issues.is_empty());
}

#[test]
fn inner_gap_marks_a_layout_as_packed() {
    // u8 then u32, total 5 = sum: default layout would pad before the u32.
    let s = agg("gap_t", 5, vec![
        mem("tag", "unsigned char", 0, 1, false),
        mem("len", "unsigned int", 1, 4, false),
    ]);
    assert!(infer_packed(&s, 4));
}

#[test]
fn zero_sized_members_leave_a_layout_unpacked() {
    let s = agg("z_rec_t", 0, vec![mem("a", "?", 0, 0, false)]);
    assert!(!infer_packed(&s, 4));
    // Name matches the pattern but padding is 0, so nothing is reported.
    let issues = analyze_structs(&vec![s], &cfg(4));
    assert!(issues.is_empty());
}

#[test]
fn packing_inference_is_deterministic_and_layout_only() {
    let a = agg("one_t", 5, vec![
        mem("x", "unsigned char", 0, 1, false),
        mem("y", "unsigned int", 1, 4, false),
    ]);
    let b = agg("other_name", 5, vec![
        mem("p", "different", 0, 1, false),
        mem("q", "names", 1, 4, false),
    ]);
    assert_eq!(infer_packed(&a, 4), infer_packed(&a, 4));
    assert_eq!(infer_packed(&a, 4), infer_packed(&b, 4));
    assert_eq!(infer_packed(&a, 8), infer_packed(&b, 8));
}

#[test]
fn analysis_is_repeatable_on_the_same_input() {
    let structs = vec![
        agg("foo_header_t", 5, vec![
            mem("tag", "unsigned char", 0, 1, false),
            mem("len", "unsigned int", 1, 4, false),
        ]),
        agg("net_pkt_t", 8, vec![
            mem("kind", "unsigned char", 0, 1, false),
            mem("len", "unsigned int", 4, 4, false),
        ]),
    ];
    let first = analyze_structs(&structs, &cfg(4));
    let second = analyze_structs(&structs, &cfg(4));
    assert_eq!(first, second);
}

#[test]
fn findings_follow_discovery_then_member_order() {
    let structs = vec![
        agg("a_rec_t", 9, vec![
            mem("m1", "unsigned int", 1, 4, false),
            mem("m2", "unsigned int", 5, 4, false),
            mem("m3", "unsigned short", 9, 1, false),
        ]),
        agg("b_pkt_t", 16, vec![
            mem("n1", "unsigned char", 0, 1, false),
            mem("n2", "unsigned int", 4, 4, false),
        ]),
    ];
    let issues = analyze_structs(&structs, &cfg(4));
    assert_eq!(issues.len(), 3);
    match (&issues[0], &issues[1], &issues[2]) {
        (
            Issue::MisalignedMember { member_name: m1, .. },
            Issue::MisalignedMember { member_name: m2, .. },
            Issue::NotPacked { struct_name, padding_bytes, .. },
        ) => {
            assert_eq!(m1, "m1");
            assert_eq!(m2, "m2");
            assert_eq!(struct_name, "b_pkt_t");
            assert_eq!(*padding_bytes, 11);
        },
        other => panic!("unexpected findings {:?}", other),
    }
}

#[test]
fn switches_disable_each_check_independently() {
    let packed = agg("foo_header_t", 5, vec![
        mem("tag", "unsigned char", 0, 1, false),
        mem("len", "unsigned int", 1, 4, false),
    ]);
    let padded = agg("net_pkt_t", 8, vec![
        mem("kind", "unsigned char", 0, 1, false),
        mem("len", "unsigned int", 4, 4, false),
    ]);
    let mut c = cfg(4);
    c.alignment_check = false;
    let issues = analyze_structs(&vec![packed, padded], &c);
    assert_eq!(issues.len(), 1);
    assert!(matches!(&issues[0], Issue::NotPacked { .. }));

    let packed = agg("foo_header_t", 5, vec![
        mem("tag", "unsigned char", 0, 1, false),
        mem("len", "unsigned int", 1, 4, false),
    ]);
    let padded = agg("net_pkt_t", 8, vec![
        mem("kind", "unsigned char", 0, 1, false),
        mem("len", "unsigned int", 4, 4, false),
    ]);
    let mut c = cfg(4);
    c.packed_check = false;
    let issues = analyze_structs(&vec![packed, padded], &c);
    assert_eq!(issues.len(), 1);
    assert!(matches!(&issues[0], Issue::MisalignedMember { .. }));
}

#[test]
fn pattern_variants_and_invalid_pattern() {
    let make = |name: &str| {
        agg(name, 8, vec![
            mem("kind", "unsigned char", 0, 1, false),
            mem("len", "unsigned int", 4, 4, false),
        ])
    };
    // The default pattern accepts _rec_t, _pkt_t, _pkt_<word>_t and
    // _header_t suffixes, and nothing else.
    let issues = analyze_structs(
        &vec![make("a_rec_t"), make("b_pkt_t"), make("c_pkt_tx_t"), make("d_header_t"), make("e_t")],
        &cfg(4),
    );
    assert_eq!(issues.len(), 4);
    // An unparsable pattern disables the not-packed check entirely.
    let bad = AnalysisConfig {
        max_align: 4,
        pattern: "(".to_string(),
        alignment_check: true,
        packed_check: true,
    };
    let issues = analyze_structs(&vec![make("a_rec_t")], &bad);
    assert!(issues.is_empty());
}

#[test]
fn odd_sized_members_align_to_multiples_of_their_size() {
    // Three-byte members under a 4-byte word have natural alignment 3:
    // offsets 0 and 3 are fine, offset 4 is not.
    let aligned = agg("tri_t", 6, vec![
        mem("a", "triple", 0, 3, false),
        mem("b", "triple", 3, 3, false),
    ]);
    assert!(!infer_packed(&aligned, 4));
    let shifted = agg("tri_t", 6, vec![
        mem("a", "triple", 0, 3, false),
        mem("b", "triple", 4, 3, false),
    ]);
    assert!(infer_packed(&shifted, 4));
    let issues = analyze_structs(&vec![shifted], &cfg(4));
    assert_eq!(issues.len(), 1);
    match &issues[0] {
        Issue::MisalignedMember { member_name, natural_alignment, offset, .. } => {
            assert_eq!(member_name, "b");
            assert_eq!(*natural_alignment, 3);
            assert_eq!(*offset, 4);
        },
        other => panic!("expected a misaligned-member finding, got {:?}", other),
    }
}
