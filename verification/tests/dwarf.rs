use struct_lint::analysis::analyze_structs;
use struct_lint::dwarf::{dwarf_open, extract_structs, run_analysis, DebugSections};
use struct_lint::model::{AnalysisConfig, Issue};

// Hand-assembled debug metadata: a 32-bit, version-4 unit holding two base
// types and one structure with two members. The same unit bytes are laid
// down twice so the walk crosses a unit boundary and deduplication has
// something to collapse.

fn uleb(mut v: u64, out: &mut Vec<u8>) {
    loop {
        let b = (v & 0x7f) as u8;
        v >>= 7;
        if v != 0 {
            out.push(b | 0x80);
        } else {
            out.push(b);
            break;
        }
    }
}

fn abbrev_section() -> Vec<u8> {
    let mut a: Vec<u8> = Vec::new();
    // code 1: compile unit, has children, no attributes
    a.extend([0x01, 0x11, 0x01, 0x00, 0x00]);
    // code 2: structure type, has children; name (inline string),
    // byte size (data1), declaration file (data1), declaration line (data1)
    a.extend([0x02, 0x13, 0x01, 0x03, 0x08, 0x0b, 0x0b, 0x3a, 0x0b, 0x3b, 0x0b, 0x00, 0x00]);
    // code 3: member, no children; name (inline string), type (ref4),
    // data member location (udata)
    a.extend([0x03, 0x0d, 0x00, 0x03, 0x08, 0x49, 0x13, 0x38, 0x0f, 0x00, 0x00]);
    // code 4: base type, no children; name (inline string), byte size (data1)
    a.extend([0x04, 0x24, 0x00, 0x03, 0x08, 0x0b, 0x0b, 0x00, 0x00]);
    a.push(0x00);
    a
}

fn one_unit() -> Vec<u8> {
    let mut body: Vec<u8> = Vec::new();
    // The unit header of a 32-bit version-4 unit is 11 bytes; DIE offsets
    // count from the start of the header.
    let header_len = 11u64;
    let mut push_str = |body: &mut Vec<u8>, s: &str| {
        body.extend(s.as_bytes());
        body.push(0);
    };

    // Root: compile unit.
    uleb(1, &mut body);

    // Base type "char", size 1.
    let char_off = header_len + body.len() as u64;
    uleb(4, &mut body);
    push_str(&mut body, "char");
    body.push(1);

    // Base type "unsigned int", size 4.
    let uint_off = header_len + body.len() as u64;
    uleb(4, &mut body);
    push_str(&mut body, "unsigned int");
    body.push(4);

    // Structure "foo_header_t", 5 bytes, declared at file 1 line 7.
    uleb(2, &mut body);
    push_str(&mut body, "foo_header_t");
    body.push(5);
    body.push(1);
    body.push(7);

    // Member "tag": char at offset 0.
    uleb(3, &mut body);
    push_str(&mut body, "tag");
    body.extend((char_off as u32).to_le_bytes());
    uleb(0, &mut body);

    // Member "len": unsigned int at offset 1.
    uleb(3, &mut body);
    push_str(&mut body, "len");
    body.extend((uint_off as u32).to_le_bytes());
    uleb(1, &mut body);

    // End of the structure's children, end of the unit's children.
    body.push(0);
    body.push(0);

    let mut unit: Vec<u8> = Vec::new();
    let length = (header_len - 4) + body.len() as u64;
    unit.extend((length as u32).to_le_bytes());
    unit.extend(4u16.to_le_bytes());
    unit.extend(0u32.to_le_bytes());
    unit.push(8);
    unit.extend(body);
    unit
}

fn sections() -> DebugSections {
    let mut info = one_unit();
    info.extend(one_unit());
    DebugSections {
        info,
        abbrev: abbrev_section(),
        str_data: Vec::new(),
        line: Vec::new(),
        line_str: Vec::new(),
        str_offsets: Vec::new(),
    }
}

#[test]
fn extracts_and_deduplicates_across_real_units() {
    let reader = dwarf_open(sections());
    let structs = extract_structs(&reader);
    assert_eq!(structs.len(), 1);
    let s = &structs[0];
    assert_eq!(s.name, "foo_header_t");
    assert_eq!(s.size, 5);
    assert_eq!(s.decl_line, 7);
    // No line-number program was supplied, so the file index cannot be
    // resolved to a path.
    assert_eq!(s.decl_file, "<unknown>");
    assert_eq!(s.members.len(), 2);
    assert_eq!(s.members[0].name, "tag");
    assert_eq!(s.members[0].ty_name, "char");
    assert_eq!(s.members[0].offset, 0);
    assert_eq!(s.members[0].size, 1);
    assert_eq!(s.members[1].name, "len");
    assert_eq!(s.members[1].ty_name, "unsigned int");
    assert_eq!(s.members[1].offset, 1);
    assert_eq!(s.members[1].size, 4);
    assert!(!s.members[1].is_bitfield);
}

#[test]
fn full_run_flags_the_misaligned_member() {
    let reader = dwarf_open(sections());
    let cfg = AnalysisConfig {
        max_align: 4,
        pattern: r"_(rec|pkt(_\w+)?|header)_t$".to_string(),
        alignment_check: true,
        packed_check: true,
    };
    let (structs, issues) = run_analysis(&reader, &cfg);
    assert_eq!(structs.len(), 1);
    assert_eq!(issues.len(), 1);
    match &issues[0] {
        Issue::MisalignedMember { struct_name, member_name, offset, natural_alignment, .. } => {
            assert_eq!(struct_name, "foo_header_t");
            assert_eq!(member_name, "len");
            assert_eq!(*offset, 1);
            assert_eq!(*natural_alignment, 4);
        },
        other => panic!("expected a misaligned-member finding, got {:?}", other),
    }
}

#[test]
fn empty_sections_yield_no_aggregates() {
    let reader = dwarf_open(DebugSections {
        info: Vec::new(),
        abbrev: Vec::new(),
        str_data: Vec::new(),
        line: Vec::new(),
        line_str: Vec::new(),
        str_offsets: Vec::new(),
    });
    let structs = extract_structs(&reader);
    assert!(structs.is_empty());
}

#[test]
fn truncated_info_section_is_not_fatal() {
    let mut info = one_unit();
    info.extend(one_unit());
    // Chop the second unit short: its header still parses, its records do
    // not, and the walk must still deliver the first unit's aggregate.
    info.truncate(one_unit().len() + 15);
    let reader = dwarf_open(DebugSections {
        info,
        abbrev: abbrev_section(),
        str_data: Vec::new(),
        line: Vec::new(),
        line_str: Vec::new(),
        str_offsets: Vec::new(),
    });
    let structs = extract_structs(&reader);
    assert_eq!(structs.len(), 1);
    assert_eq!(structs[0].name, "foo_header_t");
}
