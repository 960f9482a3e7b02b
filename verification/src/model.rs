use vstd::prelude::*;

verus! {

// Debug-record tag codes understood by the extraction passes.
pub const TAG_MEMBER: u16 = 0x0d;
pub const TAG_STRUCTURE_TYPE: u16 = 0x13;
pub const TAG_TYPEDEF: u16 = 0x16;

// Debug-record attribute codes read off a record.
pub const AT_BYTE_SIZE: u16 = 0x0b;
pub const AT_BIT_OFFSET: u16 = 0x0c;
pub const AT_BIT_SIZE: u16 = 0x0d;
pub const AT_DATA_MEMBER_LOCATION: u16 = 0x38;
pub const AT_DECL_FILE: u16 = 0x3a;
pub const AT_DECL_LINE: u16 = 0x3b;
pub const AT_TYPE: u16 = 0x49;

/// One attribute value read off a debug record, reduced to the encodings the
/// passes understand. Anything else is `Present` (the attribute exists, in a
/// form no pass reads) or `Absent`.
#[derive(Clone, Copy, Debug)]
pub enum NumAttr {
    Udata(u64),
    Sdata(i64),
    Data1(u8),
    Data2(u16),
    Data4(u32),
    Data8(u64),
    FileIdx(u64),
    Ref(u64),
    Present,
    Absent,
}

/// One debug record of a compilation unit, flattened to plain values: its
/// offset within the unit, its depth in the record tree (the unit root is at
/// depth 0), its tag, and the attributes the passes read. `loc_file` and
/// `loc_line` carry the resolved declaration coordinates for structure
/// records; other records leave them at their sentinel values.
#[derive(Debug)]
pub struct RawRecord {
    pub offset: u64,
    pub depth: u64,
    pub tag: u16,
    pub name: Option<String>,
    pub size_attr: NumAttr,
    pub type_ref: Option<u64>,
    pub member_loc: NumAttr,
    pub has_bit_attr: bool,
    pub loc_file: String,
    pub loc_line: u64,
}

/// Mathematical image of a `RawRecord`.
#[verifier::ext_equal]
pub ghost struct RecordModel {
    pub offset: u64,
    pub depth: u64,
    pub tag: u16,
    pub name: Option<Seq<char>>,
    pub size_attr: NumAttr,
    pub type_ref: Option<u64>,
    pub member_loc: NumAttr,
    pub has_bit_attr: bool,
    pub loc_file: Seq<char>,
    pub loc_line: u64,
}

impl View for RawRecord {
    type V = RecordModel;

    open spec fn view(&self) -> RecordModel {
        RecordModel {
            offset: self.offset,
            depth: self.depth,
            tag: self.tag,
            name: match self.name {
                Some(s) => Some(s@),
                None => None,
            },
            size_attr: self.size_attr,
            type_ref: self.type_ref,
            member_loc: self.member_loc,
            has_bit_attr: self.has_bit_attr,
            loc_file: self.loc_file@,
            loc_line: self.loc_line,
        }
    }
}

impl DeepView for RawRecord {
    type V = RecordModel;

    open spec fn deep_view(&self) -> RecordModel {
        self.view()
    }
}

/// One member of a reconstructed aggregate.
#[derive(Debug, PartialEq)]
pub struct MemberInfo {
    pub name: String,
    pub ty_name: String,
    pub offset: u64,
    pub size: u64,
    pub is_bitfield: bool,
}

/// Mathematical image of a `MemberInfo`.
#[verifier::ext_equal]
pub ghost struct MemberModel {
    pub name: Seq<char>,
    pub ty_name: Seq<char>,
    pub offset: u64,
    pub size: u64,
    pub is_bitfield: bool,
}

impl View for MemberInfo {
    type V = MemberModel;

    open spec fn view(&self) -> MemberModel {
        MemberModel {
            name: self.name@,
            ty_name: self.ty_name@,
            offset: self.offset,
            size: self.size,
            is_bitfield: self.is_bitfield,
        }
    }
}

impl DeepView for MemberInfo {
    type V = MemberModel;

    open spec fn deep_view(&self) -> MemberModel {
        self.view()
    }
}

/// A reconstructed aggregate type: name, total byte size, members in
/// declaration order, and declaration coordinates.
#[derive(Debug, PartialEq)]
pub struct StructInfo {
    pub name: String,
    pub size: u64,
    pub members: Vec<MemberInfo>,
    pub decl_file: String,
    pub decl_line: u64,
}

/// Mathematical image of a `StructInfo`.
#[verifier::ext_equal]
pub ghost struct StructModel {
    pub name: Seq<char>,
    pub size: u64,
    pub members: Seq<MemberModel>,
    pub decl_file: Seq<char>,
    pub decl_line: u64,
}

impl View for StructInfo {
    type V = StructModel;

    open spec fn view(&self) -> StructModel {
        StructModel {
            name: self.name@,
            size: self.size,
            members: self.members.deep_view(),
            decl_file: self.decl_file@,
            decl_line: self.decl_line,
        }
    }
}

impl DeepView for StructInfo {
    type V = StructModel;

    open spec fn deep_view(&self) -> StructModel {
        self.view()
    }
}

/// A layout finding.
#[derive(Debug, PartialEq)]
pub enum Issue {
    MisalignedMember {
        struct_name: String,
        member_name: String,
        ty_name: String,
        member_size: u64,
        offset: u64,
        natural_alignment: u64,
        decl_file: String,
        decl_line: u64,
    },
    NotPacked {
        struct_name: String,
        padding_bytes: u64,
        pattern: String,
        decl_file: String,
        decl_line: u64,
    },
}

/// Mathematical image of an `Issue`.
#[verifier::ext_equal]
pub ghost enum IssueModel {
    MisalignedMember {
        struct_name: Seq<char>,
        member_name: Seq<char>,
        ty_name: Seq<char>,
        member_size: u64,
        offset: u64,
        natural_alignment: u64,
        decl_file: Seq<char>,
        decl_line: u64,
    },
    NotPacked {
        struct_name: Seq<char>,
        padding_bytes: u64,
        pattern: Seq<char>,
        decl_file: Seq<char>,
        decl_line: u64,
    },
}

impl View for Issue {
    type V = IssueModel;

    open spec fn view(&self) -> IssueModel {
        match self {
            Issue::MisalignedMember {
                struct_name,
                member_name,
                ty_name,
                member_size,
                offset,
                natural_alignment,
                decl_file,
                decl_line,
            } => IssueModel::MisalignedMember {
                struct_name: struct_name@,
                member_name: member_name@,
                ty_name: ty_name@,
                member_size: *member_size,
                offset: *offset,
                natural_alignment: *natural_alignment,
                decl_file: decl_file@,
                decl_line: *decl_line,
            },
            Issue::NotPacked { struct_name, padding_bytes, pattern, decl_file, decl_line } => {
                IssueModel::NotPacked {
                    struct_name: struct_name@,
                    padding_bytes: *padding_bytes,
                    pattern: pattern@,
                    decl_file: decl_file@,
                    decl_line: *decl_line,
                }
            },
        }
    }
}

impl DeepView for Issue {
    type V = IssueModel;

    open spec fn deep_view(&self) -> IssueModel {
        self.view()
    }
}

/// The configuration surface the analysis consumes: the target word width in
/// bytes, the naming pattern that marks packing candidates, and the two
/// switches that disable the misalignment check and the not-packed check.
pub struct AnalysisConfig {
    pub max_align: u64,
    pub pattern: String,
    pub alignment_check: bool,
    pub packed_check: bool,
}

} // verus!
