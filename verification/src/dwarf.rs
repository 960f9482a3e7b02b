use vstd::prelude::*;
use vstd::string::StringExecFns;

use gimli::AttributeValue as AV;
use gimli::DwAt;
use gimli::SectionId as Sid;
use gimli::UnitOffset;

use crate::analysis::{analyze_structs, spec_analyze};
use crate::extract::{
    dedup_structs, lemma_dedup_collapses_keys, lemma_unit_structs_nonempty, spec_dedup, spec_key,
    unit_structs,
};
use crate::extract::spec_unit_structs;
use crate::model::{
    AnalysisConfig, Issue, IssueModel, NumAttr, RawRecord, RecordModel, StructInfo, StructModel,
    AT_BIT_OFFSET, AT_BIT_SIZE, AT_BYTE_SIZE, AT_DATA_MEMBER_LOCATION, AT_DECL_FILE, AT_DECL_LINE,
    AT_TYPE, TAG_STRUCTURE_TYPE,
};

verus! {

/// The named debug sections of one binary, as raw bytes; a section the
/// binary lacks is the empty byte string.
pub struct DebugSections {
    pub info: Vec<u8>,
    pub abbrev: Vec<u8>,
    pub str_data: Vec<u8>,
    pub line: Vec<u8>,
    pub line_str: Vec<u8>,
    pub str_offsets: Vec<u8>,
}

/// A loaded debug-metadata reader over one binary's sections. Opaque: every
/// question asked of it goes through the trusted items below.
#[verifier::external_body]
pub struct DwarfReader {
    dwarf: std::rc::Rc<gimli::Dwarf<gimli::EndianSlice<'static, gimli::LittleEndian>>>,
}

/// One compilation unit of a reader, with the reader it came from. Opaque.
#[verifier::external_body]
pub struct UnitReader {
    dwarf: std::rc::Rc<gimli::Dwarf<gimli::EndianSlice<'static, gimli::LittleEndian>>>,
    unit: gimli::Unit<gimli::EndianSlice<'static, gimli::LittleEndian>>,
}

/// One step of the unit walk: no unit starts at the asked offset; a unit
/// header of the given length whose body did not parse; or a parsed unit and
/// its length.
pub enum UnitStep {
    End,
    Skip(u64),
    Unit(UnitReader, u64),
}

/// Relies on Box::leak: pins a byte buffer for the process lifetime, as the
/// zero-copy reader borrows every record from the raw section bytes.
#[verifier::external_body]
fn leak_bytes(v: Vec<u8>) -> (r: &'static [u8])
    ensures
        r@ == v@,
{
    Box::leak(v.into_boxed_slice())
}

/// Relies on gimli's Dwarf::load over EndianSlice readers: bundles the named
/// sections into a reader; sections this tool does not pass are empty, as a
/// standard loader treats missing sections. The load itself only fails when
/// the section callback does, and this one never does.
#[verifier::external_body]
pub fn dwarf_open(s: DebugSections) -> (r: DwarfReader)
{
    let (info, abbrev, strs) = (leak_bytes(s.info), leak_bytes(s.abbrev), leak_bytes(s.str_data));
    let (line, lstr, soff) = (leak_bytes(s.line), leak_bytes(s.line_str), leak_bytes(s.str_offsets));
    let dwarf = gimli::Dwarf::load(|id| {
        Ok::<_, gimli::Error>(gimli::EndianSlice::new(match id {
            Sid::DebugInfo => info,
            Sid::DebugAbbrev => abbrev,
            Sid::DebugStr => strs,
            Sid::DebugLine => line,
            Sid::DebugLineStr => lstr,
            Sid::DebugStrOffsets => soff,
            _ => &[],
        }, gimli::LittleEndian))
    }).unwrap();
    DwarfReader { dwarf: std::rc::Rc::new(dwarf) }
}

/// Relies on gimli's DebugInfo::header_from_offset, UnitHeader::
/// length_including_self and Dwarf::unit: the unit starting at `off` in the
/// info section, or that the walk is over, or that this unit's body is
/// undecodable and the walk may skip its length.
#[verifier::external_body]
fn unit_at(d: &DwarfReader, off: u64) -> (r: UnitStep)
{
    let at = gimli::DebugInfoOffset(off as usize);
    let header = match d.dwarf.debug_info.header_from_offset(at) {
        Ok(h) => h,
        Err(_) => return UnitStep::End,
    };
    let len = header.length_including_self() as u64;
    match d.dwarf.unit(header) {
        Ok(unit) => UnitStep::Unit(UnitReader { dwarf: d.dwarf.clone(), unit }, len),
        Err(_) => UnitStep::Skip(len),
    }
}

/// Relies on gimli's EntriesCursor::next_dfs: the offset and starting depth
/// of the first record of the unit.
#[verifier::external_body]
fn first_entry(u: &UnitReader) -> (r: Option<(u64, i64)>)
{
    let mut c = u.unit.entries();
    match c.next_dfs() {
        Ok(Some(e)) => Some((e.offset().0 as u64, e.depth() as i64)),
        _ => None,
    }
}

/// Relies on gimli's Unit::entries_at_offset and EntriesCursor::next_dfs:
/// the record following the one at `off` in depth-first order, as its
/// offset together with the cursor depths of the current and the next
/// record; `None` at the end of the unit or on an undecodable record.
#[verifier::external_body]
fn next_entry(u: &UnitReader, off: u64) -> (r: Option<(u64, i64, i64)>)
{
    let mut c = match u.unit.entries_at_offset(UnitOffset(off as usize)) {
        Ok(c) => c,
        Err(_) => return None,
    };
    let d0 = match c.next_dfs() {
        Ok(Some(e)) => e.depth(),
        _ => return None,
    };
    match c.next_dfs() {
        Ok(Some(e)) => Some((e.offset().0 as u64, d0 as i64, e.depth() as i64)),
        _ => None,
    }
}

/// Relies on gimli's Unit::entry and DebuggingInformationEntry::tag: the tag
/// code of the record at `off`; 0 when the record is undecodable.
#[verifier::external_body]
fn entry_tag(u: &UnitReader, off: u64) -> (r: u16)
{
    match u.unit.entry(UnitOffset(off as usize)) {
        Ok(e) => e.tag().0,
        Err(_) => 0,
    }
}

/// Relies on gimli's Unit::entry and DebuggingInformationEntry::attr_value:
/// the attribute `at` of the record at `off`, reduced to the numeric
/// encodings the passes read, one arm per encoding.
#[verifier::external_body]
fn entry_attr(u: &UnitReader, off: u64, at: u16) -> (r: NumAttr)
{
    let v = match u.unit.entry(UnitOffset(off as usize)) { Ok(e) => e.attr_value(DwAt(at)), Err(_) => None };
    match v {
        Some(AV::Udata(v)) => NumAttr::Udata(v),
        Some(AV::Sdata(v)) => NumAttr::Sdata(v),
        Some(AV::Data1(v)) => NumAttr::Data1(v),
        Some(AV::Data2(v)) => NumAttr::Data2(v),
        Some(AV::Data4(v)) => NumAttr::Data4(v),
        Some(AV::Data8(v)) => NumAttr::Data8(v),
        Some(AV::FileIndex(v)) => NumAttr::FileIdx(v),
        Some(AV::UnitRef(t)) => NumAttr::Ref(t.0 as u64),
        Some(_) => NumAttr::Present,
        None => NumAttr::Absent,
    }
}

/// Relies on gimli's DebuggingInformationEntry::attr_value and
/// DebugStr::get_str: the name attribute of the record at `off`, taken from
/// the string table or inline; `None` for any other form.
#[verifier::external_body]
fn entry_name(u: &UnitReader, off: u64) -> (r: Option<String>)
{
    let e = u.unit.entry(UnitOffset(off as usize)).ok()?;
    match e.attr_value(gimli::DW_AT_name)? {
        AV::DebugStrRef(o) => {
            let s = u.dwarf.debug_str.get_str(o).ok()?;
            Some(s.to_string().ok()?.to_string())
        },
        AV::String(s) => Some(s.to_string().ok()?.to_string()),
        _ => None,
    }
}

/// Relies on gimli's LineProgramHeader::file, FileEntry::directory,
/// FileEntry::path_name and Dwarf::attr_string: the directory (when the file
/// entry names one) and the file name of entry `idx` of the unit's
/// line-number program; `None` when the program, the entry or a string is
/// missing or undecodable.
#[verifier::external_body]
fn file_entry(u: &UnitReader, idx: u64) -> (r: Option<(Option<String>, String)>)
{
    let lp = u.unit.line_program.as_ref()?;
    let header = lp.header();
    let file = header.file(idx)?;
    let dir = match file.directory(header) {
        Some(a) => Some(u.dwarf.attr_string(&u.unit, a).ok()?.to_string().ok()?.to_string()),
        None => None,
    };
    let name = u.dwarf.attr_string(&u.unit, file.path_name()).ok()?.to_string().ok()?.to_string();
    Some((dir, name))
}

/// Declaration-file attribute normalized to a file index; the accepted
/// encodings are the file-index, unsigned and narrow data forms.
pub open spec fn spec_file_index(a: NumAttr) -> Option<u64> {
    match a {
        NumAttr::FileIdx(v) => Some(v),
        NumAttr::Udata(v) => Some(v),
        NumAttr::Data1(v) => Some(v as u64),
        NumAttr::Data2(v) => Some(v as u64),
        _ => None,
    }
}

/// Declaration-file attribute of a record, normalized.
pub fn file_index_of(a: &NumAttr) -> (r: Option<u64>)
    ensures
        r == spec_file_index(*a),
{
    match *a {
        NumAttr::FileIdx(v) => Some(v),
        NumAttr::Udata(v) => Some(v),
        NumAttr::Data1(v) => Some(v as u64),
        NumAttr::Data2(v) => Some(v as u64),
        _ => None,
    }
}

/// Declaration-line attribute normalized to a line number; 0 when absent or
/// in an unread form.
pub open spec fn spec_line_number(a: NumAttr) -> u64 {
    match a {
        NumAttr::Udata(v) => v,
        NumAttr::Data1(v) => v as u64,
        NumAttr::Data2(v) => v as u64,
        _ => 0,
    }
}

/// Declaration-line attribute of a record, normalized.
pub fn line_number_of(a: &NumAttr) -> (r: u64)
    ensures
        r == spec_line_number(*a),
{
    match *a {
        NumAttr::Udata(v) => v,
        NumAttr::Data1(v) => v as u64,
        NumAttr::Data2(v) => v as u64,
        _ => 0,
    }
}

/// A directory joined to a file name: `directory/filename`, or the bare file
/// name when no directory is known or it is empty.
pub open spec fn spec_join_location(dir: Option<Seq<char>>, name: Seq<char>) -> Seq<char> {
    match dir {
        Some(d) => if d.len() == 0 {
            name
        } else {
            d + "/"@ + name
        },
        None => name,
    }
}

/// Executable location join.
pub fn join_location(dir: &Option<String>, name: String) -> (r: String)
    ensures
        r@ == spec_join_location(
            match dir {
                Some(d) => Some(d@),
                None => None,
            },
            name@,
        ),
{
    match dir {
        Some(d) => {
            if d.as_str().unicode_len() == 0 {
                name
            } else {
                let mut out = d.clone();
                out.append("/");
                out.append(name.as_str());
                out
            }
        },
        None => name,
    }
}

/// Resolve a record's declaration coordinates. A missing or unread file
/// index yields the unknown sentinel with line 0; a resolvable index keeps
/// the normalized line number, with the file name resolved through the
/// unit's line-number program, or the sentinel when that fails.
pub fn get_source_location(u: &UnitReader, file_attr: &NumAttr, line_attr: &NumAttr) -> (r: (
    String,
    u64,
))
    ensures
        spec_file_index(*file_attr) is None ==> r.0@ == "<unknown>"@ && r.1 == 0,
        spec_file_index(*file_attr) is Some ==> r.1 == spec_line_number(*line_attr),
{
    let idx = match file_index_of(file_attr) {
        Some(i) => i,
        None => {
            return (String::from_str("<unknown>"), 0);
        },
    };
    let line = line_number_of(line_attr);
    match file_entry(u, idx) {
        Some((dir, name)) => (join_location(&dir, name), line),
        None => (String::from_str("<unknown>"), line),
    }
}

/// One full depth-first scan of a unit, flattening each record to plain
/// values; a record that cannot be stepped over, or whose successor does not
/// lie forward in the unit, ends the scan early. The records come back in
/// strictly increasing offset order, and only structure records carry
/// resolved declaration coordinates; every other record holds the sentinels.
pub fn scan_unit(u: &UnitReader) -> (rs: Vec<RawRecord>)
    ensures
        forall|i: int, j: int|
            0 <= i < j < rs.deep_view().len() ==> (#[trigger] rs.deep_view()[i]).offset < (
            #[trigger] rs.deep_view()[j]).offset,
        forall|i: int|
            0 <= i < rs.deep_view().len() ==> ((#[trigger] rs.deep_view()[i]).tag
                != TAG_STRUCTURE_TYPE ==> rs.deep_view()[i].loc_file == "<unknown>"@
                && rs.deep_view()[i].loc_line == 0),
{
    let mut rs: Vec<RawRecord> = Vec::new();
    let first = match first_entry(u) {
        Some(p) => p,
        None => {
            return rs;
        },
    };
    let mut off: u64 = first.0;
    let mut depth: u64 = 0;
    loop
        invariant
            forall|i: int, j: int|
                0 <= i < j < rs.deep_view().len() ==> (#[trigger] rs.deep_view()[i]).offset < (
                #[trigger] rs.deep_view()[j]).offset,
            forall|i: int| 0 <= i < rs.deep_view().len() ==> (#[trigger] rs.deep_view()[i]).offset < off,
            forall|i: int|
                0 <= i < rs.deep_view().len() ==> ((#[trigger] rs.deep_view()[i]).tag
                    != TAG_STRUCTURE_TYPE ==> rs.deep_view()[i].loc_file == "<unknown>"@
                    && rs.deep_view()[i].loc_line == 0),
        decreases 0xffff_ffff_ffff_ffffu64 - off,
    {
        let tag = entry_tag(u, off);
        let name = entry_name(u, off);
        let size_attr = entry_attr(u, off, AT_BYTE_SIZE);
        let type_ref = match entry_attr(u, off, AT_TYPE) {
            NumAttr::Ref(t) => Some(t),
            _ => None,
        };
        let member_loc = entry_attr(u, off, AT_DATA_MEMBER_LOCATION);
        let bit_size = entry_attr(u, off, AT_BIT_SIZE);
        let bit_offset = entry_attr(u, off, AT_BIT_OFFSET);
        let has_bit_attr = !(matches!(bit_size, NumAttr::Absent)) || !(matches!(
            bit_offset,
            NumAttr::Absent,
        ));
        let loc_file: String;
        let loc_line: u64;
        if tag == TAG_STRUCTURE_TYPE {
            let fa = entry_attr(u, off, AT_DECL_FILE);
            let la = entry_attr(u, off, AT_DECL_LINE);
            let loc = get_source_location(u, &fa, &la);
            loc_file = loc.0;
            loc_line = loc.1;
        } else {
            loc_file = String::from_str("<unknown>");
            loc_line = 0;
        }
        let r = RawRecord {
            offset: off,
            depth,
            tag,
            name,
            size_attr,
            type_ref,
            member_loc,
            has_bit_attr,
            loc_file,
            loc_line,
        };
        let ghost rv = r.deep_view();
        let ghost before = rs.deep_view();
        rs.push(r);
        proof {
            assert(rs.deep_view() =~= before.push(rv));
            assert(rv.offset == off);
            assert forall|i: int, j: int|
                0 <= i < j < rs.deep_view().len() implies (#[trigger] rs.deep_view()[i]).offset < (
            #[trigger] rs.deep_view()[j]).offset by {
                if j == before.len() {
                    assert(before[i].offset < off);
                }
            }
        }
        match next_entry(u, off) {
            Some((noff, d0, d1)) => {
                if noff <= off {
                    return rs;
                }
                let nd: i128 = depth as i128 + (d1 as i128 - d0 as i128);
                if nd < 0 || nd > 0xffff_ffff_ffff_ffffu64 as i128 {
                    return rs;
                }
                depth = nd as u64;
                off = noff;
            },
            None => {
                return rs;
            },
        }
    }
}

/// Walk every unit of the reader, reconstruct each unit's aggregates, and
/// collapse key repetitions across units. Every aggregate returned has at
/// least one member, and no two share a deduplication key.
pub fn extract_structs(d: &DwarfReader) -> (structs: Vec<StructInfo>)
    ensures
        forall|i: int|
            0 <= i < structs.deep_view().len() ==> (#[trigger] structs.deep_view()[i]).members.len()
                > 0,
        forall|p: int, q: int|
            0 <= p < q < structs.deep_view().len() ==> spec_key(structs.deep_view()[p])
                != spec_key(structs.deep_view()[q]),
{
    let mut all: Vec<StructInfo> = Vec::new();
    let mut off: u64 = 0;
    loop
        invariant
            forall|i: int|
                0 <= i < all.deep_view().len() ==> (#[trigger] all.deep_view()[i]).members.len()
                    > 0,
        decreases 0xffff_ffff_ffff_ffffu64 - off,
    {
        let step = unit_at(d, off);
        let len: u64;
        match step {
            UnitStep::End => {
                break;
            },
            UnitStep::Skip(l) => {
                len = l;
            },
            UnitStep::Unit(u, l) => {
                len = l;
                let rs = scan_unit(&u);
                let mut ss = unit_structs(&rs);
                proof {
                    lemma_unit_structs_nonempty(rs.deep_view(), 0);
                }
                let ghost before = all.deep_view();
                let ghost added = ss.deep_view();
                all.append(&mut ss);
                proof {
                    assert(all.deep_view() =~= before + added);
                }
            },
        }
        if len == 0 {
            break;
        }
        if off > 0xffff_ffff_ffff_ffffu64 - len {
            break;
        }
        off = off + len;
    }
    let deduped = dedup_structs(&all);
    proof {
        let av = all.deep_view();
        lemma_dedup_collapses_keys(av, av.len() as int);
        assert forall|i: int| 0 <= i < deduped.deep_view().len() implies (
        #[trigger] deduped.deep_view()[i]).members.len() > 0 by {
            let j0 = choose|j: int| 0 <= j < av.len() && deduped.deep_view()[i] == av[j];
            assert(av[j0].members.len() > 0);
        }
    }
    deduped
}

/// The whole pipeline over one loaded reader: the deduplicated aggregates
/// and exactly the findings the analyzer derives from them under the given
/// configuration.
pub fn run_analysis(d: &DwarfReader, cfg: &AnalysisConfig) -> (r: (Vec<StructInfo>, Vec<Issue>))
    requires
        cfg.max_align == 4 || cfg.max_align == 8,
    ensures
        r.1.deep_view() == spec_analyze(
            r.0.deep_view(),
            cfg.max_align,
            cfg.pattern@,
            cfg.alignment_check,
            cfg.packed_check,
        ),
        forall|i: int|
            0 <= i < r.0.deep_view().len() ==> (#[trigger] r.0.deep_view()[i]).members.len() > 0,
        forall|p: int, q: int|
            0 <= p < q < r.0.deep_view().len() ==> spec_key(r.0.deep_view()[p]) != spec_key(
                r.0.deep_view()[q],
            ),
{
    let structs = extract_structs(d);
    let issues = analyze_structs(&structs, cfg);
    (structs, issues)
}

/// The record-to-findings pipeline is a function of the scanned records and
/// the configuration alone: two runs over the same records agree on the
/// aggregates and on the findings, in the same order.
pub proof fn lemma_pipeline_repeatable(
    rs: Seq<RecordModel>,
    s1: Seq<StructModel>,
    s2: Seq<StructModel>,
    i1: Seq<IssueModel>,
    i2: Seq<IssueModel>,
    max_align: u64,
    pattern: Seq<char>,
    alignment_check: bool,
    packed_check: bool,
)
    requires
        s1 == spec_dedup(spec_unit_structs(rs)),
        s2 == spec_dedup(spec_unit_structs(rs)),
        i1 == spec_analyze(s1, max_align, pattern, alignment_check, packed_check),
        i2 == spec_analyze(s2, max_align, pattern, alignment_check, packed_check),
    ensures
        s1 == s2,
        i1 == i2,
{
}

} // verus!
