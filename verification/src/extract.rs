use vstd::prelude::*;
use vstd::string::StringExecFns;

use crate::model::{
    MemberInfo, MemberModel, NumAttr, RawRecord, RecordModel, StructInfo, StructModel, TAG_MEMBER,
    TAG_STRUCTURE_TYPE, TAG_TYPEDEF,
};

verus! {

/// View of an optional owned string.
pub open spec fn opt_str_view(o: Option<String>) -> Option<Seq<char>> {
    match o {
        Some(s) => Some(s@),
        None => None,
    }
}

/// View of an optional aggregate.
pub open spec fn opt_struct_view(o: Option<StructInfo>) -> Option<StructModel> {
    match o {
        Some(s) => Some(s.deep_view()),
        None => None,
    }
}

/// Byte-size attribute normalized to an unsigned 64-bit value; the accepted
/// encodings are the unsigned, signed and fixed-width data forms.
pub open spec fn spec_byte_size(a: NumAttr) -> Option<u64> {
    match a {
        NumAttr::Udata(v) => Some(v),
        NumAttr::Sdata(v) => Some(v as u64),
        NumAttr::Data1(v) => Some(v as u64),
        NumAttr::Data2(v) => Some(v as u64),
        NumAttr::Data4(v) => Some(v as u64),
        NumAttr::Data8(v) => Some(v),
        _ => None,
    }
}

/// Byte-size attribute of a record, normalized.
pub fn get_byte_size(a: &NumAttr) -> (r: Option<u64>)
    ensures
        r == spec_byte_size(*a),
{
    match *a {
        NumAttr::Udata(v) => Some(v),
        NumAttr::Sdata(v) => Some(v as u64),
        NumAttr::Data1(v) => Some(v as u64),
        NumAttr::Data2(v) => Some(v as u64),
        NumAttr::Data4(v) => Some(v as u64),
        NumAttr::Data8(v) => Some(v),
        _ => None,
    }
}

/// Member-offset attribute: only the unsigned and signed data encodings
/// position a member; anything else leaves it unplaceable.
pub open spec fn spec_member_offset(a: NumAttr) -> Option<u64> {
    match a {
        NumAttr::Udata(v) => Some(v),
        NumAttr::Sdata(v) => Some(v as u64),
        _ => None,
    }
}

/// Member-offset attribute of a record, normalized.
pub fn member_offset_of(a: &NumAttr) -> (r: Option<u64>)
    ensures
        r == spec_member_offset(*a),
{
    match *a {
        NumAttr::Udata(v) => Some(v),
        NumAttr::Sdata(v) => Some(v as u64),
        _ => None,
    }
}

/// The name table of a unit: the name recorded for `off` by a forward pass
/// over the first `n` records in which the last named record at an offset
/// wins.
pub open spec fn spec_name_at(rs: Seq<RecordModel>, n: int, off: u64) -> Option<Seq<char>>
    decreases n,
{
    if n <= 0 {
        None
    } else if rs[n - 1].offset == off && rs[n - 1].name is Some {
        rs[n - 1].name
    } else {
        spec_name_at(rs, n - 1, off)
    }
}

/// Name recorded for `off` over the whole unit.
pub open spec fn spec_name_of(rs: Seq<RecordModel>, off: u64) -> Option<Seq<char>> {
    spec_name_at(rs, rs.len() as int, off)
}

/// Executable name-table lookup over the first `n` records.
fn name_at(rs: &Vec<RawRecord>, n: usize, off: u64) -> (r: Option<String>)
    requires
        n <= rs.len(),
    ensures
        opt_str_view(r) == spec_name_at(rs.deep_view(), n as int, off),
{
    let ghost dv = rs.deep_view();
    let mut m: usize = n;
    while m > 0
        invariant
            m <= n <= rs.len(),
            dv == rs.deep_view(),
            dv.len() == rs.len(),
            spec_name_at(dv, n as int, off) == spec_name_at(dv, m as int, off),
        decreases m,
    {
        let rec = &rs[m - 1];
        if rec.offset == off {
            match &rec.name {
                Some(s) => {
                    return Some(s.clone());
                },
                None => {},
            }
        }
        m = m - 1;
    }
    None
}

/// The size table of a unit, analogous to the name table: only records whose
/// byte-size attribute normalizes contribute.
pub open spec fn spec_size_at(rs: Seq<RecordModel>, n: int, off: u64) -> Option<u64>
    decreases n,
{
    if n <= 0 {
        None
    } else if rs[n - 1].offset == off && spec_byte_size(rs[n - 1].size_attr) is Some {
        spec_byte_size(rs[n - 1].size_attr)
    } else {
        spec_size_at(rs, n - 1, off)
    }
}

/// Size recorded for `off` over the whole unit.
pub open spec fn spec_size_of(rs: Seq<RecordModel>, off: u64) -> Option<u64> {
    spec_size_at(rs, rs.len() as int, off)
}

/// Executable size-table lookup over the first `n` records.
fn size_at(rs: &Vec<RawRecord>, n: usize, off: u64) -> (r: Option<u64>)
    requires
        n <= rs.len(),
    ensures
        r == spec_size_at(rs.deep_view(), n as int, off),
{
    let ghost dv = rs.deep_view();
    let mut m: usize = n;
    while m > 0
        invariant
            m <= n <= rs.len(),
            dv == rs.deep_view(),
            dv.len() == rs.len(),
            spec_size_at(dv, n as int, off) == spec_size_at(dv, m as int, off),
        decreases m,
    {
        let rec = &rs[m - 1];
        if rec.offset == off {
            match get_byte_size(&rec.size_attr) {
                Some(s) => {
                    return Some(s);
                },
                None => {},
            }
        }
        m = m - 1;
    }
    None
}

/// Index of the record sitting at `off`, the last one among the first `n`
/// when offsets repeat.
pub open spec fn spec_record_at(rs: Seq<RecordModel>, n: int, off: u64) -> Option<int>
    decreases n,
{
    if n <= 0 {
        None
    } else if rs[n - 1].offset == off {
        Some(n - 1)
    } else {
        spec_record_at(rs, n - 1, off)
    }
}

/// Executable record lookup by offset.
fn record_at(rs: &Vec<RawRecord>, n: usize, off: u64) -> (r: Option<usize>)
    requires
        n <= rs.len(),
    ensures
        match r {
            Some(k) => spec_record_at(rs.deep_view(), n as int, off) == Some(k as int) && k < n,
            None => spec_record_at(rs.deep_view(), n as int, off) is None,
        },
{
    let ghost dv = rs.deep_view();
    let mut m: usize = n;
    while m > 0
        invariant
            m <= n <= rs.len(),
            dv == rs.deep_view(),
            dv.len() == rs.len(),
            spec_record_at(dv, n as int, off) == spec_record_at(dv, m as int, off),
        decreases m,
    {
        if rs[m - 1].offset == off {
            return Some(m - 1);
        }
        m = m - 1;
    }
    None
}

/// Display name reached by following a member's type-reference chain: the
/// name table is consulted first; otherwise the referenced record's own
/// onward reference is followed, its own name is taken, or the chase fails
/// closed with `?`. The fuel bounds reference cycles; any acyclic chain
/// resolves within a fuel of one step per record.
pub open spec fn spec_resolve_ty_name(rs: Seq<RecordModel>, off: u64, fuel: nat) -> Seq<char>
    decreases fuel,
{
    match spec_name_of(rs, off) {
        Some(nm) => nm,
        None => match spec_record_at(rs, rs.len() as int, off) {
            None => "?"@,
            Some(k) => match rs[k].type_ref {
                Some(next) => if fuel == 0 {
                    "?"@
                } else {
                    spec_resolve_ty_name(rs, next, (fuel - 1) as nat)
                },
                None => match rs[k].name {
                    Some(nm) => nm,
                    None => "?"@,
                },
            },
        },
    }
}

/// Size reached by following a member's type-reference chain; as the name
/// resolution, but without a terminal own-name fallback.
pub open spec fn spec_resolve_size(rs: Seq<RecordModel>, off: u64, fuel: nat) -> Option<u64>
    decreases fuel,
{
    match spec_size_of(rs, off) {
        Some(s) => Some(s),
        None => match spec_record_at(rs, rs.len() as int, off) {
            None => None,
            Some(k) => match rs[k].type_ref {
                Some(next) => if fuel == 0 {
                    None
                } else {
                    spec_resolve_size(rs, next, (fuel - 1) as nat)
                },
                None => None,
            },
        },
    }
}

/// Executable reference-chain name resolution with explicit fuel.
fn resolve_ty_name_fuel(rs: &Vec<RawRecord>, off0: u64, fuel0: usize) -> (r: String)
    ensures
        r@ == spec_resolve_ty_name(rs.deep_view(), off0, fuel0 as nat),
{
    let ghost dv = rs.deep_view();
    let mut off: u64 = off0;
    let mut fuel: usize = fuel0;
    loop
        invariant
            dv == rs.deep_view(),
            dv.len() == rs.len(),
            spec_resolve_ty_name(dv, off0, fuel0 as nat) == spec_resolve_ty_name(
                dv,
                off,
                fuel as nat,
            ),
        decreases fuel,
    {
        match name_at(rs, rs.len(), off) {
            Some(s) => {
                return s;
            },
            None => {},
        }
        match record_at(rs, rs.len(), off) {
            None => {
                return String::from_str("?");
            },
            Some(k) => {
                let rec = &rs[k];
                match rec.type_ref {
                    Some(next) => {
                        if fuel == 0 {
                            return String::from_str("?");
                        }
                        off = next;
                        fuel = fuel - 1;
                    },
                    None => {
                        match &rec.name {
                            Some(nm) => {
                                return nm.clone();
                            },
                            None => {
                                return String::from_str("?");
                            },
                        }
                    },
                }
            },
        }
    }
}

/// Executable reference-chain size resolution with explicit fuel.
fn resolve_size_fuel(rs: &Vec<RawRecord>, off0: u64, fuel0: usize) -> (r: Option<u64>)
    ensures
        r == spec_resolve_size(rs.deep_view(), off0, fuel0 as nat),
{
    let ghost dv = rs.deep_view();
    let mut off: u64 = off0;
    let mut fuel: usize = fuel0;
    loop
        invariant
            dv == rs.deep_view(),
            dv.len() == rs.len(),
            spec_resolve_size(dv, off0, fuel0 as nat) == spec_resolve_size(dv, off, fuel as nat),
        decreases fuel,
    {
        match size_at(rs, rs.len(), off) {
            Some(s) => {
                return Some(s);
            },
            None => {},
        }
        match record_at(rs, rs.len(), off) {
            None => {
                return None;
            },
            Some(k) => {
                let rec = &rs[k];
                match rec.type_ref {
                    Some(next) => {
                        if fuel == 0 {
                            return None;
                        }
                        off = next;
                        fuel = fuel - 1;
                    },
                    None => {
                        return None;
                    },
                }
            },
        }
    }
}

/// Resolve a type reference to a display name, with fuel for one step per
/// record of the unit.
pub fn resolve_type_name(rs: &Vec<RawRecord>, off: u64) -> (r: String)
    ensures
        r@ == spec_resolve_ty_name(rs.deep_view(), off, rs.deep_view().len() as nat),
{
    resolve_ty_name_fuel(rs, off, rs.len())
}

/// Resolve a type reference to a byte size, with fuel for one step per
/// record of the unit.
pub fn resolve_type_size(rs: &Vec<RawRecord>, off: u64) -> (r: Option<u64>)
    ensures
        r == spec_resolve_size(rs.deep_view(), off, rs.deep_view().len() as nat),
{
    resolve_size_fuel(rs, off, rs.len())
}

/// The member built from the record `r` of the unit `rs`: name (or the
/// anonymous sentinel), resolved type name and size (or their sentinels),
/// normalized offset, bitfield flag.
pub open spec fn spec_member_of(rs: Seq<RecordModel>, r: RecordModel) -> MemberModel {
    MemberModel {
        name: match r.name {
            Some(nm) => nm,
            None => "<anon>"@,
        },
        ty_name: match r.type_ref {
            Some(t) => spec_resolve_ty_name(rs, t, rs.len() as nat),
            None => "?"@,
        },
        offset: spec_member_offset(r.member_loc).unwrap(),
        size: match r.type_ref {
            Some(t) => match spec_resolve_size(rs, t, rs.len() as nat) {
                Some(s) => s,
                None => 0,
            },
            None => 0,
        },
        is_bitfield: r.has_bit_attr,
    }
}

/// Executable member construction.
fn build_member(rs: &Vec<RawRecord>, j: usize) -> (m: MemberInfo)
    requires
        j < rs.len(),
        spec_member_offset(rs.deep_view()[j as int].member_loc) is Some,
    ensures
        m.deep_view() == spec_member_of(rs.deep_view(), rs.deep_view()[j as int]),
{
    let rec = &rs[j];
    let name = match &rec.name {
        Some(s) => s.clone(),
        None => String::from_str("<anon>"),
    };
    let tn: String;
    let sz: u64;
    match rec.type_ref {
        Some(t) => {
            tn = resolve_type_name(rs, t);
            sz = match resolve_type_size(rs, t) {
                Some(s) => s,
                None => 0,
            };
        },
        None => {
            tn = String::from_str("?");
            sz = 0;
        },
    }
    let off = match member_offset_of(&rec.member_loc) {
        Some(o) => o,
        None => 0,
    };
    MemberInfo { name, ty_name: tn, offset: off, size: sz, is_bitfield: rec.has_bit_attr }
}

/// The members of an aggregate whose record sits just before index `j` at
/// depth `d`: the run of records deeper than `d` starting at `j`, keeping
/// the direct children tagged as members that carry a usable offset.
pub open spec fn spec_members_from(rs: Seq<RecordModel>, j: int, d: u64) -> Seq<MemberModel>
    decreases rs.len() - j,
{
    if j < 0 || j >= rs.len() || rs[j].depth <= d {
        Seq::empty()
    } else {
        let rest = spec_members_from(rs, j + 1, d);
        if rs[j].depth == d + 1 && rs[j].tag == TAG_MEMBER && spec_member_offset(rs[j].member_loc)
            is Some {
            seq![spec_member_of(rs, rs[j])] + rest
        } else {
            rest
        }
    }
}

/// Executable member collection.
fn members_from(rs: &Vec<RawRecord>, j0: usize, d: u64) -> (ms: Vec<MemberInfo>)
    ensures
        ms.deep_view() == spec_members_from(rs.deep_view(), j0 as int, d),
{
    let ghost dv = rs.deep_view();
    let mut ms: Vec<MemberInfo> = Vec::new();
    let mut j: usize = j0;
    proof {
        assert(ms.deep_view() =~= Seq::<MemberModel>::empty());
        assert(Seq::<MemberModel>::empty() + spec_members_from(dv, j0 as int, d)
            =~= spec_members_from(dv, j0 as int, d));
    }
    while j < rs.len() && rs[j].depth > d
        invariant
            j0 <= j,
            dv == rs.deep_view(),
            dv.len() == rs.len(),
            spec_members_from(dv, j0 as int, d) == ms.deep_view() + spec_members_from(
                dv,
                j as int,
                d,
            ),
        decreases rs.len() - j,
    {
        let rec = &rs[j];
        let take = rec.depth == d + 1 && rec.tag == TAG_MEMBER && member_offset_of(
            &rec.member_loc,
        ).is_some();
        if take {
            let m = build_member(rs, j);
            let ghost before = ms.deep_view();
            ms.push(m);
            proof {
                assert(ms.deep_view() =~= before.push(spec_member_of(dv, dv[j as int])));
                assert(spec_members_from(dv, j as int, d) =~= seq![
                    spec_member_of(dv, dv[j as int]),
                ] + spec_members_from(dv, j as int + 1, d));
                assert(spec_members_from(dv, j0 as int, d) =~= ms.deep_view()
                    + spec_members_from(dv, j as int + 1, d));
            }
        } else {
            proof {
                assert(spec_members_from(dv, j as int, d) == spec_members_from(
                    dv,
                    j as int + 1,
                    d,
                ));
            }
        }
        j = j + 1;
    }
    proof {
        assert(spec_members_from(dv, j as int, d) =~= Seq::<MemberModel>::empty());
        assert(spec_members_from(dv, j0 as int, d) =~= ms.deep_view());
    }
    ms
}

/// Members of the aggregate whose record is at index `k`.
pub open spec fn spec_struct_members(rs: Seq<RecordModel>, k: int) -> Seq<MemberModel> {
    spec_members_from(rs, k + 1, rs[k].depth)
}

/// The direct member records of the aggregate at index `k`, built into
/// members in declaration order.
pub fn extract_members(rs: &Vec<RawRecord>, k: usize) -> (ms: Vec<MemberInfo>)
    requires
        k < rs.len(),
    ensures
        ms.deep_view() == spec_struct_members(rs.deep_view(), k as int),
{
    let d = rs[k].depth;
    members_from(rs, k + 1, d)
}

/// The typedef table: the name of the last typedef record among the first
/// `n` whose target reference is `off`.
pub open spec fn spec_typedef_name_at(rs: Seq<RecordModel>, n: int, off: u64) -> Option<Seq<char>>
    decreases n,
{
    if n <= 0 {
        None
    } else if rs[n - 1].tag == TAG_TYPEDEF && rs[n - 1].name is Some && rs[n - 1].type_ref
        == Some(off) {
        rs[n - 1].name
    } else {
        spec_typedef_name_at(rs, n - 1, off)
    }
}

/// Executable typedef-table lookup.
fn typedef_name_at(rs: &Vec<RawRecord>, n: usize, off: u64) -> (r: Option<String>)
    requires
        n <= rs.len(),
    ensures
        opt_str_view(r) == spec_typedef_name_at(rs.deep_view(), n as int, off),
{
    let ghost dv = rs.deep_view();
    let mut m: usize = n;
    while m > 0
        invariant
            m <= n <= rs.len(),
            dv == rs.deep_view(),
            dv.len() == rs.len(),
            spec_typedef_name_at(dv, n as int, off) == spec_typedef_name_at(dv, m as int, off),
        decreases m,
    {
        let rec = &rs[m - 1];
        let is_alias = rec.tag == TAG_TYPEDEF && rec.name.is_some() && match rec.type_ref {
            Some(t) => t == off,
            None => false,
        };
        if is_alias {
            match &rec.name {
                Some(s) => {
                    return Some(s.clone());
                },
                None => {},
            }
        }
        m = m - 1;
    }
    None
}

/// The display name of the aggregate at index `k`: its own name if present,
/// else a typedef alias of its offset; an aggregate with neither is dropped.
pub open spec fn spec_display_name(rs: Seq<RecordModel>, k: int) -> Option<Seq<char>> {
    match rs[k].name {
        Some(nm) => Some(nm),
        None => spec_typedef_name_at(rs, rs.len() as int, rs[k].offset),
    }
}

/// Executable display-name resolution.
fn display_name(rs: &Vec<RawRecord>, k: usize) -> (r: Option<String>)
    requires
        k < rs.len(),
    ensures
        opt_str_view(r) == spec_display_name(rs.deep_view(), k as int),
{
    match &rs[k].name {
        Some(s) => Some(s.clone()),
        None => typedef_name_at(rs, rs.len(), rs[k].offset),
    }
}

/// The aggregate reconstructed from the record at index `k`, when that
/// record is a structure definition (it carries a byte size), has a usable
/// display name, and yields at least one member; `None` otherwise.
pub open spec fn spec_struct_at(rs: Seq<RecordModel>, k: int) -> Option<StructModel> {
    let r = rs[k];
    if r.tag != TAG_STRUCTURE_TYPE {
        None
    } else {
        match spec_byte_size(r.size_attr) {
            None => None,
            Some(sz) => match spec_display_name(rs, k) {
                None => None,
                Some(nm) => {
                    let ms = spec_struct_members(rs, k);
                    if ms.len() == 0 {
                        None
                    } else {
                        Some(
                            StructModel {
                                name: nm,
                                size: sz,
                                members: ms,
                                decl_file: r.loc_file,
                                decl_line: r.loc_line,
                            },
                        )
                    }
                },
            },
        }
    }
}

/// Executable aggregate reconstruction at one index.
fn struct_at(rs: &Vec<RawRecord>, k: usize) -> (r: Option<StructInfo>)
    requires
        k < rs.len(),
    ensures
        opt_struct_view(r) == spec_struct_at(rs.deep_view(), k as int),
{
    let ghost dv = rs.deep_view();
    if rs[k].tag != TAG_STRUCTURE_TYPE {
        return None;
    }
    let sz = match get_byte_size(&rs[k].size_attr) {
        Some(s) => s,
        None => {
            return None;
        },
    };
    let nm = match display_name(rs, k) {
        Some(n) => n,
        None => {
            return None;
        },
    };
    let ms = extract_members(rs, k);
    if ms.len() == 0 {
        return None;
    }
    let si = StructInfo {
        name: nm,
        size: sz,
        members: ms,
        decl_file: rs[k].loc_file.clone(),
        decl_line: rs[k].loc_line,
    };
    assert(si.deep_view() =~= spec_struct_at(dv, k as int).unwrap());
    Some(si)
}

/// The aggregates reconstructed from the records at index `k` on, in record
/// (discovery) order.
pub open spec fn spec_structs_from(rs: Seq<RecordModel>, k: int) -> Seq<StructModel>
    decreases rs.len() - k,
{
    if k < 0 || k >= rs.len() {
        Seq::empty()
    } else {
        let rest = spec_structs_from(rs, k + 1);
        match spec_struct_at(rs, k) {
            Some(sm) => seq![sm] + rest,
            None => rest,
        }
    }
}

/// All aggregates of one unit, in discovery order.
pub open spec fn spec_unit_structs(rs: Seq<RecordModel>) -> Seq<StructModel> {
    spec_structs_from(rs, 0)
}

/// One unit's aggregates: every structure-type record with a byte size, a
/// usable display name and at least one member, in discovery order.
pub fn unit_structs(rs: &Vec<RawRecord>) -> (r: Vec<StructInfo>)
    ensures
        r.deep_view() == spec_unit_structs(rs.deep_view()),
{
    let ghost dv = rs.deep_view();
    let mut out: Vec<StructInfo> = Vec::new();
    let mut k: usize = 0;
    proof {
        assert(out.deep_view() =~= Seq::<StructModel>::empty());
        assert(Seq::<StructModel>::empty() + spec_structs_from(dv, 0) =~= spec_structs_from(
            dv,
            0,
        ));
    }
    while k < rs.len()
        invariant
            k <= rs.len(),
            dv == rs.deep_view(),
            dv.len() == rs.len(),
            spec_structs_from(dv, 0) == out.deep_view() + spec_structs_from(dv, k as int),
        decreases rs.len() - k,
    {
        match struct_at(rs, k) {
            Some(si) => {
                let ghost sm = si.deep_view();
                let ghost before = out.deep_view();
                out.push(si);
                proof {
                    assert(out.deep_view() =~= before.push(sm));
                    assert(spec_structs_from(dv, k as int) =~= seq![sm] + spec_structs_from(
                        dv,
                        k as int + 1,
                    ));
                    assert(spec_structs_from(dv, 0) =~= out.deep_view() + spec_structs_from(
                        dv,
                        k as int + 1,
                    ));
                }
            },
            None => {
                proof {
                    assert(spec_structs_from(dv, k as int) == spec_structs_from(
                        dv,
                        k as int + 1,
                    ));
                }
            },
        }
        k = k + 1;
    }
    proof {
        assert(spec_structs_from(dv, k as int) =~= Seq::<StructModel>::empty());
        assert(spec_structs_from(dv, 0) =~= out.deep_view());
    }
    out
}

/// Every aggregate a unit emits has at least one member.
pub proof fn lemma_unit_structs_nonempty(rs: Seq<RecordModel>, k: int)
    ensures
        forall|p: int|
            0 <= p < spec_structs_from(rs, k).len() ==> spec_structs_from(
                rs,
                k,
            )[p].members.len() > 0,
    decreases rs.len() - k,
{
    if k < 0 || k >= rs.len() {
    } else {
        lemma_unit_structs_nonempty(rs, k + 1);
        let rest = spec_structs_from(rs, k + 1);
        match spec_struct_at(rs, k) {
            Some(sm) => {
                assert(sm.members.len() > 0);
                assert forall|p: int|
                    0 <= p < spec_structs_from(rs, k).len() implies spec_structs_from(
                    rs,
                    k,
                )[p].members.len() > 0 by {
                    if p > 0 {
                        assert(spec_structs_from(rs, k)[p] == rest[p - 1]);
                    }
                }
            },
            None => {},
        }
    }
}

/// A type-reference chain that points back at its own record resolves to the
/// unresolved sentinels instead of chasing forever.
pub proof fn lemma_self_cycle_unresolved(rs: Seq<RecordModel>, off: u64, fuel: nat)
    requires
        spec_name_of(rs, off) is None,
        spec_size_of(rs, off) is None,
        spec_record_at(rs, rs.len() as int, off) matches Some(k) && rs[k].type_ref == Some(off),
    ensures
        spec_resolve_ty_name(rs, off, fuel) == "?"@,
        spec_resolve_size(rs, off, fuel) is None,
    decreases fuel,
{
    if fuel > 0 {
        lemma_self_cycle_unresolved(rs, off, (fuel - 1) as nat);
    }
}

/// The deduplication key of an aggregate: its name together with the ordered
/// (member name, member offset) pairs.
pub open spec fn spec_key(s: StructModel) -> (Seq<char>, Seq<(Seq<char>, u64)>) {
    (s.name, s.members.map_values(|m: MemberModel| (m.name, m.offset)))
}

/// Whether the key appears among the first `n` aggregates.
pub open spec fn spec_key_in(ss: Seq<StructModel>, n: int, key: (Seq<char>, Seq<(Seq<char>, u64)>)) -> bool {
    exists|j: int| 0 <= j < n && spec_key(ss[j]) == key
}

/// The first `n` aggregates with later key repetitions dropped, keeping the
/// first occurrence of each key, in order.
pub open spec fn spec_dedup_up_to(ss: Seq<StructModel>, n: int) -> Seq<StructModel>
    decreases n,
{
    if n <= 0 {
        Seq::empty()
    } else {
        let d = spec_dedup_up_to(ss, n - 1);
        if spec_key_in(ss, n - 1, spec_key(ss[n - 1])) {
            d
        } else {
            d.push(ss[n - 1])
        }
    }
}

/// All aggregates with key repetitions dropped.
pub open spec fn spec_dedup(ss: Seq<StructModel>) -> Seq<StructModel> {
    spec_dedup_up_to(ss, ss.len() as int)
}

/// Executable member clone, exact on the model.
fn clone_member(m: &MemberInfo) -> (r: MemberInfo)
    ensures
        r.deep_view() == m.deep_view(),
{
    MemberInfo {
        name: m.name.clone(),
        ty_name: m.ty_name.clone(),
        offset: m.offset,
        size: m.size,
        is_bitfield: m.is_bitfield,
    }
}

/// Executable aggregate clone, exact on the model.
fn clone_struct(s: &StructInfo) -> (r: StructInfo)
    ensures
        r.deep_view() == s.deep_view(),
{
    let mut members: Vec<MemberInfo> = Vec::new();
    let mut i: usize = 0;
    while i < s.members.len()
        invariant
            0 <= i <= s.members.len(),
            members.deep_view() =~= s.members.deep_view().take(i as int),
        decreases s.members.len() - i,
    {
        let ghost before = members.deep_view();
        members.push(clone_member(&s.members[i]));
        assert(members.deep_view() =~= before.push(s.members.deep_view()[i as int]));
        assert(members.deep_view() =~= s.members.deep_view().take(i as int + 1));
        i = i + 1;
    }
    assert(members.deep_view() =~= s.members.deep_view());
    let r = StructInfo {
        name: s.name.clone(),
        size: s.size,
        members,
        decl_file: s.decl_file.clone(),
        decl_line: s.decl_line,
    };
    assert(r.deep_view() =~= s.deep_view());
    r
}

/// Executable key comparison of two aggregates.
fn key_eq(a: &StructInfo, b: &StructInfo) -> (r: bool)
    ensures
        r == (spec_key(a.deep_view()) == spec_key(b.deep_view())),
{
    let ghost am = a.deep_view();
    let ghost bm = b.deep_view();
    if !(a.name == b.name) {
        assert(spec_key(am).0 != spec_key(bm).0);
        return false;
    }
    if a.members.len() != b.members.len() {
        assert(spec_key(am).1.len() != spec_key(bm).1.len());
        return false;
    }
    let mut i: usize = 0;
    while i < a.members.len()
        invariant
            0 <= i <= a.members.len(),
            am == a.deep_view(),
            bm == b.deep_view(),
            am.members.len() == a.members.len(),
            bm.members.len() == b.members.len(),
            a.members.len() == b.members.len(),
            forall|j: int|
                0 <= j < i ==> (am.members[j].name == bm.members[j].name && am.members[j].offset
                    == bm.members[j].offset),
        decreases a.members.len() - i,
    {
        let x = &a.members[i];
        let y = &b.members[i];
        if !(x.name == y.name) || x.offset != y.offset {
            assert(spec_key(am).1[i as int] != spec_key(bm).1[i as int]);
            return false;
        }
        i = i + 1;
    }
    proof {
        assert(spec_key(am).1 =~= spec_key(bm).1);
    }
    true
}

/// Deduplication by name and member layout: the first aggregate of each key
/// is kept, in discovery order.
pub fn dedup_structs(ss: &Vec<StructInfo>) -> (r: Vec<StructInfo>)
    ensures
        r.deep_view() == spec_dedup(ss.deep_view()),
{
    let ghost dv = ss.deep_view();
    let mut out: Vec<StructInfo> = Vec::new();
    let mut i: usize = 0;
    while i < ss.len()
        invariant
            0 <= i <= ss.len(),
            dv == ss.deep_view(),
            dv.len() == ss.len(),
            out.deep_view() == spec_dedup_up_to(dv, i as int),
        decreases ss.len() - i,
    {
        let mut dup = false;
        let mut j: usize = 0;
        while j < i
            invariant
                0 <= j <= i < ss.len(),
                dv == ss.deep_view(),
                dv.len() == ss.len(),
                dup == exists|p: int| 0 <= p < j && spec_key(dv[p]) == spec_key(dv[i as int]),
            decreases i - j,
        {
            let hit = key_eq(&ss[j], &ss[i]);
            if hit {
                dup = true;
                assert(exists|p: int| 0 <= p < j + 1 && spec_key(dv[p]) == spec_key(dv[i as int]))
                    by {
                    assert(spec_key(dv[j as int]) == spec_key(dv[i as int]));
                }
            } else {
                assert(dup == exists|p: int|
                    0 <= p < j + 1 && spec_key(dv[p]) == spec_key(dv[i as int])) by {
                    if dup {
                        let p0 = choose|p: int|
                            0 <= p < j && spec_key(dv[p]) == spec_key(dv[i as int]);
                        assert(0 <= p0 < j + 1 && spec_key(dv[p0]) == spec_key(dv[i as int]));
                    }
                }
            }
            j = j + 1;
        }
        if !dup {
            let ghost before = out.deep_view();
            out.push(clone_struct(&ss[i]));
            assert(out.deep_view() =~= before.push(dv[i as int]));
        }
        i = i + 1;
    }
    out
}

/// Deduplication keeps at most one aggregate of each key, every key of the
/// input is still represented, and every kept aggregate is one of the input.
#[verifier::rlimit(50)]
pub proof fn lemma_dedup_collapses_keys(ss: Seq<StructModel>, n: int)
    requires
        0 <= n <= ss.len(),
    ensures
        forall|p: int, q: int|
            0 <= p < q < spec_dedup_up_to(ss, n).len() ==> spec_key(spec_dedup_up_to(ss, n)[p])
                != spec_key(spec_dedup_up_to(ss, n)[q]),
        forall|j: int| #![trigger spec_key(ss[j])]
            0 <= j < n ==> exists|p: int|
                0 <= p < spec_dedup_up_to(ss, n).len() && spec_key(spec_dedup_up_to(ss, n)[p])
                    == spec_key(ss[j]),
        forall|p: int| #![trigger spec_dedup_up_to(ss, n)[p]]
            0 <= p < spec_dedup_up_to(ss, n).len() ==> exists|j: int|
                0 <= j < n && spec_dedup_up_to(ss, n)[p] == ss[j],
    decreases n,
{
    if n > 0 {
        lemma_dedup_collapses_keys(ss, n - 1);
        let d = spec_dedup_up_to(ss, n - 1);
        let dn = spec_dedup_up_to(ss, n);
        if spec_key_in(ss, n - 1, spec_key(ss[n - 1])) {
            assert forall|j: int| #![trigger spec_key(ss[j])] 0 <= j < n implies exists|p: int|
                0 <= p < dn.len() && #[trigger] spec_key(dn[p]) == spec_key(ss[j]) by {
                if j == n - 1 {
                    let j0 = choose|q: int|
                        0 <= q < n - 1 && #[trigger] spec_key(ss[q]) == spec_key(ss[n - 1]);
                    let p0 = choose|p: int|
                        0 <= p < d.len() && #[trigger] spec_key(d[p]) == spec_key(ss[j0]);
                    assert(0 <= p0 < dn.len() && spec_key(dn[p0]) == spec_key(ss[j]));
                } else {
                    let p0 = choose|p: int|
                        0 <= p < d.len() && #[trigger] spec_key(d[p]) == spec_key(ss[j]);
                    assert(0 <= p0 < dn.len() && spec_key(dn[p0]) == spec_key(ss[j]));
                }
            }
        } else {
            assert forall|p: int, q: int| 0 <= p < q < dn.len() implies #[trigger] spec_key(dn[p])
                != #[trigger] spec_key(dn[q]) by {
                if q == dn.len() - 1 {
                    let j0 = choose|j: int| 0 <= j < n - 1 && #[trigger] d[p] == ss[j];
                    assert(spec_key(dn[q]) == spec_key(ss[n - 1]));
                    if spec_key(dn[p]) == spec_key(dn[q]) {
                        assert(0 <= j0 < n - 1 && spec_key(ss[j0]) == spec_key(ss[n - 1]));
                    }
                }
            }
            assert forall|j: int| #![trigger spec_key(ss[j])] 0 <= j < n implies exists|p: int|
                0 <= p < dn.len() && #[trigger] spec_key(dn[p]) == spec_key(ss[j]) by {
                if j == n - 1 {
                    assert(spec_key(dn[dn.len() - 1]) == spec_key(ss[n - 1]));
                } else {
                    let p0 = choose|p: int|
                        0 <= p < d.len() && #[trigger] spec_key(d[p]) == spec_key(ss[j]);
                    assert(0 <= p0 < dn.len() && spec_key(dn[p0]) == spec_key(ss[j]));
                }
            }
        }
    }
}

} // verus!
