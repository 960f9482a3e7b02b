use vstd::prelude::*;

use crate::model::{AnalysisConfig, Issue, IssueModel, MemberInfo, MemberModel, StructInfo, StructModel};
use crate::pattern::{pattern_valid, regex_is_match, regex_match};

verus! {

/// Natural alignment of a member: the smaller of its byte size and the
/// target word width.
pub open spec fn spec_natural_align(size: u64, max_align: u64) -> u64 {
    if size <= max_align {
        size
    } else {
        max_align
    }
}

/// Executable natural-alignment computation.
pub fn natural_align(size: u64, max_align: u64) -> (r: u64)
    ensures
        r == spec_natural_align(size, max_align),
{
    if size <= max_align {
        size
    } else {
        max_align
    }
}

/// A member violates its natural alignment: it is no bitfield, is wider than
/// one byte, and sits at an offset that is no multiple of its natural
/// alignment.
pub open spec fn spec_is_misaligned(m: MemberModel, max_align: u64) -> bool {
    &&& !m.is_bitfield
    &&& m.size > 1
    &&& m.offset as int % spec_natural_align(m.size, max_align) as int != 0
}

/// Sum of the sizes of the first `n` members.
pub open spec fn spec_sum_up_to(ms: Seq<MemberModel>, n: int) -> int
    decreases n,
{
    if n <= 0 {
        0
    } else {
        spec_sum_up_to(ms, n - 1) + ms[n - 1].size
    }
}

/// Sum of all member sizes.
pub open spec fn spec_sum_sizes(ms: Seq<MemberModel>) -> int {
    spec_sum_up_to(ms, ms.len() as int)
}

/// The largest natural alignment among the first `n` members, counting a
/// member of size 0 or 1 as alignment 1; 1 when there is none.
pub open spec fn spec_max_align_up_to(ms: Seq<MemberModel>, n: int, max_align: u64) -> u64
    decreases n,
{
    if n <= 0 {
        1
    } else {
        let prev = spec_max_align_up_to(ms, n - 1, max_align);
        let cur = if ms[n - 1].size > 1 {
            spec_natural_align(ms[n - 1].size, max_align)
        } else {
            1
        };
        if cur > prev {
            cur
        } else {
            prev
        }
    }
}

/// Some member violates its natural alignment.
pub open spec fn spec_has_violation(ms: Seq<MemberModel>, max_align: u64) -> bool {
    exists|i: int| 0 <= i < ms.len() && spec_is_misaligned(ms[i], max_align)
}

/// Under default placement the member at index `i` would have been pushed to
/// a later offset: it is wider than one byte and the sum of the sizes before
/// it is no multiple of its natural alignment.
pub open spec fn spec_pad_before(ms: Seq<MemberModel>, max_align: u64, i: int) -> bool {
    &&& ms[i].size > 1
    &&& spec_sum_up_to(ms, i) % spec_natural_align(ms[i].size, max_align) as int != 0
}

/// A default-alignment compiler would have inserted padding somewhere: before
/// some member, or at the tail, where the unpadded total is no multiple of
/// the largest member alignment.
pub open spec fn spec_would_pad(ms: Seq<MemberModel>, max_align: u64) -> bool {
    ||| exists|i: int| 0 <= i < ms.len() && spec_pad_before(ms, max_align, i)
    ||| spec_sum_sizes(ms) % spec_max_align_up_to(ms, ms.len() as int, max_align) as int != 0
}

/// The packing heuristic. An aggregate is classified as packed exactly when
/// its total size equals the plain sum of its member sizes and, in addition,
/// either some member violates its natural alignment, or the members are not
/// empty and default placement would have required padding that is absent.
pub open spec fn spec_infer_packed(ms: Seq<MemberModel>, total: u64, max_align: u64) -> bool {
    let sum = spec_sum_sizes(ms);
    &&& total == sum
    &&& (spec_has_violation(ms, max_align) || (sum > 0 && spec_would_pad(ms, max_align)))
}

/// Prefix sums never exceed the full sum.
proof fn lemma_sum_up_to_le(ms: Seq<MemberModel>, n: int)
    requires
        0 <= n <= ms.len(),
    ensures
        spec_sum_up_to(ms, n) <= spec_sum_sizes(ms),
        0 <= spec_sum_up_to(ms, n),
    decreases ms.len() - n,
{
    lemma_sum_up_to_nonneg(ms, n);
    if n < ms.len() {
        lemma_sum_up_to_le(ms, n + 1);
    }
}

/// Prefix sums are nonnegative.
proof fn lemma_sum_up_to_nonneg(ms: Seq<MemberModel>, n: int)
    ensures
        0 <= spec_sum_up_to(ms, n),
    decreases n,
{
    if n > 0 {
        lemma_sum_up_to_nonneg(ms, n - 1);
    }
}

/// Executable sum of all member sizes; exact, in a width that cannot
/// overflow.
pub fn sum_member_sizes(ms: &Vec<MemberInfo>) -> (r: u128)
    ensures
        r == spec_sum_sizes(ms.deep_view()),
{
    let ghost dv = ms.deep_view();
    let mut acc: u128 = 0;
    let mut i: usize = 0;
    while i < ms.len()
        invariant
            0 <= i <= ms.len(),
            dv == ms.deep_view(),
            dv.len() == ms.len(),
            acc == spec_sum_up_to(dv, i as int),
            acc <= i as int * 0xffff_ffff_ffff_ffffu64 as int,
        decreases ms.len() - i,
    {
        acc = acc + ms[i].size as u128;
        i = i + 1;
    }
    acc
}

/// The packing inference: pure, a function of one aggregate's shape and the
/// word width alone.
pub fn infer_packed(s: &StructInfo, max_align: u64) -> (r: bool)
    requires
        max_align == 4 || max_align == 8,
    ensures
        r == spec_infer_packed(s.members.deep_view(), s.size, max_align),
{
    let ghost dv = s.members.deep_view();
    let ms = &s.members;
    let sum = sum_member_sizes(ms);
    if (s.size as u128) != sum {
        return false;
    }
    let mut viol = false;
    let mut i: usize = 0;
    while i < ms.len()
        invariant
            0 <= i <= ms.len(),
            dv == ms.deep_view(),
            dv.len() == ms.len(),
            viol == exists|j: int| 0 <= j < i && spec_is_misaligned(dv[j], max_align),
            max_align == 4 || max_align == 8,
        decreases ms.len() - i,
    {
        let m = &ms[i];
        let mut hit = false;
        if !m.is_bitfield && m.size > 1 {
            let na = natural_align(m.size, max_align);
            if m.offset % na != 0 {
                hit = true;
            }
        }
        assert(hit == spec_is_misaligned(dv[i as int], max_align));
        if hit {
            viol = true;
            assert(exists|j: int| 0 <= j < i + 1 && spec_is_misaligned(dv[j], max_align)) by {
                assert(spec_is_misaligned(dv[i as int], max_align));
            }
        } else {
            assert(viol == exists|j: int| 0 <= j < i + 1 && spec_is_misaligned(dv[j], max_align))
                by {
                if viol {
                    let j0 = choose|j: int| 0 <= j < i && spec_is_misaligned(dv[j], max_align);
                    assert(0 <= j0 < i + 1 && spec_is_misaligned(dv[j0], max_align));
                }
            }
        }
        i = i + 1;
    }
    if viol {
        return true;
    }
    if sum == 0 {
        return false;
    }
    let mut expected: u128 = 0;
    let mut pad = false;
    i = 0;
    while i < ms.len()
        invariant
            0 <= i <= ms.len(),
            dv == ms.deep_view(),
            dv.len() == ms.len(),
            sum == spec_sum_sizes(dv),
            s.size == sum,
            expected == spec_sum_up_to(dv, i as int),
            pad == exists|j: int| 0 <= j < i && spec_pad_before(dv, max_align, j),
            max_align == 4 || max_align == 8,
        decreases ms.len() - i,
    {
        let m = &ms[i];
        let mut hit = false;
        if m.size > 1 {
            let na = natural_align(m.size, max_align) as u128;
            if expected % na != 0 {
                hit = true;
            }
        }
        assert(hit == spec_pad_before(dv, max_align, i as int));
        if hit {
            pad = true;
            assert(exists|j: int| 0 <= j < i + 1 && spec_pad_before(dv, max_align, j)) by {
                assert(spec_pad_before(dv, max_align, i as int));
            }
        } else {
            assert(pad == exists|j: int| 0 <= j < i + 1 && spec_pad_before(dv, max_align, j)) by {
                if pad {
                    let j0 = choose|j: int| 0 <= j < i && spec_pad_before(dv, max_align, j);
                    assert(0 <= j0 < i + 1 && spec_pad_before(dv, max_align, j0));
                }
            }
        }
        proof {
            lemma_sum_up_to_le(dv, i + 1);
        }
        expected = expected + m.size as u128;
        i = i + 1;
    }
    if pad {
        return true;
    }
    let mut mma: u64 = 1;
    i = 0;
    while i < ms.len()
        invariant
            0 <= i <= ms.len(),
            dv == ms.deep_view(),
            dv.len() == ms.len(),
            mma == spec_max_align_up_to(dv, i as int, max_align),
            1 <= mma,
            max_align == 4 || max_align == 8,
        decreases ms.len() - i,
    {
        let m = &ms[i];
        let cur = if m.size > 1 {
            natural_align(m.size, max_align)
        } else {
            1
        };
        if cur > mma {
            mma = cur;
        }
        i = i + 1;
    }
    sum % (mma as u128) != 0
}

/// The misaligned-member finding built for one member of one aggregate.
pub open spec fn spec_member_issue(s: StructModel, m: MemberModel, max_align: u64) -> IssueModel {
    IssueModel::MisalignedMember {
        struct_name: s.name,
        member_name: m.name,
        ty_name: m.ty_name,
        member_size: m.size,
        offset: m.offset,
        natural_alignment: spec_natural_align(m.size, max_align),
        decl_file: s.decl_file,
        decl_line: s.decl_line,
    }
}

/// The misaligned-member findings among the first `n` members, in member
/// order.
pub open spec fn spec_misaligned_up_to(s: StructModel, n: int, max_align: u64) -> Seq<IssueModel>
    decreases n,
{
    if n <= 0 {
        Seq::empty()
    } else {
        let rest = spec_misaligned_up_to(s, n - 1, max_align);
        if spec_is_misaligned(s.members[n - 1], max_align) {
            rest.push(spec_member_issue(s, s.members[n - 1], max_align))
        } else {
            rest
        }
    }
}

/// Padding bytes of an aggregate: total size minus the sum of member sizes,
/// floored at zero.
pub open spec fn spec_padding(s: StructModel) -> int {
    if s.size >= spec_sum_sizes(s.members) {
        s.size - spec_sum_sizes(s.members)
    } else {
        0
    }
}

/// The findings for one aggregate. A packed aggregate is held to the
/// misalignment check; a non-packed one whose name matches the packing
/// pattern and that contains padding yields one not-packed finding. Each
/// check can be switched off.
pub open spec fn spec_struct_issues(
    s: StructModel,
    max_align: u64,
    pattern: Seq<char>,
    alignment_check: bool,
    packed_check: bool,
) -> Seq<IssueModel> {
    if spec_infer_packed(s.members, s.size, max_align) {
        if alignment_check {
            spec_misaligned_up_to(s, s.members.len() as int, max_align)
        } else {
            Seq::empty()
        }
    } else {
        if packed_check && pattern_valid(pattern) && regex_match(pattern, s.name)
            && spec_padding(s) > 0 {
            seq![
                IssueModel::NotPacked {
                    struct_name: s.name,
                    padding_bytes: spec_padding(s) as u64,
                    pattern: pattern,
                    decl_file: s.decl_file,
                    decl_line: s.decl_line,
                },
            ]
        } else {
            Seq::empty()
        }
    }
}

/// The findings of the first `n` aggregates, in discovery order.
pub open spec fn spec_analyze_up_to(
    ss: Seq<StructModel>,
    n: int,
    max_align: u64,
    pattern: Seq<char>,
    alignment_check: bool,
    packed_check: bool,
) -> Seq<IssueModel>
    decreases n,
{
    if n <= 0 {
        Seq::empty()
    } else {
        spec_analyze_up_to(ss, n - 1, max_align, pattern, alignment_check, packed_check)
            + spec_struct_issues(ss[n - 1], max_align, pattern, alignment_check, packed_check)
    }
}

/// The findings of all aggregates, in discovery order, then member order.
pub open spec fn spec_analyze(
    ss: Seq<StructModel>,
    max_align: u64,
    pattern: Seq<char>,
    alignment_check: bool,
    packed_check: bool,
) -> Seq<IssueModel> {
    spec_analyze_up_to(ss, ss.len() as int, max_align, pattern, alignment_check, packed_check)
}

/// The layout analyzer: every finding of every aggregate, in discovery order,
/// then member order.
pub fn analyze_structs(structs: &Vec<StructInfo>, cfg: &AnalysisConfig) -> (issues: Vec<Issue>)
    requires
        cfg.max_align == 4 || cfg.max_align == 8,
    ensures
        issues.deep_view() == spec_analyze(
            structs.deep_view(),
            cfg.max_align,
            cfg.pattern@,
            cfg.alignment_check,
            cfg.packed_check,
        ),
{
    let ghost sv = structs.deep_view();
    let mut issues: Vec<Issue> = Vec::new();
    let mut i: usize = 0;
    while i < structs.len()
        invariant
            0 <= i <= structs.len(),
            sv == structs.deep_view(),
            sv.len() == structs.len(),
            cfg.max_align == 4 || cfg.max_align == 8,
            issues.deep_view() == spec_analyze_up_to(
                sv,
                i as int,
                cfg.max_align,
                cfg.pattern@,
                cfg.alignment_check,
                cfg.packed_check,
            ),
        decreases structs.len() - i,
    {
        let s = &structs[i];
        let ghost sm = sv[i as int];
        assert(sm == s.deep_view());
        let packed = infer_packed(s, cfg.max_align);
        if packed {
            if cfg.alignment_check {
                let mut j: usize = 0;
                while j < s.members.len()
                    invariant
                        0 <= j <= s.members.len(),
                        sm == s.deep_view(),
                        sm.members.len() == s.members.len(),
                        cfg.max_align == 4 || cfg.max_align == 8,
                        issues.deep_view() == spec_analyze_up_to(
                            sv,
                            i as int,
                            cfg.max_align,
                            cfg.pattern@,
                            cfg.alignment_check,
                            cfg.packed_check,
                        ) + spec_misaligned_up_to(sm, j as int, cfg.max_align),
                    decreases s.members.len() - j,
                {
                    let m = &s.members[j];
                    if !m.is_bitfield && m.size > 1 {
                        let na = natural_align(m.size, cfg.max_align);
                        if m.offset % na != 0 {
                            let issue = Issue::MisalignedMember {
                                struct_name: s.name.clone(),
                                member_name: m.name.clone(),
                                ty_name: m.ty_name.clone(),
                                member_size: m.size,
                                offset: m.offset,
                                natural_alignment: na,
                                decl_file: s.decl_file.clone(),
                                decl_line: s.decl_line,
                            };
                            assert(issue@ == spec_member_issue(sm, sm.members[j as int], cfg.max_align));
                            let ghost before = issues.deep_view();
                            issues.push(issue);
                            assert(issues.deep_view() =~= before.push(
                                spec_member_issue(sm, sm.members[j as int], cfg.max_align),
                            ));
                        }
                    }
                    j = j + 1;
                }
            }
        } else {
            if cfg.packed_check {
                match regex_is_match(cfg.pattern.as_str(), s.name.as_str()) {
                    Some(true) => {
                        let sum = sum_member_sizes(&s.members);
                        let total = s.size as u128;
                        if total > sum {
                            let padding = (total - sum) as u64;
                            proof {
                                lemma_sum_up_to_nonneg(sm.members, sm.members.len() as int);
                            }
                            let issue = Issue::NotPacked {
                                struct_name: s.name.clone(),
                                padding_bytes: padding,
                                pattern: cfg.pattern.clone(),
                                decl_file: s.decl_file.clone(),
                                decl_line: s.decl_line,
                            };
                            let ghost before = issues.deep_view();
                            issues.push(issue);
                            assert(issues.deep_view() =~= before.push(
                                IssueModel::NotPacked {
                                    struct_name: sm.name,
                                    padding_bytes: spec_padding(sm) as u64,
                                    pattern: cfg.pattern@,
                                    decl_file: sm.decl_file,
                                    decl_line: sm.decl_line,
                                },
                            ));
                        }
                    },
                    _ => {},
                }
            }
        }
        proof {
            assert(issues.deep_view() =~= spec_analyze_up_to(
                sv,
                i as int + 1,
                cfg.max_align,
                cfg.pattern@,
                cfg.alignment_check,
                cfg.packed_check,
            ));
        }
        i = i + 1;
    }
    issues
}

/// The natural alignment used by every alignment computation is the minimum
/// of the member size and the target word width: it never exceeds either,
/// and it is one of the two.
pub proof fn lemma_natural_align_is_min(size: u64, max_align: u64)
    ensures
        spec_natural_align(size, max_align) <= size,
        spec_natural_align(size, max_align) <= max_align,
        spec_natural_align(size, max_align) == size || spec_natural_align(size, max_align)
            == max_align,
{
}

/// Every misaligned-member finding stems from a member that is wider than
/// one byte, is no bitfield, and sits at an offset off its natural
/// alignment; a member of size 0 or 1, or a bitfield, never produces one,
/// regardless of its offset.
pub proof fn lemma_misaligned_issue_source(s: StructModel, max_align: u64, n: int, k: int)
    requires
        0 <= n <= s.members.len(),
        0 <= k < spec_misaligned_up_to(s, n, max_align).len(),
    ensures
        exists|i: int|
            0 <= i < n && #[trigger] spec_is_misaligned(s.members[i], max_align)
                && spec_misaligned_up_to(s, n, max_align)[k] == spec_member_issue(
                s,
                s.members[i],
                max_align,
            ),
    decreases n,
{
    let cur = spec_misaligned_up_to(s, n, max_align);
    let prev = spec_misaligned_up_to(s, n - 1, max_align);
    if spec_is_misaligned(s.members[n - 1], max_align) && k == prev.len() {
        assert(0 <= n - 1 < n && spec_is_misaligned(s.members[n - 1], max_align) && cur[k]
            == spec_member_issue(s, s.members[n - 1], max_align));
    } else {
        lemma_misaligned_issue_source(s, max_align, n - 1, k);
        let i0 = choose|i: int|
            0 <= i < n - 1 && #[trigger] spec_is_misaligned(s.members[i], max_align) && prev[k]
                == spec_member_issue(s, s.members[i], max_align);
        assert(cur[k] == prev[k]);
        assert(0 <= i0 < n && spec_is_misaligned(s.members[i0], max_align) && cur[k]
            == spec_member_issue(s, s.members[i0], max_align));
    }
}

/// An aggregate whose members are all bitfields or at most one byte wide
/// yields no misaligned-member finding at all.
pub proof fn lemma_small_and_bitfield_members_never_flagged(
    s: StructModel,
    max_align: u64,
    n: int,
)
    requires
        0 <= n <= s.members.len(),
        forall|i: int|
            0 <= i < s.members.len() ==> ((#[trigger] s.members[i]).size <= 1
                || s.members[i].is_bitfield),
    ensures
        spec_misaligned_up_to(s, n, max_align).len() == 0,
    decreases n,
{
    if n > 0 {
        lemma_small_and_bitfield_members_never_flagged(s, max_align, n - 1);
        assert(!spec_is_misaligned(s.members[n - 1], max_align));
    }
}

/// Member-size prefix sums agree on member sequences with equal sizes.
proof fn lemma_sum_layout_only(a: Seq<MemberModel>, b: Seq<MemberModel>, n: int)
    requires
        n <= a.len(),
        a.len() == b.len(),
        forall|i: int| 0 <= i < a.len() ==> (#[trigger] a[i]).size == b[i].size,
    ensures
        spec_sum_up_to(a, n) == spec_sum_up_to(b, n),
    decreases n,
{
    if n > 0 {
        lemma_sum_layout_only(a, b, n - 1);
    }
}

/// The largest member alignment agrees on member sequences with equal sizes.
proof fn lemma_mma_layout_only(a: Seq<MemberModel>, b: Seq<MemberModel>, n: int, max_align: u64)
    requires
        n <= a.len(),
        a.len() == b.len(),
        forall|i: int| 0 <= i < a.len() ==> (#[trigger] a[i]).size == b[i].size,
    ensures
        spec_max_align_up_to(a, n, max_align) == spec_max_align_up_to(b, n, max_align),
    decreases n,
{
    if n > 0 {
        lemma_mma_layout_only(a, b, n - 1, max_align);
    }
}

/// The packing inference is a pure function of the member layout alone:
/// two aggregates whose members agree in size, offset and bitfield flag are
/// classified alike, whatever their names or resolved type names, and
/// independently of any other aggregate.
pub proof fn lemma_infer_packed_layout_only(
    a: Seq<MemberModel>,
    b: Seq<MemberModel>,
    total: u64,
    max_align: u64,
)
    requires
        a.len() == b.len(),
        forall|i: int|
            0 <= i < a.len() ==> ((#[trigger] a[i]).size == b[i].size && a[i].offset
                == b[i].offset && a[i].is_bitfield == b[i].is_bitfield),
    ensures
        spec_infer_packed(a, total, max_align) == spec_infer_packed(b, total, max_align),
{
    lemma_sum_layout_only(a, b, a.len() as int);
    lemma_mma_layout_only(a, b, a.len() as int, max_align);
    assert(spec_has_violation(a, max_align) == spec_has_violation(b, max_align)) by {
        if spec_has_violation(a, max_align) {
            let i0 = choose|i: int| 0 <= i < a.len() && spec_is_misaligned(a[i], max_align);
            assert(spec_is_misaligned(b[i0], max_align));
        }
        if spec_has_violation(b, max_align) {
            let i0 = choose|i: int| 0 <= i < b.len() && spec_is_misaligned(b[i], max_align);
            assert(spec_is_misaligned(a[i0], max_align));
        }
    }
    assert forall|i: int| 0 <= i < a.len() implies #[trigger] spec_pad_before(a, max_align, i)
        == spec_pad_before(b, max_align, i) by {
        lemma_sum_layout_only(a, b, i);
    }
    assert(spec_would_pad(a, max_align) == spec_would_pad(b, max_align)) by {
        if exists|i: int| 0 <= i < a.len() && spec_pad_before(a, max_align, i) {
            let i0 = choose|i: int| 0 <= i < a.len() && spec_pad_before(a, max_align, i);
            assert(spec_pad_before(b, max_align, i0));
        }
        if exists|i: int| 0 <= i < b.len() && spec_pad_before(b, max_align, i) {
            let i0 = choose|i: int| 0 <= i < b.len() && spec_pad_before(b, max_align, i);
            assert(spec_pad_before(a, max_align, i0));
        }
    }
}

/// The analysis is a function of the aggregate list and the configuration
/// alone: two runs over the same input produce the same findings in the
/// same order.
pub proof fn lemma_analysis_repeatable(
    i1: Seq<IssueModel>,
    i2: Seq<IssueModel>,
    ss: Seq<StructModel>,
    max_align: u64,
    pattern: Seq<char>,
    alignment_check: bool,
    packed_check: bool,
)
    requires
        i1 == spec_analyze(ss, max_align, pattern, alignment_check, packed_check),
        i2 == spec_analyze(ss, max_align, pattern, alignment_check, packed_check),
    ensures
        i1 == i2,
{
}

} // verus!
