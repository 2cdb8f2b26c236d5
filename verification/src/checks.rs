//! Structural classification of (source, target) sub-type pairs: does
//! the target's bounding lifetime let it legally outlive the source?
//!
//! Three pure checks share one vocabulary: the *bounding* lifetime of a
//! sub-type is the tag set of the innermost hop that is not an
//! interior-mutability cell; a source that owns its data outright can
//! never be violated; and a source tag is *compatible* with the target
//! when some target tag equals it or is known (from an outlives bound)
//! to live no longer than it.

use vstd::prelude::*;

use crate::config::YugaConfig;
use crate::lifetimes::{clone_lifetime_vec, compare_lifetimes, contains_static, HopV, LifetimeName, MyLifetime};
use crate::types::{CrateModel, CrateV, MyProjection, ProjV, ShortLivedType, StructV, SubTypeV, crate_v};

verus! {

/// The view of a hop vector, element by element.
pub open spec fn hops_v(v: Seq<MyLifetime>) -> Seq<HopV> {
    v.map_values(|h: MyLifetime| h@)
}

/// The view of a projection vector, element by element.
pub open spec fn projs_v(v: Seq<MyProjection>) -> Seq<ProjV> {
    v.map_values(|p: MyProjection| p@)
}

/// The innermost hop that is not an interior-mutability cell, if any.
pub open spec fn innermost_real_hop(hops: Seq<HopV>) -> Option<HopV>
    decreases hops.len(),
{
    if hops.len() == 0 {
        None
    } else if !hops.last().is_refcell {
        Some(hops.last())
    } else {
        innermost_real_hop(hops.drop_last())
    }
}

/// Whether the innermost real hop is a raw pointer.
pub open spec fn innermost_is_raw(hops: Seq<HopV>) -> bool {
    match innermost_real_hop(hops) {
        Some(h) => h.is_raw,
        None => false,
    }
}

/// Whether the innermost real hop is a raw pointer carrying no tag, so
/// that only a custom destructor could free the pointee early.
pub open spec fn innermost_untagged_raw(hops: Seq<HopV>) -> bool {
    match innermost_real_hop(hops) {
        Some(h) => h.is_raw && h.names.len() == 0,
        None => false,
    }
}

/// The bounding lifetime of a hop stack: the tag set of the innermost
/// real hop that carries at least one tag; empty when no real hop does.
pub open spec fn bounding_names(hops: Seq<HopV>) -> Seq<LifetimeName>
    decreases hops.len(),
{
    if hops.len() == 0 {
        Seq::empty()
    } else if hops.last().is_refcell {
        bounding_names(hops.drop_last())
    } else if hops.last().names.len() > 0 {
        hops.last().names
    } else {
        bounding_names(hops.drop_last())
    }
}

/// The hops strictly outside the innermost real hop (trailing cells and
/// the innermost real hop itself removed).
pub open spec fn outer_hops(hops: Seq<HopV>) -> Seq<HopV>
    decreases hops.len(),
{
    if hops.len() == 0 {
        Seq::empty()
    } else if !hops.last().is_refcell {
        hops.drop_last()
    } else {
        outer_hops(hops.drop_last())
    }
}

/// Whether `src` may be bounded by lifetime `tgts[j]` for some `j`:
/// either the tags are equal, or an explicit or implicit bound says the
/// source's data outlives the target's.
pub open spec fn lt_compat(
    src: LifetimeName,
    tgts: Seq<LifetimeName>,
    bounds: Seq<(LifetimeName, LifetimeName)>,
) -> bool {
    exists|j: int|
        0 <= j < tgts.len() && (src == tgts[j] || bounds.contains((src, tgts[j])))
}

/// The first source tag that no target tag accounts for, if any.
pub open spec fn find_unmatched(
    srcs: Seq<LifetimeName>,
    tgts: Seq<LifetimeName>,
    bounds: Seq<(LifetimeName, LifetimeName)>,
) -> Option<LifetimeName>
    decreases srcs.len(),
{
    if srcs.len() == 0 {
        None
    } else if !lt_compat(srcs[0], tgts, bounds) {
        Some(srcs[0])
    } else {
        find_unmatched(srcs.subrange(1, srcs.len() as int), tgts, bounds)
    }
}

/// The struct recorded under declaration site `id`, if any.
pub open spec fn find_struct_v(ss: Seq<StructV>, id: u64) -> Option<StructV>
    decreases ss.len(),
{
    if ss.len() == 0 {
        None
    } else if ss[0].def_id == id {
        Some(ss[0])
    } else {
        find_struct_v(ss.subrange(1, ss.len() as int), id)
    }
}

/// Whether the struct declared at `id` has a custom destructor.
pub open spec fn struct_has_drop(ctx: CrateV, id: u64) -> bool {
    match find_struct_v(ctx.structs, id) {
        Some(s) => s.has_drop_impl,
        None => false,
    }
}

/// Scanning a projection path from its inner end outward, whether a
/// field of a struct with a custom destructor is crossed before the
/// next level of indirection.
pub open spec fn drop_scan(proj: Seq<ProjV>, ctx: CrateV) -> bool
    decreases proj.len(),
{
    if proj.len() == 0 {
        false
    } else {
        match proj.last() {
            ProjV::Deref => false,
            ProjV::Field(f) => (match f.owner {
                Some(d) => struct_has_drop(ctx, d),
                None => false,
            }) || drop_scan(proj.drop_last(), ctx),
        }
    }
}

/// Whether a custom destructor is reachable through the sub-type's
/// pointer chain: the innermost projection step is set aside and the
/// scan runs outward from there.
pub open spec fn drop_impl_reachable(proj: Seq<ProjV>, ctx: CrateV) -> bool {
    if proj.len() == 0 {
        false
    } else {
        drop_scan(proj.drop_last(), ctx)
    }
}

/// The result every check returns when the pair is not a violation.
pub open spec fn no_violation() -> (bool, (Seq<LifetimeName>, Seq<LifetimeName>), (bool, bool)) {
    (false, (Seq::<LifetimeName>::empty(), Seq::<LifetimeName>::empty()), (false, false))
}

/// What [`arg_return_outlives`] returns: whether the source sub-type of
/// an argument and the target sub-type of the return value form a
/// use-after-free shape, the tag sets involved, and which sides were
/// raw when a tag mismatch decided it.
pub open spec fn arg_return_outlives_spec(
    src: SubTypeV,
    tgt: SubTypeV,
    bounds: Seq<(LifetimeName, LifetimeName)>,
    ctx: CrateV,
    filter_by_drop_impl: bool,
) -> (bool, (Seq<LifetimeName>, Seq<LifetimeName>), (bool, bool)) {
    let src_b = bounding_names(src.hops);
    let src_raw = innermost_is_raw(src.hops);
    let tgt_b = bounding_names(tgt.hops);
    let tgt_raw = innermost_is_raw(tgt.hops);
    if src_b.len() == 0 || src_b.contains(LifetimeName::Static) {
        no_violation()
    } else if !src_raw && !tgt_raw {
        no_violation()
    } else if (src_raw && !src.in_struct) || (tgt_raw && !tgt.in_struct) {
        no_violation()
    } else if tgt_b.len() == 0 && !tgt_raw {
        no_violation()
    } else if filter_by_drop_impl && src_raw && tgt_raw
        && (innermost_untagged_raw(src.hops) && !drop_impl_reachable(src.proj, ctx))
        && (innermost_untagged_raw(tgt.hops) && !drop_impl_reachable(tgt.proj, ctx)) {
        no_violation()
    } else if tgt_b.len() == 0 || tgt_b.contains(LifetimeName::Static) {
        (true, (src_b, tgt_b), (false, false))
    } else {
        match find_unmatched(src_b, tgt_b, bounds) {
            Some(lt) => (true, (seq![lt], tgt_b), (src_raw, tgt_raw)),
            None => no_violation(),
        }
    }
}

/// What [`arg_return_mut`] returns: whether a mutable, struct-housed
/// raw source escapes into a borrowed return value whose lifetime is
/// not accounted for, plus the tag sets involved.
pub open spec fn arg_return_mut_spec(
    src: SubTypeV,
    tgt: SubTypeV,
    bounds: Seq<(LifetimeName, LifetimeName)>,
) -> (bool, (Seq<LifetimeName>, Seq<LifetimeName>)) {
    let none = (false, (Seq::<LifetimeName>::empty(), Seq::<LifetimeName>::empty()));
    match innermost_real_hop(src.hops) {
        None => none,
        Some(first) => if !first.is_mut {
            none
        } else {
            let src_b = match innermost_real_hop(outer_hops(src.hops)) {
                Some(h) => h.names,
                None => Seq::<LifetimeName>::empty(),
            };
            let src_raw = first.is_raw;
            let tgt_raw = innermost_is_raw(tgt.hops);
            let tgt_b = bounding_names(tgt.hops);
            if src_b.len() == 0 || src_b.contains(LifetimeName::Static) {
                none
            } else if !(src_raw && src.in_struct) {
                none
            } else if tgt_raw {
                none
            } else if tgt_b.len() == 0 {
                none
            } else {
                match find_unmatched(src_b, tgt_b, bounds) {
                    Some(_) => (true, (src_b, tgt_b)),
                    None => none,
                }
            }
        },
    }
}

/// Scanning the hops outside a target's bounding hop from the inside
/// out: whether the target position can actually be written through.
/// `check_mut` starts true; an interior-mutability cell switches the
/// requirement off for every hop further out; `acc` carries the verdict
/// of the previous step.
pub open spec fn viable_scan(r: Seq<HopV>, check_mut: bool, acc: bool) -> bool
    decreases r.len(),
{
    if r.len() == 0 {
        acc
    } else {
        let h = r.last();
        if h.is_refcell {
            viable_scan(r.drop_last(), false, acc)
        } else if !check_mut {
            true
        } else if !h.is_mut {
            false
        } else {
            viable_scan(r.drop_last(), check_mut, true)
        }
    }
}

/// What [`arg_arg_outlives`] returns: whether the source sub-type of
/// one argument can escape into a writable position of another
/// argument that may outlive it, plus the tag sets involved.
pub open spec fn arg_arg_outlives_spec(
    src: SubTypeV,
    tgt: SubTypeV,
    bounds: Seq<(LifetimeName, LifetimeName)>,
) -> (bool, (Seq<LifetimeName>, Seq<LifetimeName>)) {
    let none = (false, (Seq::<LifetimeName>::empty(), Seq::<LifetimeName>::empty()));
    let src_b = bounding_names(src.hops);
    let src_raw = innermost_is_raw(src.hops);
    if src_b.len() == 0 || src_b.contains(LifetimeName::Static) {
        none
    } else {
        match innermost_real_hop(tgt.hops) {
            None => none,
            Some(first) => {
                let tgt_b = first.names;
                let tgt_raw = first.is_raw;
                let viable = viable_scan(outer_hops(tgt.hops), true, false);
                if !viable {
                    none
                } else if !src_raw && !tgt_raw {
                    none
                } else if (src_raw && !src.in_struct) || (tgt_raw && !tgt.in_struct) {
                    none
                } else if tgt_b.len() == 0 || tgt_b.contains(LifetimeName::Static) {
                    (true, (src_b, tgt_b))
                } else {
                    match find_unmatched(src_b, tgt_b, bounds) {
                        Some(lt) => (true, (seq![lt], tgt_b)),
                        None => none,
                    }
                }
            },
        }
    }
}

/// Computes the bounding lifetime of a hop vector.
pub fn bounding_names_exec(hops: &Vec<MyLifetime>) -> (r: Vec<LifetimeName>)
    ensures
        r@ == bounding_names(hops_v(hops@)),
{
    let ghost hv = hops_v(hops@);
    let mut k = hops.len();
    assert(hv.subrange(0, k as int) =~= hv);
    while k > 0
        invariant
            k <= hops@.len(),
            hv == hops_v(hops@),
            hv.len() == hops@.len(),
            forall|j: int| 0 <= j < hv.len() ==> hv[j] == #[trigger] hops@[j]@,
            bounding_names(hv.subrange(0, k as int)) == bounding_names(hv),
        decreases k,
    {
        let ghost pre = hv.subrange(0, k as int);
        assert(pre.last() == hv[k - 1]);
        assert(pre.drop_last() =~= hv.subrange(0, k - 1));
        let h = &hops[k - 1];
        if !h.is_refcell && h.names.len() > 0 {
            return clone_lifetime_vec(&h.names);
        }
        k = k - 1;
    }
    assert(hv.subrange(0, 0) =~= Seq::<HopV>::empty());
    Vec::new()
}

/// Finds the index of the innermost real hop among the first `upto`
/// hops: every hop between it and position `upto` is an
/// interior-mutability cell.
pub fn innermost_real_index_upto(hops: &Vec<MyLifetime>, upto: usize) -> (r: Option<usize>)
    requires
        upto <= hops@.len(),
    ensures
        match r {
            Some(i) => i < upto && !hops@[i as int]@.is_refcell && innermost_real_hop(
                hops_v(hops@).subrange(0, upto as int),
            ) == Some(hops@[i as int]@) && outer_hops(hops_v(hops@).subrange(0, upto as int))
                == hops_v(hops@).subrange(0, i as int),
            None => innermost_real_hop(hops_v(hops@).subrange(0, upto as int)) is None
                && outer_hops(hops_v(hops@).subrange(0, upto as int)) == Seq::<HopV>::empty(),
        },
{
    let ghost hv = hops_v(hops@);
    let ghost full = hv.subrange(0, upto as int);
    let mut k = upto;
    while k > 0
        invariant
            k <= upto <= hops@.len(),
            hv == hops_v(hops@),
            full == hv.subrange(0, upto as int),
            hv.len() == hops@.len(),
            forall|j: int| 0 <= j < hv.len() ==> hv[j] == #[trigger] hops@[j]@,
            innermost_real_hop(hv.subrange(0, k as int)) == innermost_real_hop(full),
            outer_hops(hv.subrange(0, k as int)) == outer_hops(full),
        decreases k,
    {
        let ghost pre = hv.subrange(0, k as int);
        assert(pre.last() == hv[k - 1]);
        assert(pre.drop_last() =~= hv.subrange(0, k - 1));
        if !hops[k - 1].is_refcell {
            return Some(k - 1);
        }
        k = k - 1;
    }
    assert(hv.subrange(0, 0) =~= Seq::<HopV>::empty());
    None
}

/// Finds the index of the innermost real hop: every hop further in is
/// an interior-mutability cell.
pub fn innermost_real_index(hops: &Vec<MyLifetime>) -> (r: Option<usize>)
    ensures
        match r {
            Some(i) => i < hops@.len() && !hops@[i as int]@.is_refcell && innermost_real_hop(
                hops_v(hops@),
            ) == Some(hops@[i as int]@) && outer_hops(hops_v(hops@)) == hops_v(hops@).subrange(
                0,
                i as int,
            ),
            None => innermost_real_hop(hops_v(hops@)) is None && outer_hops(hops_v(hops@))
                == Seq::<HopV>::empty(),
        },
{
    assert(hops_v(hops@).subrange(0, hops@.len() as int) =~= hops_v(hops@));
    innermost_real_index_upto(hops, hops.len())
}

/// Whether the bound table records that `a`'s data outlives `b`'s.
pub fn bounds_contain(bounds: &Vec<(LifetimeName, LifetimeName)>, a: &LifetimeName, b: &LifetimeName) -> (r: bool)
    ensures
        r == bounds@.contains((*a, *b)),
{
    let n = bounds.len();
    for i in 0..n
        invariant
            n == bounds@.len(),
            forall|j: int| 0 <= j < i ==> bounds@[j] != (*a, *b),
    {
        if compare_lifetimes(&bounds[i].0, a) && compare_lifetimes(&bounds[i].1, b) {
            assert(bounds@[i as int] == (*a, *b));
            return true;
        }
    }
    false
}

/// Whether some target tag accounts for the source tag `src`.
pub fn lt_compat_exec(
    src: &LifetimeName,
    tgts: &Vec<LifetimeName>,
    bounds: &Vec<(LifetimeName, LifetimeName)>,
) -> (r: bool)
    ensures
        r == lt_compat(*src, tgts@, bounds@),
{
    let n = tgts.len();
    for j in 0..n
        invariant
            n == tgts@.len(),
            forall|k: int|
                0 <= k < j ==> !(*src == tgts@[k] || bounds@.contains((*src, tgts@[k]))),
    {
        if compare_lifetimes(src, &tgts[j]) || bounds_contain(bounds, src, &tgts[j]) {
            return true;
        }
    }
    false
}

/// Finds the first source tag no target tag accounts for.
pub fn find_unmatched_exec(
    srcs: &Vec<LifetimeName>,
    tgts: &Vec<LifetimeName>,
    bounds: &Vec<(LifetimeName, LifetimeName)>,
) -> (r: Option<LifetimeName>)
    ensures
        r == find_unmatched(srcs@, tgts@, bounds@),
{
    let n = srcs.len();
    assert(srcs@.subrange(0, n as int) =~= srcs@);
    for i in 0..n
        invariant
            n == srcs@.len(),
            find_unmatched(srcs@.subrange(i as int, n as int), tgts@, bounds@) == find_unmatched(
                srcs@,
                tgts@,
                bounds@,
            ),
    {
        assert(srcs@.subrange(i as int, n as int)[0] == srcs@[i as int]);
        if !lt_compat_exec(&srcs[i], tgts, bounds) {
            return Some(srcs[i]);
        }
        assert(srcs@.subrange(i as int, n as int).subrange(1, (n - i) as int)
            =~= srcs@.subrange(i + 1, n as int));
    }
    assert(srcs@.subrange(n as int, n as int).len() == 0);
    None
}

/// Whether the struct declared at `id` has a custom destructor.
pub fn struct_has_drop_exec(ctx: &CrateModel, id: u64) -> (r: bool)
    ensures
        r == struct_has_drop(crate_v(*ctx), id),
{
    let ghost sv = crate_v(*ctx).structs;
    proof {
        crate::types::lemma_structs_v_index(ctx.structs@);
    }
    let n = ctx.structs.len();
    assert(sv.subrange(0, n as int) =~= sv);
    for i in 0..n
        invariant
            n == ctx.structs@.len(),
            sv == crate_v(*ctx).structs,
            sv.len() == n,
            forall|j: int| 0 <= j < n ==> #[trigger] sv[j] == crate::types::struct_v(ctx.structs@[j]),
            find_struct_v(sv.subrange(i as int, n as int), id) == find_struct_v(sv, id),
    {
        assert(sv.subrange(i as int, n as int)[0] == sv[i as int]);
        if ctx.structs[i].def_id == id {
            return ctx.structs[i].has_drop_impl;
        }
        assert(sv.subrange(i as int, n as int).subrange(1, (n - i) as int)
            =~= sv.subrange(i + 1, n as int));
    }
    assert(sv.subrange(n as int, n as int).len() == 0);
    false
}

/// Whether a custom destructor is reachable through the sub-type's
/// pointer chain.
pub fn drop_impl_reachable_exec(proj: &Vec<MyProjection>, ctx: &CrateModel) -> (r: bool)
    ensures
        r == drop_impl_reachable(projs_v(proj@), crate_v(*ctx)),
{
    let ghost pv = projs_v(proj@);
    if proj.len() == 0 {
        return false;
    }
    let ghost scanned = pv.drop_last();
    let mut k = proj.len() - 1;
    assert(scanned =~= pv.subrange(0, k as int));
    while k > 0
        invariant
            k <= proj@.len() - 1,
            pv == projs_v(proj@),
            pv.len() == proj@.len(),
            scanned == pv.drop_last(),
            forall|j: int| 0 <= j < pv.len() ==> pv[j] == #[trigger] proj@[j]@,
            drop_scan(pv.subrange(0, k as int), crate_v(*ctx)) == drop_scan(
                scanned,
                crate_v(*ctx),
            ),
        decreases k,
    {
        let ghost pre = pv.subrange(0, k as int);
        assert(pre.last() == pv[k - 1]);
        assert(pre.drop_last() =~= pv.subrange(0, k - 1));
        match &proj[k - 1] {
            MyProjection::MyDeref => {
                return false;
            },
            MyProjection::MyField(f) => {
                match f.struct_def_id {
                    Some(d) => {
                        if struct_has_drop_exec(ctx, d) {
                            return true;
                        }
                    },
                    None => {},
                }
            },
        }
        k = k - 1;
    }
    assert(pv.subrange(0, 0) =~= Seq::<ProjV>::empty());
    false
}

/// Classifies whether a source sub-type of an argument and a target
/// sub-type of the return value form a use-after-free shape: the target
/// could legally outlive the source's bounding lifetime. Returns the
/// verdict, the source and target tag sets involved, and which sides
/// were raw when a tag mismatch decided it.
pub fn arg_return_outlives(
    source_type: &ShortLivedType,
    target_type: &ShortLivedType,
    lifetime_bounds: &Vec<(LifetimeName, LifetimeName)>,
    ctx: &CrateModel,
    config: &YugaConfig,
) -> (r: (bool, (Vec<LifetimeName>, Vec<LifetimeName>), (bool, bool)))
    ensures
        ({
            let s = arg_return_outlives_spec(
                source_type@,
                target_type@,
                lifetime_bounds@,
                crate_v(*ctx),
                config.filter_by_drop_impl,
            );
            r.0 == s.0 && r.1.0@ == s.1.0 && r.1.1@ == s.1.1 && r.2 == s.2
        }),
{
    let none = || -> (n: (bool, (Vec<LifetimeName>, Vec<LifetimeName>), (bool, bool)))
        ensures
            n.0 == no_violation().0 && n.1.0@ == no_violation().1.0 && n.1.1@
                == no_violation().1.1 && n.2 == no_violation().2,
        { (false, (Vec::new(), Vec::new()), (false, false)) };

    let src_b = bounding_names_exec(&source_type.lifetimes);
    let tgt_b = bounding_names_exec(&target_type.lifetimes);
    let src_idx = innermost_real_index(&source_type.lifetimes);
    let tgt_idx = innermost_real_index(&target_type.lifetimes);
    let src_raw = match src_idx {
        Some(i) => source_type.lifetimes[i].is_raw,
        None => false,
    };
    let tgt_raw = match tgt_idx {
        Some(i) => target_type.lifetimes[i].is_raw,
        None => false,
    };
    if src_b.len() == 0 || contains_static(&src_b) {
        return none();
    }
    if !src_raw && !tgt_raw {
        return none();
    }
    if (src_raw && !source_type.in_struct) || (tgt_raw && !target_type.in_struct) {
        return none();
    }
    if tgt_b.len() == 0 && !tgt_raw {
        return none();
    }
    if config.filter_by_drop_impl && src_raw && tgt_raw {
        let src_untagged = match src_idx {
            Some(i) => source_type.lifetimes[i].names.len() == 0,
            None => false,
        };
        let tgt_untagged = match tgt_idx {
            Some(i) => target_type.lifetimes[i].names.len() == 0,
            None => false,
        };
        if src_untagged && !drop_impl_reachable_exec(&source_type.projection, ctx) && tgt_untagged
            && !drop_impl_reachable_exec(&target_type.projection, ctx) {
            return none();
        }
    }
    if tgt_b.len() == 0 || contains_static(&tgt_b) {
        return (true, (src_b, tgt_b), (false, false));
    }
    match find_unmatched_exec(&src_b, &tgt_b, lifetime_bounds) {
        Some(lt) => {
            let mut single: Vec<LifetimeName> = Vec::new();
            single.push(lt);
            assert(single@ =~= seq![lt]);
            (true, (single, tgt_b), (src_raw, tgt_raw))
        },
        None => none(),
    }
}

/// Classifies whether a mutable, struct-housed raw source escapes into
/// a borrowed return value whose lifetime is not accounted for, so the
/// exclusivity the `&mut` or `*mut` promises could be broken.
pub fn arg_return_mut(
    source_type: &ShortLivedType,
    target_type: &ShortLivedType,
    lifetime_bounds: &Vec<(LifetimeName, LifetimeName)>,
    config: &YugaConfig,
) -> (r: (bool, (Vec<LifetimeName>, Vec<LifetimeName>)))
    ensures
        ({
            let s = arg_return_mut_spec(source_type@, target_type@, lifetime_bounds@);
            r.0 == s.0 && r.1.0@ == s.1.0 && r.1.1@ == s.1.1
        }),
{
    let none = || -> (n: (bool, (Vec<LifetimeName>, Vec<LifetimeName>)))
        ensures
            n.0 == false && n.1.0@ == Seq::<LifetimeName>::empty() && n.1.1@
                == Seq::<LifetimeName>::empty(),
        { (false, (Vec::new(), Vec::new())) };

    let src_idx = match innermost_real_index(&source_type.lifetimes) {
        Some(i) => i,
        None => {
            return none();
        },
    };
    if !source_type.lifetimes[src_idx].is_mut {
        return none();
    }
    let src_raw = source_type.lifetimes[src_idx].is_raw;
    let src_b = match innermost_real_index_upto(&source_type.lifetimes, src_idx) {
        Some(j) => clone_lifetime_vec(&source_type.lifetimes[j].names),
        None => Vec::new(),
    };
    if src_b.len() == 0 || contains_static(&src_b) {
        return none();
    }
    let tgt_raw = match innermost_real_index(&target_type.lifetimes) {
        Some(i) => target_type.lifetimes[i].is_raw,
        None => false,
    };
    let tgt_b = bounding_names_exec(&target_type.lifetimes);
    if !(src_raw && source_type.in_struct) {
        return none();
    }
    if tgt_raw {
        return none();
    }
    if tgt_b.len() == 0 {
        return none();
    }
    match find_unmatched_exec(&src_b, &tgt_b, lifetime_bounds) {
        Some(_) => (true, (src_b, tgt_b)),
        None => none(),
    }
}

/// Runs the viability scan over the hops outside a target's bounding
/// hop, from the inside out.
fn viable_scan_exec(hops: &Vec<MyLifetime>, upto: usize) -> (r: bool)
    requires
        upto <= hops@.len(),
    ensures
        r == viable_scan(hops_v(hops@).subrange(0, upto as int), true, false),
{
    let ghost hv = hops_v(hops@);
    let mut k = upto;
    let mut check_mut = true;
    let mut acc = false;
    while k > 0
        invariant
            k <= upto <= hops@.len(),
            hv == hops_v(hops@),
            hv.len() == hops@.len(),
            forall|j: int| 0 <= j < hv.len() ==> hv[j] == #[trigger] hops@[j]@,
            viable_scan(hv.subrange(0, k as int), check_mut, acc) == viable_scan(
                hv.subrange(0, upto as int),
                true,
                false,
            ),
        decreases k,
    {
        let ghost pre = hv.subrange(0, k as int);
        assert(pre.last() == hv[k - 1]);
        assert(pre.drop_last() =~= hv.subrange(0, k - 1));
        let h = &hops[k - 1];
        if h.is_refcell {
            check_mut = false;
        } else if !check_mut {
            return true;
        } else if !h.is_mut {
            return false;
        } else {
            acc = true;
        }
        k = k - 1;
    }
    assert(hv.subrange(0, 0) =~= Seq::<HopV>::empty());
    acc
}

/// Classifies whether the source sub-type of one argument can escape
/// into a writable position of another argument that may outlive it.
pub fn arg_arg_outlives(
    source_type: &ShortLivedType,
    target_type: &ShortLivedType,
    lifetime_bounds: &Vec<(LifetimeName, LifetimeName)>,
    config: &YugaConfig,
) -> (r: (bool, (Vec<LifetimeName>, Vec<LifetimeName>)))
    ensures
        ({
            let s = arg_arg_outlives_spec(source_type@, target_type@, lifetime_bounds@);
            r.0 == s.0 && r.1.0@ == s.1.0 && r.1.1@ == s.1.1
        }),
{
    let none = || -> (n: (bool, (Vec<LifetimeName>, Vec<LifetimeName>)))
        ensures
            n.0 == false && n.1.0@ == Seq::<LifetimeName>::empty() && n.1.1@
                == Seq::<LifetimeName>::empty(),
        { (false, (Vec::new(), Vec::new())) };

    let src_b = bounding_names_exec(&source_type.lifetimes);
    let src_raw = match innermost_real_index(&source_type.lifetimes) {
        Some(i) => source_type.lifetimes[i].is_raw,
        None => false,
    };
    if src_b.len() == 0 || contains_static(&src_b) {
        return none();
    }
    let tgt_idx = match innermost_real_index(&target_type.lifetimes) {
        Some(i) => i,
        None => {
            return none();
        },
    };
    let tgt_b = clone_lifetime_vec(&target_type.lifetimes[tgt_idx].names);
    let tgt_raw = target_type.lifetimes[tgt_idx].is_raw;
    let viable = viable_scan_exec(&target_type.lifetimes, tgt_idx);
    if !viable {
        return none();
    }
    if !src_raw && !tgt_raw {
        return none();
    }
    if (src_raw && !source_type.in_struct) || (tgt_raw && !target_type.in_struct) {
        return none();
    }
    if tgt_b.len() == 0 || contains_static(&tgt_b) {
        return (true, (src_b, tgt_b));
    }
    match find_unmatched_exec(&src_b, &tgt_b, lifetime_bounds) {
        Some(lt) => {
            let mut single: Vec<LifetimeName> = Vec::new();
            single.push(lt);
            assert(single@ =~= seq![lt]);
            (true, (single, tgt_b))
        },
        None => none(),
    }
}

/// A hop stack none of whose hops carries a tag bounds nothing.
pub proof fn lemma_untagged_hops_bound_nothing(hops: Seq<HopV>)
    requires
        forall|i: int| 0 <= i < hops.len() ==> #[trigger] hops[i].names.len() == 0,
    ensures
        bounding_names(hops).len() == 0,
    decreases hops.len(),
{
    if hops.len() > 0 {
        assert(hops.last() == hops[hops.len() - 1]);
        lemma_untagged_hops_bound_nothing(hops.drop_last());
    }
}

/// The return-escape check never fires when the source is fully owned:
/// if no hop of the source sub-type carries a lifetime tag, the pair is
/// not a violation, whatever the target looks like.
pub proof fn lemma_return_escape_owned_source(
    src: SubTypeV,
    tgt: SubTypeV,
    bounds: Seq<(LifetimeName, LifetimeName)>,
    ctx: CrateV,
    filter_by_drop_impl: bool,
)
    requires
        forall|i: int| 0 <= i < src.hops.len() ==> #[trigger] src.hops[i].names.len() == 0,
    ensures
        !arg_return_outlives_spec(src, tgt, bounds, ctx, filter_by_drop_impl).0,
{
    lemma_untagged_hops_bound_nothing(src.hops);
}

/// The return-escape check fires, independent of any dataflow, when the
/// source is a struct-housed raw pointer bounded by a non-static tag
/// and the target's bounding tag set either contains the whole-program
/// lifetime or is empty while the target is itself a struct-housed raw
/// pointer.
pub proof fn lemma_return_escape_static_or_raw_target(
    src: SubTypeV,
    tgt: SubTypeV,
    bounds: Seq<(LifetimeName, LifetimeName)>,
    ctx: CrateV,
)
    requires
        innermost_is_raw(src.hops),
        src.in_struct,
        bounding_names(src.hops).len() > 0,
        !bounding_names(src.hops).contains(LifetimeName::Static),
        innermost_is_raw(tgt.hops) ==> tgt.in_struct,
        bounding_names(tgt.hops).contains(LifetimeName::Static) || (bounding_names(tgt.hops).len()
            == 0 && innermost_is_raw(tgt.hops)),
    ensures
        arg_return_outlives_spec(src, tgt, bounds, ctx, false).0,
{
    if bounding_names(tgt.hops).contains(LifetimeName::Static) {
        assert(bounding_names(tgt.hops).len() > 0);
    }
}

} // verus!
