//! The type-decomposition engine: walks a type expression and
//! enumerates every reachable sub-value ([`ShortLivedType`]) together
//! with the projection path to reach it and the stack of lifetime and
//! mutability annotations bounding it.
//!
//! Substitution is applied eagerly: before the walker expands a struct
//! or impl definition, the formal-to-actual maps built from the
//! angle-bracket arguments are applied to every nested tag and type.
//! Termination rests on a visited set of definition identities: each
//! struct or impl from the crate context is expanded at most once per
//! path, and everything else shrinks the type expression itself.

use vstd::prelude::*;

use crate::checks::find_struct_v;
use crate::lifetimes::{remap_spec, HopV, LifetimeName, MyLifetime};
use crate::seqs::lemma_contains_push;
use crate::types::{
    arglist_v, bmap_v, crate_v, find_bounds, lt_args_of, ty_v, tylist_v, ArgList, ArgV, BoundsInfo, BoundsV,
    CrateModel, CrateV, FieldInfo, FieldV, ImplV, MyProjection, NominalKind, ProjV,
    ShortLivedType, StructV, SubTypeV, TypeExpr, TypeList, TyV,
};

verus! {

/// The replacement recorded for a generic type parameter, if any.
pub open spec fn find_ty(tym: Seq<(u64, TyV)>, id: u64) -> Option<TyV>
    decreases tym.len(),
{
    if tym.len() == 0 {
        None
    } else if tym[0].0 == id {
        Some(tym[0].1)
    } else {
        find_ty(tym.subrange(1, tym.len() as int), id)
    }
}

/// The impl recorded under identity `id`, if any.
pub open spec fn find_impl_v(is: Seq<ImplV>, id: u64) -> Option<ImplV>
    decreases is.len(),
{
    if is.len() == 0 {
        None
    } else if is[0].impl_id == id {
        Some(is[0])
    } else {
        find_impl_v(is.subrange(1, is.len() as int), id)
    }
}

/// A type expression with a lifetime and a type substitution applied to
/// every nested tag and type. A substituted generic parameter is
/// replaced whole.
pub open spec fn subst_v(
    t: TyV,
    ltm: Seq<(LifetimeName, LifetimeName)>,
    tym: Seq<(u64, TyV)>,
) -> TyV
    decreases t,
{
    match t {
        TyV::Ref { lifetime, is_mut, inner } => TyV::Ref {
            lifetime: remap_spec(lifetime, ltm),
            is_mut,
            inner: Box::new(subst_v(*inner, ltm, tym)),
        },
        TyV::RawPtr { is_mut, inner } => TyV::RawPtr {
            is_mut,
            inner: Box::new(subst_v(*inner, ltm, tym)),
        },
        TyV::Slice { inner } => TyV::Slice { inner: Box::new(subst_v(*inner, ltm, tym)) },
        TyV::Tuple { elems } => TyV::Tuple { elems: subst_list_v(elems, ltm, tym) },
        TyV::Primitive => TyV::Primitive,
        TyV::Named { def_id, kind, args } => match find_ty(tym, def_id) {
            Some(rep) => rep,
            None => TyV::Named { def_id, kind, args: subst_args_v(args, ltm, tym) },
        },
        TyV::SelfAlias { impl_id } => TyV::SelfAlias { impl_id },
        TyV::Unsupported => TyV::Unsupported,
    }
}

/// A type list with a substitution applied to every element.
pub open spec fn subst_list_v(
    ts: Seq<TyV>,
    ltm: Seq<(LifetimeName, LifetimeName)>,
    tym: Seq<(u64, TyV)>,
) -> Seq<TyV>
    decreases ts,
{
    if ts.len() == 0 {
        Seq::empty()
    } else {
        seq![subst_v(ts[0], ltm, tym)] + subst_list_v(ts.subrange(1, ts.len() as int), ltm, tym)
    }
}

/// An argument list with a substitution applied to every element.
pub open spec fn subst_args_v(
    args: Seq<ArgV>,
    ltm: Seq<(LifetimeName, LifetimeName)>,
    tym: Seq<(u64, TyV)>,
) -> Seq<ArgV>
    decreases args,
{
    if args.len() == 0 {
        Seq::empty()
    } else {
        (match args[0] {
            ArgV::Lt(lt) => seq![ArgV::Lt(remap_spec(lt, ltm))],
            ArgV::Ty(t) => seq![ArgV::Ty(subst_v(t, ltm, tym))],
        }) + subst_args_v(args.subrange(1, args.len() as int), ltm, tym)
    }
}

/// One formal generic parameter of a struct declaration.
pub use crate::types::GenericParamDef;

/// Pairs formal generic parameters with actual arguments position by
/// position; a kind mismatch abandons the scan.
pub open spec fn remappings_scan(
    formals: Seq<GenericParamDef>,
    actuals: Seq<ArgV>,
) -> Option<(Seq<(LifetimeName, LifetimeName)>, Seq<(u64, TyV)>)>
    decreases formals.len(),
{
    if formals.len() == 0 || actuals.len() == 0 {
        Some((Seq::empty(), Seq::empty()))
    } else {
        match remappings_scan(
            formals.subrange(1, formals.len() as int),
            actuals.subrange(1, actuals.len() as int),
        ) {
            None => None,
            Some(rest) => match (formals[0], actuals[0]) {
                (GenericParamDef::Lifetime(id), ArgV::Lt(lt)) => Some(
                    (seq![(LifetimeName::Param(id), lt)] + rest.0, rest.1),
                ),
                (GenericParamDef::Type(id), ArgV::Ty(t)) => Some(
                    (rest.0, seq![(id, t)] + rest.1),
                ),
                _ => None,
            },
        }
    }
}

/// The formal-to-actual maps for a nominal type's angle-bracket
/// arguments: empty when the arities differ or the kinds do not line
/// up, so a broken invariant yields an empty result rather than a
/// failure.
pub open spec fn remappings_of(
    formals: Seq<GenericParamDef>,
    actuals: Seq<ArgV>,
) -> (Seq<(LifetimeName, LifetimeName)>, Seq<(u64, TyV)>) {
    if formals.len() != actuals.len() {
        (Seq::empty(), Seq::empty())
    } else {
        match remappings_scan(formals, actuals) {
            Some(m) => m,
            None => (Seq::empty(), Seq::empty()),
        }
    }
}

/// The identities of the structs in the table.
pub open spec fn struct_ids(ss: Seq<StructV>) -> Seq<u64> {
    ss.map_values(|s: StructV| s.def_id)
}

/// The identities of the impls in the table.
pub open spec fn impl_ids(is: Seq<ImplV>) -> Seq<u64> {
    is.map_values(|i: ImplV| i.impl_id)
}

/// Every definition identity the walker can expand.
pub open spec fn table_ids(ctx: CrateV) -> Seq<u64> {
    struct_ids(ctx.structs) + impl_ids(ctx.impls)
}

/// How many of the listed identities are not yet in the visited set.
pub open spec fn count_not_in(ids: Seq<u64>, visited: Seq<u64>) -> nat
    decreases ids.len(),
{
    if ids.len() == 0 {
        0
    } else {
        count_not_in(ids.drop_last(), visited) + (if visited.contains(ids.last()) {
            0nat
        } else {
            1nat
        })
    }
}

/// The number of definitions still expandable on the current path; the
/// walker's primary termination measure.
pub open spec fn unexpanded(ctx: CrateV, visited: Seq<u64>) -> nat {
    count_not_in(table_ids(ctx), visited)
}

/// Visiting one more identity never makes more definitions expandable.
pub proof fn lemma_count_mono(ids: Seq<u64>, visited: Seq<u64>, d: u64)
    ensures
        count_not_in(ids, visited.push(d)) <= count_not_in(ids, visited),
    decreases ids.len(),
{
    if ids.len() > 0 {
        lemma_count_mono(ids.drop_last(), visited, d);
        lemma_contains_push(visited, d, ids.last());
    }
}

/// Visiting a listed, unvisited identity strictly shrinks the measure.
pub proof fn lemma_count_strict(ids: Seq<u64>, visited: Seq<u64>, d: u64)
    requires
        ids.contains(d),
        !visited.contains(d),
    ensures
        count_not_in(ids, visited.push(d)) < count_not_in(ids, visited),
    decreases ids.len(),
{
    lemma_contains_push(visited, d, ids.last());
    if ids.last() == d {
        lemma_count_mono(ids.drop_last(), visited, d);
    } else {
        let i = choose|i: int| 0 <= i < ids.len() && ids[i] == d;
        assert(ids.drop_last()[i] == d);
        lemma_count_strict(ids.drop_last(), visited, d);
        lemma_contains_push(visited, d, ids.last());
    }
}

/// A found struct is listed in the table identities.
pub proof fn lemma_find_struct_in_ids(ss: Seq<StructV>, id: u64)
    requires
        find_struct_v(ss, id) is Some,
    ensures
        struct_ids(ss).contains(id),
    decreases ss.len(),
{
    if ss.len() > 0 {
        if ss[0].def_id == id {
            assert(struct_ids(ss)[0] == id);
        } else {
            lemma_find_struct_in_ids(ss.subrange(1, ss.len() as int), id);
            let rest = ss.subrange(1, ss.len() as int);
            let i = choose|i: int| 0 <= i < rest.len() && struct_ids(rest)[i] == id;
            assert(struct_ids(rest)[i] == rest[i].def_id);
            assert(struct_ids(ss)[i + 1] == ss[i + 1].def_id);
            assert(ss[i + 1] == rest[i]);
        }
    }
}

/// A found impl is listed in the table identities.
pub proof fn lemma_find_impl_in_ids(is: Seq<ImplV>, id: u64)
    requires
        find_impl_v(is, id) is Some,
    ensures
        impl_ids(is).contains(id),
    decreases is.len(),
{
    if is.len() > 0 {
        if is[0].impl_id == id {
            assert(impl_ids(is)[0] == id);
        } else {
            lemma_find_impl_in_ids(is.subrange(1, is.len() as int), id);
            let rest = is.subrange(1, is.len() as int);
            let i = choose|i: int| 0 <= i < rest.len() && impl_ids(rest)[i] == id;
            assert(impl_ids(rest)[i] == rest[i].impl_id);
            assert(impl_ids(is)[i + 1] == is[i + 1].impl_id);
            assert(is[i + 1] == rest[i]);
        }
    }
}

/// A listed struct identity makes the table identities contain it.
pub proof fn lemma_struct_id_in_table(ctx: CrateV, id: u64)
    requires
        find_struct_v(ctx.structs, id) is Some,
    ensures
        table_ids(ctx).contains(id),
{
    lemma_find_struct_in_ids(ctx.structs, id);
    let i = choose|i: int| 0 <= i < struct_ids(ctx.structs).len() && struct_ids(ctx.structs)[i]
        == id;
    assert(table_ids(ctx)[i] == id);
}

/// A listed impl identity makes the table identities contain it.
pub proof fn lemma_impl_id_in_table(ctx: CrateV, id: u64)
    requires
        find_impl_v(ctx.impls, id) is Some,
    ensures
        table_ids(ctx).contains(id),
{
    lemma_find_impl_in_ids(ctx.impls, id);
    let i = choose|i: int| 0 <= i < impl_ids(ctx.impls).len() && impl_ids(ctx.impls)[i] == id;
    assert(table_ids(ctx)[struct_ids(ctx.structs).len() + i] == id);
}

/// The sub-type that owns its data outright: no hops, no projection.
pub open spec fn owned_subtype(def_id: Option<u64>) -> SubTypeV {
    SubTypeV {
        def_id,
        hops: Seq::empty(),
        proj: Seq::empty(),
        in_struct: false,
        is_closure: false,
    }
}

/// The synthetic sub-type recording that a generic parameter might
/// itself be a borrow, tagged with a fresh lifetime unique to the
/// parameter.
pub open spec fn generic_borrow_subtype(def_id: u64, is_closure: bool) -> SubTypeV {
    SubTypeV {
        def_id: None,
        hops: seq![
            HopV {
                names: seq![LifetimeName::Param(def_id)],
                is_mut: false,
                is_raw: false,
                is_refcell: false,
            }
        ],
        proj: seq![ProjV::Deref],
        in_struct: false,
        is_closure,
    }
}

/// A sub-type one level of indirection further in: a new outermost hop
/// and a dereference step.
pub open spec fn deref_hop_prepended(s: SubTypeV, hop: HopV) -> SubTypeV {
    SubTypeV {
        def_id: s.def_id,
        hops: seq![hop] + s.hops,
        proj: seq![ProjV::Deref] + s.proj,
        in_struct: s.in_struct,
        is_closure: s.is_closure,
    }
}

/// A sub-type reached through one more field selection.
pub open spec fn field_prepended(s: SubTypeV, f: FieldV) -> SubTypeV {
    SubTypeV {
        def_id: s.def_id,
        hops: s.hops,
        proj: seq![ProjV::Field(f)] + s.proj,
        in_struct: s.in_struct,
        is_closure: s.is_closure,
    }
}

/// The hop an interior-mutability cell contributes.
pub open spec fn refcell_hop() -> HopV {
    HopV { names: Seq::empty(), is_mut: false, is_raw: false, is_refcell: true }
}

/// A sub-type with an interior-mutability hop prepended (the cell adds
/// no projection step of its own).
pub open spec fn refcell_prepended(s: SubTypeV) -> SubTypeV {
    SubTypeV {
        def_id: s.def_id,
        hops: seq![refcell_hop()] + s.hops,
        proj: s.proj,
        in_struct: s.in_struct,
        is_closure: s.is_closure,
    }
}

/// A sub-type marked as reached through a struct field.
pub open spec fn in_struct_marked(s: SubTypeV) -> SubTypeV {
    SubTypeV {
        def_id: s.def_id,
        hops: s.hops,
        proj: s.proj,
        in_struct: true,
        is_closure: s.is_closure,
    }
}

/// The index of the first hop from the outside that is not an
/// interior-mutability cell, starting the scan at `i`.
pub open spec fn first_real_outer_idx(hops: Seq<HopV>, i: int) -> Option<int>
    decreases hops.len() - i,
{
    if i < 0 || i >= hops.len() {
        None
    } else if hops[i].is_refcell {
        first_real_outer_idx(hops, i + 1)
    } else {
        Some(i)
    }
}

/// Lifetime inheritance: when the owning nominal type carries lifetime
/// arguments, the first real hop of the sub-type, if it is a raw
/// pointer without tags of its own, receives the owner's lifetimes —
/// a raw pointer's implicit lifetime is bounded by its owner's.
pub open spec fn lts_inherited(s: SubTypeV, struct_lts: Seq<LifetimeName>) -> SubTypeV {
    if struct_lts.len() == 0 {
        s
    } else {
        match first_real_outer_idx(s.hops, 0) {
            Some(j) => if s.hops[j].is_raw && s.hops[j].names.len() == 0 {
                SubTypeV {
                    def_id: s.def_id,
                    hops: s.hops.update(
                        j,
                        HopV {
                            names: struct_lts,
                            is_mut: s.hops[j].is_mut,
                            is_raw: s.hops[j].is_raw,
                            is_refcell: s.hops[j].is_refcell,
                        },
                    ),
                    proj: s.proj,
                    in_struct: s.in_struct,
                    is_closure: s.is_closure,
                }
            } else {
                s
            },
            None => s,
        }
    }
}

/// The transform applied to every sub-type found inside a type
/// argument of an opaque nominal type.
pub open spec fn arg_transformed(
    s: SubTypeV,
    owner: u64,
    kind: NominalKind,
    struct_lts: Seq<LifetimeName>,
) -> SubTypeV {
    let with_field = field_prepended(
        s,
        FieldV { num: 0, name: None, owner: Some(owner) },
    );
    let with_cell = if kind == NominalKind::RefCellLike {
        refcell_prepended(with_field)
    } else {
        with_field
    };
    lts_inherited(with_cell, struct_lts)
}

/// The transform applied to every sub-type found inside a struct
/// field.
pub open spec fn field_transformed(
    s: SubTypeV,
    num: usize,
    name: Option<Seq<char>>,
    owner: u64,
    struct_lts: Seq<LifetimeName>,
) -> SubTypeV {
    lts_inherited(
        in_struct_marked(field_prepended(s, FieldV { num, name, owner: Some(owner) })),
        struct_lts,
    )
}

/// Sub-types with a dereference hop prepended to each.
pub open spec fn deref_mapped(subs: Seq<SubTypeV>, hop: HopV) -> Seq<SubTypeV>
    decreases subs.len(),
{
    if subs.len() == 0 {
        Seq::empty()
    } else {
        deref_mapped(subs.drop_last(), hop).push(deref_hop_prepended(subs.last(), hop))
    }
}

/// Sub-types with a tuple field step prepended to each.
pub open spec fn tuplefield_mapped(subs: Seq<SubTypeV>, pos: int) -> Seq<SubTypeV>
    decreases subs.len(),
{
    if subs.len() == 0 {
        Seq::empty()
    } else {
        tuplefield_mapped(subs.drop_last(), pos).push(
            field_prepended(
                subs.last(),
                FieldV { num: pos as usize, name: None, owner: None },
            ),
        )
    }
}

/// Sub-types with the opaque-argument transform applied to each.
pub open spec fn arg_mapped(
    subs: Seq<SubTypeV>,
    owner: u64,
    kind: NominalKind,
    struct_lts: Seq<LifetimeName>,
) -> Seq<SubTypeV>
    decreases subs.len(),
{
    if subs.len() == 0 {
        Seq::empty()
    } else {
        arg_mapped(subs.drop_last(), owner, kind, struct_lts).push(
            arg_transformed(subs.last(), owner, kind, struct_lts),
        )
    }
}

/// Sub-types with the struct-field transform applied to each.
pub open spec fn fielddef_mapped(
    subs: Seq<SubTypeV>,
    pos: int,
    name: Option<Seq<char>>,
    owner: u64,
    struct_lts: Seq<LifetimeName>,
) -> Seq<SubTypeV>
    decreases subs.len(),
{
    if subs.len() == 0 {
        Seq::empty()
    } else {
        fielddef_mapped(subs.drop_last(), pos, name, owner, struct_lts).push(
            field_transformed(subs.last(), pos as usize, name, owner, struct_lts),
        )
    }
}

/// Appending one more sub-type to a vector appends its image.
pub proof fn lemma_subs_push(
    o0: Seq<ShortLivedType>,
    t: ShortLivedType,
    mid: Seq<SubTypeV>,
    tail: Seq<SubTypeV>,
)
    requires
        subs_v(o0) == mid + tail,
    ensures
        subs_v(o0.push(t)) == mid + tail.push(t@),
{
    assert(subs_v(o0).len() == o0.len());
    assert(subs_v(o0.push(t)).len() == o0.len() + 1);
    assert forall|j: int| 0 <= j < o0.len() + 1 implies subs_v(o0.push(t))[j] == (mid + tail.push(
        t@,
    ))[j] by {
        assert(subs_v(o0.push(t))[j] == o0.push(t)[j]@);
        if j < o0.len() {
            assert(o0.push(t)[j] == o0[j]);
            assert(subs_v(o0)[j] == o0[j]@);
            if j < mid.len() {
                assert((mid + tail)[j] == mid[j]);
                assert((mid + tail.push(t@))[j] == mid[j]);
            } else {
                assert((mid + tail)[j] == tail[j - mid.len()]);
                assert((mid + tail.push(t@))[j] == tail.push(t@)[j - mid.len()]);
                assert(tail.push(t@)[j - mid.len()] == tail[j - mid.len()]);
            }
        } else {
            assert(o0.push(t)[j] == t);
            assert((mid + tail.push(t@))[j] == tail.push(t@)[j - mid.len()]);
            assert(j - mid.len() == tail.len());
            assert(tail.push(t@)[tail.len() as int] == t@);
        }
    }
    assert(subs_v(o0.push(t)) =~~= mid + tail.push(t@));
}

/// The decomposition of a type expression into its reachable
/// sub-types, resolved against the bounds of the enclosing generics and
/// the crate context, with `visited` guarding repeated expansion.
pub open spec fn decompose_spec(
    t: TyV,
    bounds: Seq<(u64, BoundsV)>,
    ctx: CrateV,
    visited: Seq<u64>,
) -> Seq<SubTypeV>
    decreases unexpanded(ctx, visited), 0nat, t,
    via decompose_spec_dec
{
    match t {
        TyV::Ref { lifetime, is_mut, inner } => deref_mapped(
            decompose_spec(*inner, bounds, ctx, visited),
            HopV { names: seq![lifetime], is_mut, is_raw: false, is_refcell: false },
        ),
        TyV::RawPtr { is_mut, inner } => deref_mapped(
            decompose_spec(*inner, bounds, ctx, visited),
            HopV { names: Seq::empty(), is_mut, is_raw: true, is_refcell: false },
        ),
        TyV::Slice { inner } => decompose_spec(*inner, bounds, ctx, visited),
        TyV::Tuple { elems } => if elems.len() == 0 {
            seq![owned_subtype(None)]
        } else {
            decompose_tuple(elems, 0, bounds, ctx, visited)
        },
        TyV::Primitive => seq![owned_subtype(None)],
        TyV::SelfAlias { impl_id } => match find_impl_v(ctx.impls, impl_id) {
            Some(im) => if visited.contains(impl_id) {
                Seq::empty()
            } else {
                decompose_spec(im.self_ty, bounds + im.bounds, ctx, visited.push(impl_id))
            },
            None => Seq::empty(),
        },
        TyV::Named { def_id, kind, args } => if kind == NominalKind::Phantom {
            Seq::empty()
        } else {
            match find_bounds(bounds, def_id) {
                Some(b) => if !b.outlives.contains(LifetimeName::Static) {
                    seq![owned_subtype(Some(def_id)), generic_borrow_subtype(def_id, b.is_fn_like)]
                } else {
                    seq![owned_subtype(Some(def_id))]
                },
                None => {
                    let struct_lts = lt_args_of(args);
                    match find_struct_v(ctx.structs, def_id) {
                        Some(sd) => if !visited.contains(def_id) {
                            let maps = remappings_of(sd.generics, args);
                            seq![owned_subtype(Some(def_id))] + decompose_fields(
                                sd.fields,
                                0,
                                maps.0,
                                maps.1,
                                bounds + sd.bounds,
                                ctx,
                                visited.push(def_id),
                                struct_lts,
                                def_id,
                            )
                        } else {
                            seq![owned_subtype(Some(def_id))] + decompose_args(
                                args,
                                bounds,
                                ctx,
                                visited.push(def_id),
                                struct_lts,
                                def_id,
                                kind,
                            )
                        },
                        None => seq![owned_subtype(Some(def_id))] + decompose_args(
                            args,
                            bounds,
                            ctx,
                            visited.push(def_id),
                            struct_lts,
                            def_id,
                            kind,
                        ),
                    }
                },
            }
        },
        TyV::Unsupported => Seq::empty(),
    }
}

#[via_fn]
proof fn decompose_spec_dec(t: TyV, bounds: Seq<(u64, BoundsV)>, ctx: CrateV, visited: Seq<u64>) {
    match t {
        TyV::SelfAlias { impl_id } => {
            if find_impl_v(ctx.impls, impl_id) is Some && !visited.contains(impl_id) {
                lemma_impl_id_in_table(ctx, impl_id);
                lemma_count_strict(table_ids(ctx), visited, impl_id);
            }
        },
        TyV::Named { def_id, kind, args } => {
            lemma_count_mono(table_ids(ctx), visited, def_id);
            if find_struct_v(ctx.structs, def_id) is Some && !visited.contains(def_id) {
                lemma_struct_id_in_table(ctx, def_id);
                lemma_count_strict(table_ids(ctx), visited, def_id);
            }
        },
        _ => {},
    }
}

/// The decomposition of tuple elements starting at position `pos`,
/// each element's sub-types reached through its field index.
pub open spec fn decompose_tuple(
    elems: Seq<TyV>,
    pos: int,
    bounds: Seq<(u64, BoundsV)>,
    ctx: CrateV,
    visited: Seq<u64>,
) -> Seq<SubTypeV>
    decreases unexpanded(ctx, visited), 0nat, elems,
{
    if elems.len() == 0 {
        Seq::empty()
    } else {
        tuplefield_mapped(decompose_spec(elems[0], bounds, ctx, visited), pos)
            + decompose_tuple(elems.subrange(1, elems.len() as int), pos + 1, bounds, ctx, visited)
    }
}

/// The decomposition of an opaque nominal type's arguments: field
/// layout is unknown, so each type argument is walked and its
/// sub-types are reached through a conventional field step.
pub open spec fn decompose_args(
    args: Seq<ArgV>,
    bounds: Seq<(u64, BoundsV)>,
    ctx: CrateV,
    visited: Seq<u64>,
    struct_lts: Seq<LifetimeName>,
    owner: u64,
    kind: NominalKind,
) -> Seq<SubTypeV>
    decreases unexpanded(ctx, visited), 0nat, args,
{
    if args.len() == 0 {
        Seq::empty()
    } else {
        (match args[0] {
            ArgV::Lt(_) => Seq::empty(),
            ArgV::Ty(t) => arg_mapped(
                decompose_spec(t, bounds, ctx, visited),
                owner,
                kind,
                struct_lts,
            ),
        }) + decompose_args(
            args.subrange(1, args.len() as int),
            bounds,
            ctx,
            visited,
            struct_lts,
            owner,
            kind,
        )
    }
}

/// The decomposition of a local struct's fields from position `pos`
/// on, with the formal-to-actual maps applied to each field type
/// before walking it.
pub open spec fn decompose_fields(
    fields: Seq<crate::types::FieldDefV>,
    pos: int,
    ltm: Seq<(LifetimeName, LifetimeName)>,
    tym: Seq<(u64, TyV)>,
    bounds: Seq<(u64, BoundsV)>,
    ctx: CrateV,
    visited: Seq<u64>,
    struct_lts: Seq<LifetimeName>,
    owner: u64,
) -> Seq<SubTypeV>
    decreases unexpanded(ctx, visited), 1nat, fields,
{
    if fields.len() == 0 {
        Seq::empty()
    } else {
        fielddef_mapped(
            decompose_spec(subst_v(fields[0].ty, ltm, tym), bounds, ctx, visited),
            pos,
            fields[0].name,
            owner,
            struct_lts,
        ) + decompose_fields(
            fields.subrange(1, fields.len() as int),
            pos + 1,
            ltm,
            tym,
            bounds,
            ctx,
            visited,
            struct_lts,
            owner,
        )
    }
}

/// The image of a type-replacement table.
pub open spec fn tym_v(m: Seq<(u64, TypeExpr)>) -> Seq<(u64, TyV)>
    decreases m,
{
    if m.len() == 0 {
        Seq::empty()
    } else {
        tym_v(m.drop_last()).push((m.last().0, ty_v(m.last().1)))
    }
}

/// `tym_v` read off element by element.
pub proof fn lemma_tym_v_index(m: Seq<(u64, TypeExpr)>)
    ensures
        tym_v(m).len() == m.len(),
        forall|i: int| 0 <= i < m.len() ==> #[trigger] tym_v(m)[i] == (m[i].0, ty_v(m[i].1)),
    decreases m,
{
    if m.len() > 0 {
        lemma_tym_v_index(m.drop_last());
        assert forall|i: int| 0 <= i < m.len() implies #[trigger] tym_v(m)[i] == (
            m[i].0,
            ty_v(m[i].1),
        ) by {
            if i < m.len() - 1 {
                assert(m.drop_last()[i] == m[i]);
            }
        }
    }
}

/// Clones a type expression; the copy has the same image.
pub fn clone_ty(t: &TypeExpr) -> (r: TypeExpr)
    ensures
        ty_v(r) == ty_v(*t),
    decreases *t,
{
    match t {
        TypeExpr::Ref { lifetime, is_mut, inner } => TypeExpr::Ref {
            lifetime: *lifetime,
            is_mut: *is_mut,
            inner: Box::new(clone_ty(inner)),
        },
        TypeExpr::RawPtr { is_mut, inner } => TypeExpr::RawPtr {
            is_mut: *is_mut,
            inner: Box::new(clone_ty(inner)),
        },
        TypeExpr::Slice { inner } => TypeExpr::Slice { inner: Box::new(clone_ty(inner)) },
        TypeExpr::Tuple { elems } => TypeExpr::Tuple { elems: clone_tylist(elems) },
        TypeExpr::Primitive => TypeExpr::Primitive,
        TypeExpr::Named { def_id, kind, args } => TypeExpr::Named {
            def_id: *def_id,
            kind: *kind,
            args: clone_arglist(args),
        },
        TypeExpr::SelfAlias { impl_id } => TypeExpr::SelfAlias { impl_id: *impl_id },
        TypeExpr::Unsupported => TypeExpr::Unsupported,
    }
}

/// Clones a type list; the copy has the same image.
pub fn clone_tylist(l: &TypeList) -> (r: TypeList)
    ensures
        tylist_v(r) == tylist_v(*l),
    decreases *l,
{
    match l {
        TypeList::Nil => TypeList::Nil,
        TypeList::Cons(h, t) => TypeList::Cons(Box::new(clone_ty(h)), Box::new(clone_tylist(t))),
    }
}

/// Clones an argument list; the copy has the same image.
pub fn clone_arglist(l: &ArgList) -> (r: ArgList)
    ensures
        arglist_v(r) == arglist_v(*l),
    decreases *l,
{
    match l {
        ArgList::Nil => ArgList::Nil,
        ArgList::LtCons(lt, t) => ArgList::LtCons(*lt, Box::new(clone_arglist(t))),
        ArgList::TyCons(h, t) => ArgList::TyCons(
            Box::new(clone_ty(h)),
            Box::new(clone_arglist(t)),
        ),
    }
}

/// Looks up the replacement for a generic type parameter, cloning it.
fn lookup_replacement(tym: &Vec<(u64, TypeExpr)>, id: u64) -> (r: Option<TypeExpr>)
    ensures
        match r {
            Some(t) => find_ty(tym_v(tym@), id) == Some(ty_v(t)),
            None => find_ty(tym_v(tym@), id) is None,
        },
{
    proof {
        lemma_tym_v_index(tym@);
    }
    let ghost tv = tym_v(tym@);
    let n = tym.len();
    assert(tv.subrange(0, n as int) =~= tv);
    for i in 0..n
        invariant
            n == tym@.len(),
            tv == tym_v(tym@),
            tv.len() == n,
            forall|j: int| 0 <= j < n ==> #[trigger] tv[j] == (tym@[j].0, ty_v(tym@[j].1)),
            find_ty(tv.subrange(i as int, n as int), id) == find_ty(tv, id),
    {
        assert(tv.subrange(i as int, n as int)[0] == tv[i as int]);
        if tym[i].0 == id {
            return Some(clone_ty(&tym[i].1));
        }
        assert(tv.subrange(i as int, n as int).subrange(1, (n - i) as int)
            =~= tv.subrange(i + 1, n as int));
    }
    assert(tv.subrange(n as int, n as int).len() == 0);
    None
}

/// Applies a lifetime and a type substitution to a type expression.
pub fn subst_ty(
    t: &TypeExpr,
    ltm: &Vec<(LifetimeName, LifetimeName)>,
    tym: &Vec<(u64, TypeExpr)>,
) -> (r: TypeExpr)
    ensures
        ty_v(r) == subst_v(ty_v(*t), ltm@, tym_v(tym@)),
    decreases *t,
{
    match t {
        TypeExpr::Ref { lifetime, is_mut, inner } => TypeExpr::Ref {
            lifetime: crate::lifetimes::apply_remap(*lifetime, ltm),
            is_mut: *is_mut,
            inner: Box::new(subst_ty(inner, ltm, tym)),
        },
        TypeExpr::RawPtr { is_mut, inner } => TypeExpr::RawPtr {
            is_mut: *is_mut,
            inner: Box::new(subst_ty(inner, ltm, tym)),
        },
        TypeExpr::Slice { inner } => TypeExpr::Slice { inner: Box::new(subst_ty(inner, ltm, tym)) },
        TypeExpr::Tuple { elems } => TypeExpr::Tuple { elems: subst_tylist(elems, ltm, tym) },
        TypeExpr::Primitive => TypeExpr::Primitive,
        TypeExpr::Named { def_id, kind, args } => match lookup_replacement(tym, *def_id) {
            Some(rep) => rep,
            None => TypeExpr::Named {
                def_id: *def_id,
                kind: *kind,
                args: subst_arglist(args, ltm, tym),
            },
        },
        TypeExpr::SelfAlias { impl_id } => TypeExpr::SelfAlias { impl_id: *impl_id },
        TypeExpr::Unsupported => TypeExpr::Unsupported,
    }
}

/// Applies a substitution to every element of a type list.
fn subst_tylist(
    l: &TypeList,
    ltm: &Vec<(LifetimeName, LifetimeName)>,
    tym: &Vec<(u64, TypeExpr)>,
) -> (r: TypeList)
    ensures
        tylist_v(r) == subst_list_v(tylist_v(*l), ltm@, tym_v(tym@)),
    decreases *l,
{
    match l {
        TypeList::Nil => {
            assert(subst_list_v(tylist_v(*l), ltm@, tym_v(tym@)) =~= Seq::<TyV>::empty());
            TypeList::Nil
        },
        TypeList::Cons(h, tail) => {
            let r = TypeList::Cons(
                Box::new(subst_ty(h, ltm, tym)),
                Box::new(subst_tylist(tail, ltm, tym)),
            );
            proof {
                let lv = tylist_v(*l);
                assert(lv[0] == ty_v(**h));
                assert(lv.subrange(1, lv.len() as int) =~= tylist_v(**tail));
                assert(tylist_v(r) =~= subst_list_v(lv, ltm@, tym_v(tym@)));
            }
            r
        },
    }
}

/// Applies a substitution to every element of an argument list.
fn subst_arglist(
    l: &ArgList,
    ltm: &Vec<(LifetimeName, LifetimeName)>,
    tym: &Vec<(u64, TypeExpr)>,
) -> (r: ArgList)
    ensures
        arglist_v(r) == subst_args_v(arglist_v(*l), ltm@, tym_v(tym@)),
    decreases *l,
{
    match l {
        ArgList::Nil => {
            assert(subst_args_v(arglist_v(*l), ltm@, tym_v(tym@)) =~= Seq::<ArgV>::empty());
            ArgList::Nil
        },
        ArgList::LtCons(lt, tail) => {
            let r = ArgList::LtCons(
                crate::lifetimes::apply_remap(*lt, ltm),
                Box::new(subst_arglist(tail, ltm, tym)),
            );
            proof {
                let lv = arglist_v(*l);
                assert(lv.subrange(1, lv.len() as int) =~= arglist_v(**tail));
                assert(arglist_v(r) =~= subst_args_v(lv, ltm@, tym_v(tym@)));
            }
            r
        },
        ArgList::TyCons(h, tail) => {
            let r = ArgList::TyCons(
                Box::new(subst_ty(h, ltm, tym)),
                Box::new(subst_arglist(tail, ltm, tym)),
            );
            proof {
                let lv = arglist_v(*l);
                assert(lv.subrange(1, lv.len() as int) =~= arglist_v(**tail));
                assert(arglist_v(r) =~= subst_args_v(lv, ltm@, tym_v(tym@)));
            }
            r
        },
    }
}

/// The view of a sub-type vector, element by element.
pub open spec fn subs_v(v: Seq<ShortLivedType>) -> Seq<SubTypeV> {
    v.map_values(|s: ShortLivedType| s@)
}

/// Clones a vector of definition identities.
pub fn clone_u64_vec(v: &Vec<u64>) -> (r: Vec<u64>)
    ensures
        r@ == v@,
{
    let mut out: Vec<u64> = Vec::new();
    let n = v.len();
    for i in 0..n
        invariant
            n == v@.len(),
            out@ == v@.subrange(0, i as int),
    {
        out.push(v[i]);
        assert(out@ =~= v@.subrange(0, i + 1 as int));
    }
    assert(out@ =~= v@);
    out
}

/// Whether the visited list holds the identity.
fn ids_contain(v: &Vec<u64>, x: u64) -> (r: bool)
    ensures
        r == v@.contains(x),
{
    let n = v.len();
    for i in 0..n
        invariant
            n == v@.len(),
            forall|j: int| 0 <= j < i ==> v@[j] != x,
    {
        if v[i] == x {
            return true;
        }
    }
    false
}

/// Clones an optional field name.
fn clone_opt_name(n: &Option<String>) -> (r: Option<String>)
    ensures
        crate::types::name_v(r) == crate::types::name_v(*n),
{
    match n {
        Some(s) => Some(s.clone()),
        None => None,
    }
}

/// Clones a projection vector, preserving the view of every element.
pub fn clone_proj_vec(v: &Vec<MyProjection>) -> (r: Vec<MyProjection>)
    ensures
        r@.len() == v@.len(),
        forall|j: int| 0 <= j < v@.len() ==> #[trigger] r@[j]@ == v@[j]@,
        r@.map_values(|p: MyProjection| p@) == v@.map_values(|p: MyProjection| p@),
{
    let mut out: Vec<MyProjection> = Vec::new();
    let n = v.len();
    for i in 0..n
        invariant
            n == v@.len(),
            out@.len() == i,
            forall|j: int| 0 <= j < i ==> #[trigger] out@[j]@ == v@[j]@,
    {
        let p = match &v[i] {
            MyProjection::MyDeref => MyProjection::MyDeref,
            MyProjection::MyField(f) => MyProjection::MyField(
                FieldInfo {
                    field_num: f.field_num,
                    field_name: clone_opt_name(&f.field_name),
                    struct_def_id: f.struct_def_id,
                },
            ),
        };
        out.push(p);
    }
    assert(out@.map_values(|p: MyProjection| p@) =~= v@.map_values(|p: MyProjection| p@));
    out
}

/// Clones a sub-type, preserving its image.
pub fn clone_subtype(s: &ShortLivedType) -> (r: ShortLivedType)
    ensures
        r@ == s@,
{
    let r = ShortLivedType {
        def_id: s.def_id,
        lifetimes: crate::lifetimes::clone_hop_vec(&s.lifetimes),
        projection: clone_proj_vec(&s.projection),
        in_struct: s.in_struct,
        is_closure: s.is_closure,
    };
    assert(r@.hops =~= s@.hops);
    assert(r@.proj =~= s@.proj);
    r
}

/// The hop an interior-mutability cell contributes.
fn refcell_hop_exec() -> (r: MyLifetime)
    ensures
        r@ == refcell_hop(),
{
    let r = MyLifetime { names: Vec::new(), is_mut: false, is_raw: false, is_refcell: true };
    assert(r@.names =~= refcell_hop().names);
    r
}

/// Applies lifetime inheritance to a sub-type: when the owner carries
/// lifetime arguments, the first real hop receives them if it is an
/// untagged raw pointer.
fn inherit_exec(s: ShortLivedType, struct_lts: &Vec<LifetimeName>) -> (r: ShortLivedType)
    ensures
        r@ == lts_inherited(s@, struct_lts@),
{
    if struct_lts.len() == 0 {
        return s;
    }
    let ghost s0 = s;
    let ghost hv = s@.hops;
    let n = s.lifetimes.len();
    let mut j: usize = 0;
    while j < n
        invariant
            s == s0,
            n == s.lifetimes@.len(),
            hv == s@.hops,
            hv.len() == n,
            j <= n,
            struct_lts@.len() > 0,
            first_real_outer_idx(hv, 0) == first_real_outer_idx(hv, j as int),
        decreases n - j,
    {
        if !s.lifetimes[j].is_refcell {
            assert(first_real_outer_idx(hv, j as int) == Some(j as int));
            if s.lifetimes[j].is_raw && s.lifetimes[j].names.len() == 0 {
                let newhop = MyLifetime {
                    names: crate::lifetimes::clone_lifetime_vec(struct_lts),
                    is_mut: s.lifetimes[j].is_mut,
                    is_raw: s.lifetimes[j].is_raw,
                    is_refcell: s.lifetimes[j].is_refcell,
                };
                let mut s2 = s;
                s2.lifetimes.set(j, newhop);
                proof {
                    assert(s2@.hops =~= hv.update(
                        j as int,
                        HopV {
                            names: struct_lts@,
                            is_mut: hv[j as int].is_mut,
                            is_raw: hv[j as int].is_raw,
                            is_refcell: hv[j as int].is_refcell,
                        },
                    ));
                    assert(s2@.proj =~= s0@.proj);
                }
                return s2;
            } else {
                return s;
            }
        }
        j = j + 1;
    }
    assert(first_real_outer_idx(hv, n as int) is None);
    s
}

/// A sub-type one level of indirection further in.
fn with_deref(sub: &ShortLivedType, hop: &MyLifetime) -> (r: ShortLivedType)
    ensures
        r@ == deref_hop_prepended(sub@, hop@),
{
    let mut t = clone_subtype(sub);
    t.lifetimes.insert(0, hop.clone_hop());
    t.projection.insert(0, MyProjection::MyDeref);
    assert(t@.hops =~= seq![hop@] + sub@.hops);
    assert(t@.proj =~= seq![ProjV::Deref] + sub@.proj);
    t
}

/// A sub-type reached through one more field selection.
fn with_field(
    sub: &ShortLivedType,
    num: usize,
    name: &Option<String>,
    owner: Option<u64>,
) -> (r: ShortLivedType)
    ensures
        r@ == field_prepended(
            sub@,
            FieldV { num, name: crate::types::name_v(*name), owner },
        ),
{
    let mut t = clone_subtype(sub);
    t.projection.insert(
        0,
        MyProjection::MyField(
            FieldInfo { field_num: num, field_name: clone_opt_name(name), struct_def_id: owner },
        ),
    );
    assert(t@.hops =~= sub@.hops);
    assert(t@.proj =~= seq![
        ProjV::Field(FieldV { num, name: crate::types::name_v(*name), owner }),
    ] + sub@.proj);
    t
}

/// The transform for sub-types found inside an opaque nominal type's
/// type argument.
fn with_arg_transform(
    sub: &ShortLivedType,
    owner: u64,
    kind: NominalKind,
    struct_lts: &Vec<LifetimeName>,
) -> (r: ShortLivedType)
    ensures
        r@ == arg_transformed(sub@, owner, kind, struct_lts@),
{
    let mut t = with_field(sub, 0, &None, Some(owner));
    let ghost with_f = t@;
    if kind == NominalKind::RefCellLike {
        t.lifetimes.insert(0, refcell_hop_exec());
        assert(t@.hops =~= seq![refcell_hop()] + with_f.hops);
        assert(t@.proj =~= with_f.proj);
    }
    inherit_exec(t, struct_lts)
}

/// The transform for sub-types found inside a struct field.
fn with_fielddef_transform(
    sub: &ShortLivedType,
    num: usize,
    name: &Option<String>,
    owner: u64,
    struct_lts: &Vec<LifetimeName>,
) -> (r: ShortLivedType)
    ensures
        r@ == field_transformed(sub@, num, crate::types::name_v(*name), owner, struct_lts@),
{
    let mut t = with_field(sub, num, name, Some(owner));
    t.in_struct = true;
    assert(t@ == in_struct_marked(field_prepended(
        sub@,
        FieldV { num, name: crate::types::name_v(*name), owner: Some(owner) },
    )));
    inherit_exec(t, struct_lts)
}

/// Finds the index of a struct definition in the crate context.
fn find_struct_idx(ctx: &CrateModel, id: u64) -> (r: Option<usize>)
    ensures
        match r {
            Some(i) => i < ctx.structs@.len() && find_struct_v(crate_v(*ctx).structs, id)
                == Some(crate::types::struct_v(ctx.structs@[i as int]))
                && ctx.structs@[i as int].def_id == id,
            None => find_struct_v(crate_v(*ctx).structs, id) is None,
        },
{
    let ghost sv = crate_v(*ctx).structs;
    proof {
        crate::types::lemma_structs_v_index(ctx.structs@);
    }
    let n = ctx.structs.len();
    assert(sv.subrange(0, n as int) =~= sv);
    for i in 0..n
        invariant
            n == ctx.structs@.len(),
            sv == crate_v(*ctx).structs,
            sv.len() == n,
            forall|j: int|
                0 <= j < n ==> #[trigger] sv[j] == crate::types::struct_v(ctx.structs@[j]),
            find_struct_v(sv.subrange(i as int, n as int), id) == find_struct_v(sv, id),
    {
        assert(sv.subrange(i as int, n as int)[0] == sv[i as int]);
        if ctx.structs[i].def_id == id {
            return Some(i);
        }
        assert(sv.subrange(i as int, n as int).subrange(1, (n - i) as int)
            =~= sv.subrange(i + 1, n as int));
    }
    assert(sv.subrange(n as int, n as int).len() == 0);
    None
}

/// Finds the index of an impl block in the crate context.
fn find_impl_idx(ctx: &CrateModel, id: u64) -> (r: Option<usize>)
    ensures
        match r {
            Some(i) => i < ctx.impls@.len() && find_impl_v(crate_v(*ctx).impls, id)
                == Some(crate::types::impl_v(ctx.impls@[i as int]))
                && ctx.impls@[i as int].impl_id == id,
            None => find_impl_v(crate_v(*ctx).impls, id) is None,
        },
{
    let ghost iv = crate_v(*ctx).impls;
    proof {
        crate::types::lemma_impls_v_index(ctx.impls@);
    }
    let n = ctx.impls.len();
    assert(iv.subrange(0, n as int) =~= iv);
    for i in 0..n
        invariant
            n == ctx.impls@.len(),
            iv == crate_v(*ctx).impls,
            iv.len() == n,
            forall|j: int| 0 <= j < n ==> #[trigger] iv[j] == crate::types::impl_v(ctx.impls@[j]),
            find_impl_v(iv.subrange(i as int, n as int), id) == find_impl_v(iv, id),
    {
        assert(iv.subrange(i as int, n as int)[0] == iv[i as int]);
        if ctx.impls[i].impl_id == id {
            return Some(i);
        }
        assert(iv.subrange(i as int, n as int).subrange(1, (n - i) as int)
            =~= iv.subrange(i + 1, n as int));
    }
    assert(iv.subrange(n as int, n as int).len() == 0);
    None
}

/// Merges two bounds tables; entries of the first shadow entries of
/// the second.
fn merge_bounds(
    a: &Vec<(u64, BoundsInfo)>,
    b: &Vec<(u64, BoundsInfo)>,
) -> (r: Vec<(u64, BoundsInfo)>)
    ensures
        bmap_v(r@) == bmap_v(a@) + bmap_v(b@),
{
    proof {
        crate::types::lemma_bmap_v_index(a@);
        crate::types::lemma_bmap_v_index(b@);
    }
    let mut out: Vec<(u64, BoundsInfo)> = Vec::new();
    let na = a.len();
    for i in 0..na
        invariant
            na == a@.len(),
            out@.len() == i,
            forall|j: int|
                0 <= j < i ==> ((#[trigger] out@[j]).0 == a@[j].0 && crate::types::bounds_v(
                    out@[j].1,
                ) == crate::types::bounds_v(a@[j].1)),
    {
        let entry = (
            a[i].0,
            BoundsInfo {
                outlives: crate::lifetimes::clone_lifetime_vec(&a[i].1.outlives),
                is_fn_like: a[i].1.is_fn_like,
            },
        );
        out.push(entry);
    }
    let nb = b.len();
    for i in 0..nb
        invariant
            na == a@.len(),
            nb == b@.len(),
            out@.len() == na + i,
            forall|j: int|
                0 <= j < na ==> ((#[trigger] out@[j]).0 == a@[j].0 && crate::types::bounds_v(
                    out@[j].1,
                ) == crate::types::bounds_v(a@[j].1)),
            forall|j: int|
                na <= j < na + i ==> ((#[trigger] out@[j]).0 == b@[j - na].0
                    && crate::types::bounds_v(out@[j].1) == crate::types::bounds_v(b@[j - na].1)),
    {
        let entry = (
            b[i].0,
            BoundsInfo {
                outlives: crate::lifetimes::clone_lifetime_vec(&b[i].1.outlives),
                is_fn_like: b[i].1.is_fn_like,
            },
        );
        out.push(entry);
    }
    proof {
        crate::types::lemma_bmap_v_index(out@);
        crate::types::lemma_bmap_v_index(a@);
        crate::types::lemma_bmap_v_index(b@);
        assert(bmap_v(out@) =~= bmap_v(a@) + bmap_v(b@));
    }
    out
}

/// The lifetimes every instantiation of the generic parameter must
/// outlive, from the bounds table.
pub fn get_trait_lifetime_bounds(
    def_id: u64,
    trait_bounds: &Vec<(u64, BoundsInfo)>,
) -> (r: Vec<LifetimeName>)
    ensures
        r@ == (match find_bounds(bmap_v(trait_bounds@), def_id) {
            Some(b) => b.outlives,
            None => Seq::<LifetimeName>::empty(),
        }),
{
    match crate::types::lookup_bounds(trait_bounds, def_id) {
        Some(i) => crate::lifetimes::clone_lifetime_vec(&trait_bounds[i].1.outlives),
        None => {
            let r: Vec<LifetimeName> = Vec::new();
            assert(r@ =~= Seq::<LifetimeName>::empty());
            r
        },
    }
}

/// Whether the generic parameter is bounded by a function-like trait,
/// so that a sub-type standing for it is marked as a closure.
pub fn check_if_closure(bounds: &BoundsInfo) -> (r: bool)
    ensures
        r == bounds.is_fn_like,
{
    bounds.is_fn_like
}

/// The lifetime arguments of an angle-bracket argument list, in order.
fn collect_lt_args(l: &ArgList) -> (r: Vec<LifetimeName>)
    ensures
        r@ == lt_args_of(arglist_v(*l)),
    decreases *l,
{
    match l {
        ArgList::Nil => {
            let r: Vec<LifetimeName> = Vec::new();
            assert(r@ =~= lt_args_of(arglist_v(*l)));
            r
        },
        ArgList::LtCons(lt, tail) => {
            let mut rest = collect_lt_args(tail);
            rest.insert(0, *lt);
            proof {
                let lv = arglist_v(*l);
                assert(lv.subrange(1, lv.len() as int) =~= arglist_v(**tail));
                assert(rest@ =~= lt_args_of(lv));
            }
            rest
        },
        ArgList::TyCons(_, tail) => {
            let rest = collect_lt_args(tail);
            proof {
                let lv = arglist_v(*l);
                assert(lv.subrange(1, lv.len() as int) =~= arglist_v(**tail));
                assert(rest@ =~= lt_args_of(lv));
            }
            rest
        },
    }
}

/// Borrows the elements of a type list in order.
fn tylist_refs<'x>(l: &'x TypeList) -> (r: Vec<&'x TypeExpr>)
    ensures
        r@.len() == tylist_v(*l).len(),
        forall|i: int| 0 <= i < r@.len() ==> ty_v(*#[trigger] r@[i]) == tylist_v(*l)[i],
{
    let mut out: Vec<&TypeExpr> = Vec::new();
    let mut cur = l;
    loop
        invariant
            out@.len() + tylist_v(*cur).len() == tylist_v(*l).len(),
            forall|i: int| 0 <= i < out@.len() ==> ty_v(*#[trigger] out@[i]) == tylist_v(*l)[i],
            forall|i: int|
                0 <= i < tylist_v(*cur).len() ==> tylist_v(*cur)[i] == tylist_v(*l)[out@.len()
                    + i],
        decreases tylist_v(*cur).len(),
    {
        match cur {
            TypeList::Nil => {
                return out;
            },
            TypeList::Cons(h, t) => {
                proof {
                    assert(tylist_v(*cur)[0] == ty_v(**h));
                    assert(tylist_v(*cur).subrange(1, tylist_v(*cur).len() as int)
                        =~= tylist_v(**t));
                }
                out.push(&**h);
                cur = &**t;
            },
        }
    }
}

/// An angle-bracket argument borrowed from an argument list.
enum ArgRef<'x> {
    Lt(LifetimeName),
    Ty(&'x TypeExpr),
}

/// The image of a borrowed argument.
spec fn argref_v(a: ArgRef<'_>) -> ArgV {
    match a {
        ArgRef::Lt(lt) => ArgV::Lt(lt),
        ArgRef::Ty(t) => ArgV::Ty(ty_v(*t)),
    }
}

/// Borrows the elements of an argument list in order.
fn arglist_refs<'x>(l: &'x ArgList) -> (r: Vec<ArgRef<'x>>)
    ensures
        r@.len() == arglist_v(*l).len(),
        forall|i: int| 0 <= i < r@.len() ==> argref_v(#[trigger] r@[i]) == arglist_v(*l)[i],
{
    let mut out: Vec<ArgRef> = Vec::new();
    let mut cur = l;
    loop
        invariant
            out@.len() + arglist_v(*cur).len() == arglist_v(*l).len(),
            forall|i: int|
                0 <= i < out@.len() ==> argref_v(#[trigger] out@[i]) == arglist_v(*l)[i],
            forall|i: int|
                0 <= i < arglist_v(*cur).len() ==> arglist_v(*cur)[i] == arglist_v(*l)[out@.len()
                    + i],
        decreases arglist_v(*cur).len(),
    {
        match cur {
            ArgList::Nil => {
                return out;
            },
            ArgList::LtCons(lt, t) => {
                proof {
                    assert(arglist_v(*cur).subrange(1, arglist_v(*cur).len() as int)
                        =~= arglist_v(**t));
                }
                out.push(ArgRef::Lt(*lt));
                cur = &**t;
            },
            ArgList::TyCons(h, t) => {
                proof {
                    assert(arglist_v(*cur)[0] == ArgV::Ty(ty_v(**h)));
                    assert(arglist_v(*cur).subrange(1, arglist_v(*cur).len() as int)
                        =~= arglist_v(**t));
                }
                out.push(ArgRef::Ty(&**h));
                cur = &**t;
            },
        }
    }
}

/// Builds the formal-to-actual maps, walking formals and actuals
/// together from position `i`.
fn gen_remaps_rec(
    formals: &Vec<GenericParamDef>,
    i: usize,
    l: &ArgList,
) -> (r: Option<(Vec<(LifetimeName, LifetimeName)>, Vec<(u64, TypeExpr)>)>)
    requires
        i <= formals@.len(),
    ensures
        match r {
            Some(m) => arglist_v(*l).len() == formals@.len() - i && remappings_scan(
                formals@.subrange(i as int, formals@.len() as int),
                arglist_v(*l),
            ) == Some((m.0@, tym_v(m.1@))),
            None => arglist_v(*l).len() != formals@.len() - i || remappings_scan(
                formals@.subrange(i as int, formals@.len() as int),
                arglist_v(*l),
            ) is None,
        },
    decreases *l,
{
    let ghost fsuf = formals@.subrange(i as int, formals@.len() as int);
    match l {
        ArgList::Nil => {
            if i == formals.len() {
                let m: (Vec<(LifetimeName, LifetimeName)>, Vec<(u64, TypeExpr)>) = (
                    Vec::new(),
                    Vec::new(),
                );
                proof {
                    assert(fsuf.len() == 0);
                    assert(m.0@ =~= Seq::<(LifetimeName, LifetimeName)>::empty());
                    assert(tym_v(m.1@) =~= Seq::<(u64, TyV)>::empty());
                }
                Some(m)
            } else {
                None
            }
        },
        ArgList::LtCons(lt, tail) => {
            if i == formals.len() {
                return None;
            }
            let ghost av = arglist_v(*l);
            proof {
                assert(av.subrange(1, av.len() as int) =~= arglist_v(**tail));
                assert(fsuf.subrange(1, fsuf.len() as int) =~= formals@.subrange(
                    i + 1 as int,
                    formals@.len() as int,
                ));
            }
            match formals[i] {
                GenericParamDef::Lifetime(id) => {
                    match gen_remaps_rec(formals, i + 1, tail) {
                        Some(m) => {
                            let (mut ltm, tym) = m;
                            let ghost lt0 = ltm@;
                            ltm.insert(0, (LifetimeName::Param(id), *lt));
                            proof {
                                assert(ltm@ =~= seq![(LifetimeName::Param(id), *lt)] + lt0);
                            }
                            Some((ltm, tym))
                        },
                        None => None,
                    }
                },
                GenericParamDef::Type(_) => None,
            }
        },
        ArgList::TyCons(h, tail) => {
            if i == formals.len() {
                return None;
            }
            let ghost av = arglist_v(*l);
            proof {
                assert(av[0] == ArgV::Ty(ty_v(**h)));
                assert(av.subrange(1, av.len() as int) =~= arglist_v(**tail));
                assert(fsuf.subrange(1, fsuf.len() as int) =~= formals@.subrange(
                    i + 1 as int,
                    formals@.len() as int,
                ));
            }
            match formals[i] {
                GenericParamDef::Type(id) => {
                    match gen_remaps_rec(formals, i + 1, tail) {
                        Some(m) => {
                            let (ltm, mut tym) = m;
                            let ghost ty0 = tym@;
                            tym.insert(0, (id, clone_ty(h)));
                            proof {
                                lemma_tym_v_index(ty0);
                                lemma_tym_v_index(tym@);
                                assert(tym_v(tym@) =~= seq![(id, ty_v(**h))] + tym_v(ty0));
                            }
                            Some((ltm, tym))
                        },
                        None => None,
                    }
                },
                GenericParamDef::Lifetime(_) => None,
            }
        },
    }
}

/// Builds the formal-to-actual lifetime and type maps for a nominal
/// type's angle-bracket arguments; a broken pairing yields empty maps.
pub fn generate_remappings(
    formals: &Vec<GenericParamDef>,
    actuals: &ArgList,
) -> (r: (Vec<(LifetimeName, LifetimeName)>, Vec<(u64, TypeExpr)>))
    ensures
        ({
            let m = remappings_of(formals@, arglist_v(*actuals));
            r.0@ == m.0 && tym_v(r.1@) == m.1
        }),
{
    assert(formals@.subrange(0, formals@.len() as int) =~= formals@);
    match gen_remaps_rec(formals, 0, actuals) {
        Some(m) => m,
        None => {
            let m: (Vec<(LifetimeName, LifetimeName)>, Vec<(u64, TypeExpr)>) = (
                Vec::new(),
                Vec::new(),
            );
            proof {
                assert(m.0@ =~= Seq::<(LifetimeName, LifetimeName)>::empty());
                assert(tym_v(m.1@) =~= Seq::<(u64, TyV)>::empty());
            }
            m
        },
    }
}

/// The sub-type that owns its data outright.
fn owned_subtype_exec(def_id: Option<u64>) -> (r: ShortLivedType)
    ensures
        r@ == owned_subtype(def_id),
{
    let r = ShortLivedType {
        def_id,
        lifetimes: Vec::new(),
        projection: Vec::new(),
        in_struct: false,
        is_closure: false,
    };
    assert(r@.hops =~~= owned_subtype(def_id).hops);
    assert(r@.proj =~~= owned_subtype(def_id).proj);
    r
}

/// The synthetic sub-type for a generic parameter that might itself be
/// a borrow.
fn generic_borrow_exec(def_id: u64, is_closure: bool) -> (r: ShortLivedType)
    ensures
        r@ == generic_borrow_subtype(def_id, is_closure),
{
    let mut names: Vec<LifetimeName> = Vec::new();
    names.push(LifetimeName::Param(def_id));
    let mut hops: Vec<MyLifetime> = Vec::new();
    hops.push(MyLifetime { names, is_mut: false, is_raw: false, is_refcell: false });
    let mut proj: Vec<MyProjection> = Vec::new();
    proj.push(MyProjection::MyDeref);
    let r = ShortLivedType {
        def_id: None,
        lifetimes: hops,
        projection: proj,
        in_struct: false,
        is_closure,
    };
    assert(r@.hops =~~= generic_borrow_subtype(def_id, is_closure).hops);
    assert(r@.proj =~~= generic_borrow_subtype(def_id, is_closure).proj);
    r
}

/// Appends the sub-types with a dereference hop prepended to each.
fn push_deref_mapped(out: &mut Vec<ShortLivedType>, subs: &Vec<ShortLivedType>, hop: &MyLifetime)
    ensures
        subs_v(final(out)@) == subs_v(old(out)@) + deref_mapped(subs_v(subs@), hop@),
{
    let ghost base = subs_v(out@);
    let ghost sv = subs_v(subs@);
    let n = subs.len();
    proof {
        assert(sv.subrange(0, 0) =~~= Seq::<SubTypeV>::empty());
        assert(subs_v(out@) =~~= base + deref_mapped(sv.subrange(0, 0), hop@));
    }
    for i in 0..n
        invariant
            n == subs@.len(),
            sv == subs_v(subs@),
            sv.len() == n,
            forall|j: int| 0 <= j < n ==> #[trigger] sv[j] == subs@[j]@,
            subs_v(out@) == base + deref_mapped(sv.subrange(0, i as int), hop@),
    {
        let t = with_deref(&subs[i], hop);
        let ghost o0 = out@;
        out.push(t);
        proof {
            lemma_subs_push(o0, t, base, deref_mapped(sv.subrange(0, i as int), hop@));
            assert(sv.subrange(0, i + 1 as int).drop_last() =~~= sv.subrange(0, i as int));
            assert(sv.subrange(0, i + 1 as int).last() == sv[i as int]);
            assert(deref_mapped(sv.subrange(0, i + 1 as int), hop@) == deref_mapped(
                sv.subrange(0, i as int),
                hop@,
            ).push(deref_hop_prepended(sv[i as int], hop@)));
        }
    }
    proof {
        assert(sv.subrange(0, n as int) =~~= sv);
    }
}

/// Appends the sub-types with a tuple field step prepended to each.
fn push_tuplefield_mapped(out: &mut Vec<ShortLivedType>, subs: &Vec<ShortLivedType>, num: usize)
    ensures
        subs_v(final(out)@) == subs_v(old(out)@) + tuplefield_mapped(subs_v(subs@), num as int),
{
    let ghost base = subs_v(out@);
    let ghost sv = subs_v(subs@);
    let n = subs.len();
    proof {
        assert(sv.subrange(0, 0) =~~= Seq::<SubTypeV>::empty());
        assert(subs_v(out@) =~~= base + tuplefield_mapped(sv.subrange(0, 0), num as int));
    }
    for i in 0..n
        invariant
            n == subs@.len(),
            sv == subs_v(subs@),
            sv.len() == n,
            forall|j: int| 0 <= j < n ==> #[trigger] sv[j] == subs@[j]@,
            subs_v(out@) == base + tuplefield_mapped(sv.subrange(0, i as int), num as int),
    {
        let t = with_field(&subs[i], num, &None, None);
        let ghost o0 = out@;
        out.push(t);
        proof {
            lemma_subs_push(o0, t, base, tuplefield_mapped(sv.subrange(0, i as int), num as int));
            assert(sv.subrange(0, i + 1 as int).drop_last() =~~= sv.subrange(0, i as int));
            assert(sv.subrange(0, i + 1 as int).last() == sv[i as int]);
            assert(tuplefield_mapped(sv.subrange(0, i + 1 as int), num as int) == tuplefield_mapped(
                sv.subrange(0, i as int),
                num as int,
            ).push(field_prepended(
                sv[i as int],
                FieldV { num, name: None, owner: None },
            )));
        }
    }
    proof {
        assert(sv.subrange(0, n as int) =~~= sv);
    }
}

/// Appends the sub-types with the opaque-argument transform applied.
fn push_arg_mapped(
    out: &mut Vec<ShortLivedType>,
    subs: &Vec<ShortLivedType>,
    owner: u64,
    kind: NominalKind,
    struct_lts: &Vec<LifetimeName>,
)
    ensures
        subs_v(final(out)@) == subs_v(old(out)@) + arg_mapped(subs_v(subs@), owner, kind, struct_lts@),
{
    let ghost base = subs_v(out@);
    let ghost sv = subs_v(subs@);
    let n = subs.len();
    proof {
        assert(sv.subrange(0, 0) =~~= Seq::<SubTypeV>::empty());
        assert(subs_v(out@) =~~= base + arg_mapped(sv.subrange(0, 0), owner, kind, struct_lts@));
    }
    for i in 0..n
        invariant
            n == subs@.len(),
            sv == subs_v(subs@),
            sv.len() == n,
            forall|j: int| 0 <= j < n ==> #[trigger] sv[j] == subs@[j]@,
            subs_v(out@) == base + arg_mapped(sv.subrange(0, i as int), owner, kind, struct_lts@),
    {
        let t = with_arg_transform(&subs[i], owner, kind, struct_lts);
        let ghost o0 = out@;
        out.push(t);
        proof {
            lemma_subs_push(
                o0,
                t,
                base,
                arg_mapped(sv.subrange(0, i as int), owner, kind, struct_lts@),
            );
            assert(sv.subrange(0, i + 1 as int).drop_last() =~~= sv.subrange(0, i as int));
            assert(sv.subrange(0, i + 1 as int).last() == sv[i as int]);
            assert(arg_mapped(sv.subrange(0, i + 1 as int), owner, kind, struct_lts@)
                == arg_mapped(sv.subrange(0, i as int), owner, kind, struct_lts@).push(
                arg_transformed(sv[i as int], owner, kind, struct_lts@),
            ));
        }
    }
    proof {
        assert(sv.subrange(0, n as int) =~~= sv);
    }
}

/// Appends the sub-types with the struct-field transform applied.
fn push_fielddef_mapped(
    out: &mut Vec<ShortLivedType>,
    subs: &Vec<ShortLivedType>,
    num: usize,
    name: &Option<String>,
    owner: u64,
    struct_lts: &Vec<LifetimeName>,
)
    ensures
        subs_v(final(out)@) == subs_v(old(out)@) + fielddef_mapped(
            subs_v(subs@),
            num as int,
            crate::types::name_v(*name),
            owner,
            struct_lts@,
        ),
{
    let ghost base = subs_v(out@);
    let ghost sv = subs_v(subs@);
    let n = subs.len();
    proof {
        assert(sv.subrange(0, 0) =~~= Seq::<SubTypeV>::empty());
        assert(subs_v(out@) =~~= base + fielddef_mapped(
            sv.subrange(0, 0),
            num as int,
            crate::types::name_v(*name),
            owner,
            struct_lts@,
        ));
    }
    for i in 0..n
        invariant
            n == subs@.len(),
            sv == subs_v(subs@),
            sv.len() == n,
            forall|j: int| 0 <= j < n ==> #[trigger] sv[j] == subs@[j]@,
            subs_v(out@) == base + fielddef_mapped(
                sv.subrange(0, i as int),
                num as int,
                crate::types::name_v(*name),
                owner,
                struct_lts@,
            ),
    {
        let t = with_fielddef_transform(&subs[i], num, name, owner, struct_lts);
        let ghost o0 = out@;
        out.push(t);
        proof {
            lemma_subs_push(
                o0,
                t,
                base,
                fielddef_mapped(
                    sv.subrange(0, i as int),
                    num as int,
                    crate::types::name_v(*name),
                    owner,
                    struct_lts@,
                ),
            );
            assert(sv.subrange(0, i + 1 as int).drop_last() =~~= sv.subrange(0, i as int));
            assert(sv.subrange(0, i + 1 as int).last() == sv[i as int]);
            assert(fielddef_mapped(
                sv.subrange(0, i + 1 as int),
                num as int,
                crate::types::name_v(*name),
                owner,
                struct_lts@,
            ) == fielddef_mapped(
                sv.subrange(0, i as int),
                num as int,
                crate::types::name_v(*name),
                owner,
                struct_lts@,
            ).push(field_transformed(
                sv[i as int],
                num,
                crate::types::name_v(*name),
                owner,
                struct_lts@,
            )));
        }
    }
    proof {
        assert(sv.subrange(0, n as int) =~~= sv);
    }
}

/// Decomposes the type arguments of an opaque nominal type, walking
/// each type argument and applying the argument transform.
fn subtypes_of_args(
    args: &ArgList,
    trait_bounds: &Vec<(u64, BoundsInfo)>,
    ctx: &CrateModel,
    visited: Vec<u64>,
    struct_lts: &Vec<LifetimeName>,
    owner: u64,
    kind: NominalKind,
) -> (r: Vec<ShortLivedType>)
    ensures
        subs_v(r@) == decompose_args(
            arglist_v(*args),
            bmap_v(trait_bounds@),
            crate_v(*ctx),
            visited@,
            struct_lts@,
            owner,
            kind,
        ),
    decreases unexpanded(crate_v(*ctx), visited@), 0nat, arglist_v(*args),
{
    let ghost av = arglist_v(*args);
    match args {
        ArgList::Nil => {
            let r: Vec<ShortLivedType> = Vec::new();
            assert(subs_v(r@) =~~= decompose_args(
                av,
                bmap_v(trait_bounds@),
                crate_v(*ctx),
                visited@,
                struct_lts@,
                owner,
                kind,
            ));
            r
        },
        ArgList::LtCons(_, tail) => {
            proof {
                assert(av.subrange(1, av.len() as int) =~~= arglist_v(**tail));
                assert(decreases_to!(av => av.subrange(1, av.len() as int)));
            }
            let r = subtypes_of_args(tail, trait_bounds, ctx, visited, struct_lts, owner, kind);
            proof {
                assert(subs_v(r@) =~~= decompose_args(
                    av,
                    bmap_v(trait_bounds@),
                    crate_v(*ctx),
                    visited@,
                    struct_lts@,
                    owner,
                    kind,
                ));
            }
            r
        },
        ArgList::TyCons(h, tail) => {
            proof {
                assert(av[0] == ArgV::Ty(ty_v(**h)));
                assert(av.subrange(1, av.len() as int) =~~= arglist_v(**tail));
                assert(decreases_to!(av => av[0]));
                assert(decreases_to!(av[0] => ty_v(**h)));
            }
            let subs = get_sub_types_dbg(h, trait_bounds, ctx, clone_u64_vec(&visited));
            let mut out: Vec<ShortLivedType> = Vec::new();
            push_arg_mapped(&mut out, &subs, owner, kind, struct_lts);
            let rest = subtypes_of_args(tail, trait_bounds, ctx, visited, struct_lts, owner, kind);
            let n = rest.len();
            let ghost mid = subs_v(out@);
            let ghost rv = subs_v(rest@);
            for i in 0..n
                invariant
                    n == rest@.len(),
                    rv == subs_v(rest@),
                    rv.len() == n,
                    forall|j: int| 0 <= j < n ==> #[trigger] rv[j] == rest@[j]@,
                    subs_v(out@) == mid + rv.subrange(0, i as int),
            {
                let t = clone_subtype(&rest[i]);
                let ghost o0 = out@;
                out.push(t);
                proof {
                    lemma_subs_push(o0, t, mid, rv.subrange(0, i as int));
                    assert(rv.subrange(0, i + 1 as int) =~~= rv.subrange(0, i as int).push(
                        rv[i as int],
                    ));
                }
            }
            proof {
                assert(rv.subrange(0, n as int) =~~= rv);
                assert(subs_v(out@) =~~= decompose_args(
                    av,
                    bmap_v(trait_bounds@),
                    crate_v(*ctx),
                    visited@,
                    struct_lts@,
                    owner,
                    kind,
                ));
            }
            out
        },
    }
}

/// Decomposes a type expression into every reachable sub-type, with
/// `known_defids` recording the definitions already expanded on this
/// path.
pub fn get_sub_types_dbg(
    ty: &TypeExpr,
    trait_bounds: &Vec<(u64, BoundsInfo)>,
    ctx: &CrateModel,
    known_defids: Vec<u64>,
) -> (r: Vec<ShortLivedType>)
    ensures
        subs_v(r@) == decompose_spec(
            ty_v(*ty),
            bmap_v(trait_bounds@),
            crate_v(*ctx),
            known_defids@,
        ),
    decreases unexpanded(crate_v(*ctx), known_defids@), 0nat, ty_v(*ty),
{
    let ghost tv = ty_v(*ty);
    let ghost bm = bmap_v(trait_bounds@);
    let ghost cv = crate_v(*ctx);
    let ghost vis = known_defids@;
    match ty {
        TypeExpr::Ref { lifetime, is_mut, inner } => {
            proof {
                assert(tv->Ref_inner == Box::new(ty_v(**inner)));
                assert(decreases_to!(tv => *tv->Ref_inner));
            }
            let subs = get_sub_types_dbg(inner, trait_bounds, ctx, known_defids);
            let mut names: Vec<LifetimeName> = Vec::new();
            names.push(*lifetime);
            let hop = MyLifetime { names, is_mut: *is_mut, is_raw: false, is_refcell: false };
            let mut out: Vec<ShortLivedType> = Vec::new();
            assert(subs_v(out@) =~~= Seq::<SubTypeV>::empty());
            push_deref_mapped(&mut out, &subs, &hop);
            proof {
                assert(hop@.names =~~= seq![*lifetime]);
                assert(subs_v(out@) =~~= decompose_spec(tv, bm, cv, vis));
            }
            out
        },
        TypeExpr::RawPtr { is_mut, inner } => {
            proof {
                assert(tv->RawPtr_inner == Box::new(ty_v(**inner)));
                assert(decreases_to!(tv => *tv->RawPtr_inner));
            }
            let subs = get_sub_types_dbg(inner, trait_bounds, ctx, known_defids);
            let hop = MyLifetime {
                names: Vec::new(),
                is_mut: *is_mut,
                is_raw: true,
                is_refcell: false,
            };
            let mut out: Vec<ShortLivedType> = Vec::new();
            assert(subs_v(out@) =~~= Seq::<SubTypeV>::empty());
            push_deref_mapped(&mut out, &subs, &hop);
            proof {
                assert(hop@.names =~~= Seq::<LifetimeName>::empty());
                assert(subs_v(out@) =~~= decompose_spec(tv, bm, cv, vis));
            }
            out
        },
        TypeExpr::Slice { inner } => {
            proof {
                assert(tv->Slice_inner == Box::new(ty_v(**inner)));
                assert(decreases_to!(tv => *tv->Slice_inner));
            }
            get_sub_types_dbg(inner, trait_bounds, ctx, known_defids)
        },
        TypeExpr::Tuple { elems } => {
            let refs = tylist_refs(elems);
            let ghost ev = tylist_v(*elems);
            if refs.len() == 0 {
                let mut out: Vec<ShortLivedType> = Vec::new();
                out.push(owned_subtype_exec(None));
                proof {
                    assert(subs_v(out@) =~~= seq![owned_subtype(None)]);
                }
                return out;
            }
            let mut out: Vec<ShortLivedType> = Vec::new();
            let n = refs.len();
            proof {
                assert(ev.subrange(0, n as int) =~~= ev);
                assert(subs_v(out@) =~~= Seq::<SubTypeV>::empty());
            }
            for i in 0..n
                invariant
                    n == refs@.len(),
                    n == ev.len(),
                    n > 0,
                    ev == tylist_v(*elems),
                    tv == ty_v(*ty),
                    tv == (TyV::Tuple { elems: ev }),
                    bm == bmap_v(trait_bounds@),
                    cv == crate_v(*ctx),
                    vis == known_defids@,
                    forall|j: int| 0 <= j < n ==> ty_v(*#[trigger] refs@[j]) == ev[j],
                    decompose_tuple(ev, 0, bm, cv, vis) == subs_v(out@) + decompose_tuple(
                        ev.subrange(i as int, n as int),
                        i as int,
                        bm,
                        cv,
                        vis,
                    ),
            {
                let ghost suf = ev.subrange(i as int, n as int);
                proof {
                    assert(suf[0] == ev[i as int]);
                    assert(suf.subrange(1, suf.len() as int) =~~= ev.subrange(i + 1, n as int));
                    assert(tv->Tuple_elems == ev);
                    assert(decreases_to!(tv => tv->Tuple_elems));
                    assert(decreases_to!(ev => ev[i as int]));
                }
                let subs = get_sub_types_dbg(refs[i], trait_bounds, ctx, clone_u64_vec(
                    &known_defids,
                ));
                push_tuplefield_mapped(&mut out, &subs, i);
            }
            proof {
                assert(ev.subrange(n as int, n as int).len() == 0);
                assert(decompose_tuple(ev.subrange(n as int, n as int), n as int, bm, cv, vis)
                    =~~= Seq::<SubTypeV>::empty());
                assert(subs_v(out@) =~~= decompose_spec(tv, bm, cv, vis));
            }
            out
        },
        TypeExpr::Primitive => {
            let mut out: Vec<ShortLivedType> = Vec::new();
            out.push(owned_subtype_exec(None));
            proof {
                assert(subs_v(out@) =~~= seq![owned_subtype(None)]);
            }
            out
        },
        TypeExpr::SelfAlias { impl_id } => {
            let impl_id = *impl_id;
            match find_impl_idx(ctx, impl_id) {
                Some(ii) => {
                    if ids_contain(&known_defids, impl_id) {
                        let r: Vec<ShortLivedType> = Vec::new();
                        assert(subs_v(r@) =~~= decompose_spec(tv, bm, cv, vis));
                        r
                    } else {
                        let merged = merge_bounds(trait_bounds, &ctx.impls[ii].bounds);
                        let mut new_known = clone_u64_vec(&known_defids);
                        new_known.push(impl_id);
                        proof {
                            lemma_impl_id_in_table(cv, impl_id);
                            lemma_count_strict(table_ids(cv), vis, impl_id);
                        }
                        let r = get_sub_types_dbg(&ctx.impls[ii].self_ty, &merged, ctx, new_known);
                        proof {
                            assert(subs_v(r@) =~~= decompose_spec(tv, bm, cv, vis));
                        }
                        r
                    }
                },
                None => {
                    let r: Vec<ShortLivedType> = Vec::new();
                    assert(subs_v(r@) =~~= decompose_spec(tv, bm, cv, vis));
                    r
                },
            }
        },
        TypeExpr::Named { def_id, kind, args } => {
            let def_id = *def_id;
            let kind = *kind;
            if kind == NominalKind::Phantom {
                let r: Vec<ShortLivedType> = Vec::new();
                assert(subs_v(r@) =~~= decompose_spec(tv, bm, cv, vis));
                return r;
            }
            match crate::types::lookup_bounds(trait_bounds, def_id) {
                Some(bi) => {
                    let mut out: Vec<ShortLivedType> = Vec::new();
                    out.push(owned_subtype_exec(Some(def_id)));
                    let is_cl = check_if_closure(&trait_bounds[bi].1);
                    if !crate::lifetimes::contains_static(&trait_bounds[bi].1.outlives) {
                        out.push(generic_borrow_exec(def_id, is_cl));
                        proof {
                            assert(subs_v(out@) =~~= seq![
                                owned_subtype(Some(def_id)),
                                generic_borrow_subtype(def_id, is_cl),
                            ]);
                        }
                    } else {
                        proof {
                            assert(subs_v(out@) =~~= seq![owned_subtype(Some(def_id))]);
                        }
                    }
                    return out;
                },
                None => {},
            }
            let struct_lts = collect_lt_args(args);
            let mut new_known = clone_u64_vec(&known_defids);
            new_known.push(def_id);
            let visited_has = ids_contain(&known_defids, def_id);
            let sidx = find_struct_idx(ctx, def_id);
            let mut out: Vec<ShortLivedType> = Vec::new();
            out.push(owned_subtype_exec(Some(def_id)));
            proof {
                assert(subs_v(out@) =~~= seq![owned_subtype(Some(def_id))]);
            }
            let expand_fields = match sidx {
                Some(_) => !visited_has,
                None => false,
            };
            if expand_fields {
                let si = match sidx {
                    Some(si) => si,
                    None => vstd::pervasive::unreached(),
                };
                let maps = generate_remappings(&ctx.structs[si].generics, args);
                let merged = merge_bounds(trait_bounds, &ctx.structs[si].bounds);
                let ghost sdv = crate::types::struct_v(ctx.structs@[si as int]);
                let ghost fdv = sdv.fields;
                let ghost vis2 = new_known@;
                proof {
                    crate::types::lemma_field_defs_v_index(ctx.structs@[si as int].fields@);
                    assert(vis2 =~~= vis.push(def_id));
                }
                let nf = ctx.structs[si].fields.len();
                proof {
                    assert(fdv.subrange(0, nf as int) =~~= fdv);
                }
                for fi in 0..nf
                    invariant
                        nf == ctx.structs@[si as int].fields@.len(),
                        si < ctx.structs@.len(),
                        sdv == crate::types::struct_v(ctx.structs@[si as int]),
                        fdv == sdv.fields,
                        fdv.len() == nf,
                        forall|j: int|
                            0 <= j < nf ==> #[trigger] fdv[j] == crate::types::field_def_v(
                                ctx.structs@[si as int].fields@[j],
                            ),
                        tv == ty_v(*ty),
                        bm == bmap_v(trait_bounds@),
                        cv == crate_v(*ctx),
                        vis == known_defids@,
                        vis2 == new_known@,
                        vis2 == vis.push(def_id),
                        !vis.contains(def_id),
                        find_struct_v(cv.structs, def_id) == Some(sdv),
                        maps.0@ == remappings_of(sdv.generics, arglist_v(*args)).0,
                        tym_v(maps.1@) == remappings_of(sdv.generics, arglist_v(*args)).1,
                        bmap_v(merged@) == bm + sdv.bounds,
                        struct_lts@ == lt_args_of(arglist_v(*args)),
                        decompose_fields(
                            fdv,
                            0,
                            maps.0@,
                            tym_v(maps.1@),
                            bm + sdv.bounds,
                            cv,
                            vis2,
                            struct_lts@,
                            def_id,
                        ) == subs_v(out@).subrange(1, subs_v(out@).len() as int)
                            + decompose_fields(
                            fdv.subrange(fi as int, nf as int),
                            fi as int,
                            maps.0@,
                            tym_v(maps.1@),
                            bm + sdv.bounds,
                            cv,
                            vis2,
                            struct_lts@,
                            def_id,
                        ),
                        subs_v(out@).len() >= 1,
                        subs_v(out@)[0] == owned_subtype(Some(def_id)),
                {
                    let ghost suf = fdv.subrange(fi as int, nf as int);
                    proof {
                        assert(suf[0] == fdv[fi as int]);
                        assert(suf.subrange(1, suf.len() as int) =~~= fdv.subrange(
                            fi + 1,
                            nf as int,
                        ));
                    }
                    let fty = subst_ty(&ctx.structs[si].fields[fi].ty, &maps.0, &maps.1);
                    proof {
                        lemma_struct_id_in_table(cv, def_id);
                        lemma_count_strict(table_ids(cv), vis, def_id);
                    }
                    let subs = get_sub_types_dbg(&fty, &merged, ctx, clone_u64_vec(&new_known));
                    push_fielddef_mapped(
                        &mut out,
                        &subs,
                        fi,
                        &ctx.structs[si].fields[fi].field_name,
                        def_id,
                        &struct_lts,
                    );
                }
                proof {
                    assert(fdv.subrange(nf as int, nf as int).len() == 0);
                    assert(decompose_fields(
                        fdv.subrange(nf as int, nf as int),
                        nf as int,
                        maps.0@,
                        tym_v(maps.1@),
                        bm + sdv.bounds,
                        cv,
                        vis2,
                        struct_lts@,
                        def_id,
                    ) =~~= Seq::<SubTypeV>::empty());
                    assert(subs_v(out@) =~~= decompose_spec(tv, bm, cv, vis));
                }
                out
            } else {
                proof {
                    assert(tv->Named_args == arglist_v(*args));
                    assert(decreases_to!(tv => tv->Named_args));
                    lemma_count_mono(table_ids(cv), vis, def_id);
                    assert(new_known@ =~~= vis.push(def_id));
                }
                let subs = subtypes_of_args(
                    args,
                    trait_bounds,
                    ctx,
                    new_known,
                    &struct_lts,
                    def_id,
                    kind,
                );
                let n = subs.len();
                let ghost svv = subs_v(subs@);
                for i in 0..n
                    invariant
                        n == subs@.len(),
                        svv == subs_v(subs@),
                        svv.len() == n,
                        forall|j: int| 0 <= j < n ==> #[trigger] svv[j] == subs@[j]@,
                        subs_v(out@) == seq![owned_subtype(Some(def_id))] + svv.subrange(
                            0,
                            i as int,
                        ),
                {
                    let t = clone_subtype(&subs[i]);
                    let ghost o0 = out@;
                    out.push(t);
                    proof {
                        lemma_subs_push(
                            o0,
                            t,
                            seq![owned_subtype(Some(def_id))],
                            svv.subrange(0, i as int),
                        );
                        assert(svv.subrange(0, i + 1 as int) =~~= svv.subrange(0, i as int).push(
                            svv[i as int],
                        ));
                    }
                }
                proof {
                    assert(svv.subrange(0, n as int) =~~= svv);
                    assert(subs_v(out@) =~~= decompose_spec(tv, bm, cv, vis));
                }
                out
            }
        },
        TypeExpr::Unsupported => {
            let r: Vec<ShortLivedType> = Vec::new();
            assert(subs_v(r@) =~~= decompose_spec(tv, bm, cv, vis));
            r
        },
    }
}

/// Decomposes a type expression into every reachable sub-type,
/// starting from a fresh visited set.
pub fn get_sub_types(
    ty: &TypeExpr,
    trait_bounds: &Vec<(u64, BoundsInfo)>,
    ctx: &CrateModel,
) -> (r: Vec<ShortLivedType>)
    ensures
        subs_v(r@) == decompose_spec(
            ty_v(*ty),
            bmap_v(trait_bounds@),
            crate_v(*ctx),
            Seq::<u64>::empty(),
        ),
{
    let known: Vec<u64> = Vec::new();
    assert(known@ =~~= Seq::<u64>::empty());
    get_sub_types_dbg(ty, trait_bounds, ctx, known)
}

/// Every ordered cross pairing of an inner hop's tags with an outer
/// hop's tags: the inner lifetime is recorded as outliving the outer.
pub open spec fn cross_tags(xs: Seq<LifetimeName>, ys: Seq<LifetimeName>) -> Seq<
    (LifetimeName, LifetimeName),
>
    decreases xs.len(),
{
    if xs.len() == 0 {
        Seq::empty()
    } else {
        ys.map_values(|y: LifetimeName| (xs[0], y)) + cross_tags(
            xs.subrange(1, xs.len() as int),
            ys,
        )
    }
}

/// The implicit bounds contributed by hop `i` paired with every hop
/// further in, scanning from position `j`.
pub open spec fn bounds_for_outer(hops: Seq<HopV>, i: int, j: int) -> Seq<
    (LifetimeName, LifetimeName),
>
    decreases hops.len() - j,
{
    if j < 0 || j >= hops.len() || i < 0 || i >= hops.len() {
        Seq::empty()
    } else {
        (if hops[i].names.len() > 0 && hops[j].names.len() > 0 {
            cross_tags(hops[j].names, hops[i].names)
        } else {
            Seq::empty()
        }) + bounds_for_outer(hops, i, j + 1)
    }
}

/// The implicit bounds of one hop stack: for every nesting of a hop
/// inside another, each inner tag outlives each outer tag.
pub open spec fn hop_nest_bounds(hops: Seq<HopV>, i: int) -> Seq<(LifetimeName, LifetimeName)>
    decreases hops.len() - i,
{
    if i < 0 || i >= hops.len() {
        Seq::empty()
    } else {
        bounds_for_outer(hops, i, i + 1) + hop_nest_bounds(hops, i + 1)
    }
}

/// The implicit bounds of a decomposition, sub-type by sub-type.
pub open spec fn all_nest_bounds(subs: Seq<SubTypeV>) -> Seq<(LifetimeName, LifetimeName)>
    decreases subs.len(),
{
    if subs.len() == 0 {
        Seq::empty()
    } else {
        hop_nest_bounds(subs[0].hops, 0) + all_nest_bounds(subs.subrange(1, subs.len() as int))
    }
}

/// The pairs with duplicates removed, keeping first occurrences, with
/// `acc` holding what was already kept.
pub open spec fn dedup_pairs(
    pairs: Seq<(LifetimeName, LifetimeName)>,
    acc: Seq<(LifetimeName, LifetimeName)>,
) -> Seq<(LifetimeName, LifetimeName)>
    decreases pairs.len(),
{
    if pairs.len() == 0 {
        acc
    } else {
        dedup_pairs(
            pairs.subrange(1, pairs.len() as int),
            if acc.contains(pairs[0]) {
                acc
            } else {
                acc.push(pairs[0])
            },
        )
    }
}

/// The implicit outlives bounds a type expression carries: derived
/// from the nesting of tagged hops within each of its sub-types, with
/// duplicates removed.
pub open spec fn implicit_bounds_spec(
    t: TyV,
    bounds: Seq<(u64, BoundsV)>,
    ctx: CrateV,
) -> Seq<(LifetimeName, LifetimeName)> {
    dedup_pairs(
        all_nest_bounds(decompose_spec(t, bounds, ctx, Seq::empty())),
        Seq::empty(),
    )
}

/// Whether the pair list holds the pair.
fn pairs_contain(
    v: &Vec<(LifetimeName, LifetimeName)>,
    x: (LifetimeName, LifetimeName),
) -> (r: bool)
    ensures
        r == v@.contains(x),
{
    let n = v.len();
    for i in 0..n
        invariant
            n == v@.len(),
            forall|j: int| 0 <= j < i ==> v@[j] != x,
    {
        if crate::lifetimes::compare_lifetimes(&v[i].0, &x.0) && crate::lifetimes::compare_lifetimes(
            &v[i].1,
            &x.1,
        ) {
            assert(v@[i as int] == x);
            return true;
        }
    }
    false
}

/// Collects the cross pairings of two tag lists onto `out`.
fn push_cross_tags(
    out: &mut Vec<(LifetimeName, LifetimeName)>,
    xs: &Vec<LifetimeName>,
    ys: &Vec<LifetimeName>,
)
    ensures
        final(out)@ == old(out)@ + cross_tags(xs@, ys@),
{
    let ghost base = out@;
    let nx = xs.len();
    proof {
        assert(xs@.subrange(0, nx as int) =~= xs@);
    }
    for i in 0..nx
        invariant
            nx == xs@.len(),
            out@ + cross_tags(xs@.subrange(i as int, nx as int), ys@) == base + cross_tags(
                xs@,
                ys@,
            ),
    {
        let ghost suf = xs@.subrange(i as int, nx as int);
        proof {
            assert(suf[0] == xs@[i as int]);
            assert(suf.subrange(1, suf.len() as int) =~= xs@.subrange(i + 1, nx as int));
        }
        let ny = ys.len();
        let ghost inner_base = out@;
        for j in 0..ny
            invariant
                ny == ys@.len(),
                i < nx,
                nx == xs@.len(),
                out@ == inner_base + ys@.subrange(0, j as int).map_values(
                    |y: LifetimeName| (xs@[i as int], y),
                ),
        {
            let ghost jpre = ys@.subrange(0, j as int);
            proof {
                assert(jpre.push(ys@[j as int]) =~= ys@.subrange(0, j + 1 as int));
            }
            out.push((xs[i], ys[j]));
            proof {
                assert(out@ =~= inner_base + ys@.subrange(0, j + 1 as int).map_values(
                    |y: LifetimeName| (xs@[i as int], y),
                ));
            }
        }
        proof {
            assert(ys@.subrange(0, ny as int) =~= ys@);
            assert(out@ + cross_tags(xs@.subrange(i + 1, nx as int), ys@) =~= base + cross_tags(
                xs@,
                ys@,
            ));
        }
    }
    proof {
        assert(xs@.subrange(nx as int, nx as int).len() == 0);
        assert(cross_tags(xs@.subrange(nx as int, nx as int), ys@) =~= Seq::<
            (LifetimeName, LifetimeName),
        >::empty());
        assert(out@ =~= base + cross_tags(xs@, ys@));
    }
}

/// Derives the implicit outlives bounds of a type expression: runs the
/// walker, and for every nesting of tagged hops within one sub-type
/// records that each inner tag outlives each outer tag, deduplicated.
pub fn get_implicit_lifetime_bounds(
    ty: &TypeExpr,
    trait_bounds: &Vec<(u64, BoundsInfo)>,
    ctx: &CrateModel,
) -> (r: Vec<(LifetimeName, LifetimeName)>)
    ensures
        r@ == implicit_bounds_spec(ty_v(*ty), bmap_v(trait_bounds@), crate_v(*ctx)),
{
    let sub_types = get_sub_types(ty, trait_bounds, ctx);
    let ghost sv = subs_v(sub_types@);
    let mut all_bounds: Vec<(LifetimeName, LifetimeName)> = Vec::new();
    let ns = sub_types.len();
    proof {
        assert(sv.subrange(0, ns as int) =~~= sv);
        assert(all_bounds@ =~= Seq::<(LifetimeName, LifetimeName)>::empty());
    }
    for k in 0..ns
        invariant
            ns == sub_types@.len(),
            sv == subs_v(sub_types@),
            sv.len() == ns,
            forall|j: int| 0 <= j < ns ==> #[trigger] sv[j] == sub_types@[j]@,
            all_bounds@ + all_nest_bounds(sv.subrange(k as int, ns as int)) == all_nest_bounds(
                sv,
            ),
    {
        let ghost ksuf = sv.subrange(k as int, ns as int);
        proof {
            assert(ksuf[0] == sv[k as int]);
            assert(ksuf.subrange(1, ksuf.len() as int) =~~= sv.subrange(k + 1, ns as int));
        }
        let st = &sub_types[k];
        let ghost hv = st@.hops;
        let nh = st.lifetimes.len();
        let ghost kbase = all_bounds@;
        for i in 0..nh
            invariant
                nh == st.lifetimes@.len(),
                hv == st@.hops,
                hv.len() == nh,
                all_bounds@ + hop_nest_bounds(hv, i as int) == kbase + hop_nest_bounds(hv, 0),
        {
            let ghost istart = all_bounds@;
            proof {
                assert(hop_nest_bounds(hv, i as int) == bounds_for_outer(hv, i as int, i + 1
                    as int) + hop_nest_bounds(hv, i + 1 as int));
            }
            for j in (i + 1)..nh
                invariant
                    nh == st.lifetimes@.len(),
                    hv == st@.hops,
                    hv.len() == nh,
                    i < nh,
                    all_bounds@ + bounds_for_outer(hv, i as int, j as int) == istart
                        + bounds_for_outer(hv, i as int, i + 1 as int),
            {
                proof {
                    assert(hv[i as int] == st.lifetimes@[i as int]@);
                    assert(hv[j as int] == st.lifetimes@[j as int]@);
                    assert(bounds_for_outer(hv, i as int, j as int) == (if hv[i as int].names.len()
                        > 0 && hv[j as int].names.len() > 0 {
                        cross_tags(hv[j as int].names, hv[i as int].names)
                    } else {
                        Seq::<(LifetimeName, LifetimeName)>::empty()
                    }) + bounds_for_outer(hv, i as int, j + 1 as int));
                }
                if st.lifetimes[i].names.len() > 0 && st.lifetimes[j].names.len() > 0 {
                    push_cross_tags(&mut all_bounds, &st.lifetimes[j].names, &st.lifetimes[i].names);
                    proof {
                        assert(all_bounds@ + bounds_for_outer(hv, i as int, j + 1 as int)
                            =~= istart + bounds_for_outer(hv, i as int, i + 1 as int));
                    }
                } else {
                    proof {
                        assert(all_bounds@ + bounds_for_outer(hv, i as int, j + 1 as int)
                            =~= istart + bounds_for_outer(hv, i as int, i + 1 as int));
                    }
                }
            }
            proof {
                assert(bounds_for_outer(hv, i as int, nh as int) =~= Seq::<
                    (LifetimeName, LifetimeName),
                >::empty());
                assert(all_bounds@ =~= istart + bounds_for_outer(hv, i as int, i + 1 as int));
                assert(all_bounds@ + hop_nest_bounds(hv, i + 1 as int) =~= kbase
                    + hop_nest_bounds(hv, 0));
            }
        }
        proof {
            assert(hop_nest_bounds(hv, nh as int) =~= Seq::<(LifetimeName, LifetimeName)>::empty());
            assert(all_bounds@ =~= kbase + hop_nest_bounds(hv, 0));
            assert(all_nest_bounds(ksuf) == hop_nest_bounds(sv[k as int].hops, 0)
                + all_nest_bounds(sv.subrange(k + 1, ns as int)));
            assert(all_bounds@ + all_nest_bounds(sv.subrange(k + 1, ns as int)) =~= all_nest_bounds(
                sv,
            ));
        }
    }
    proof {
        assert(sv.subrange(ns as int, ns as int).len() == 0);
        assert(all_nest_bounds(sv.subrange(ns as int, ns as int)) =~= Seq::<
            (LifetimeName, LifetimeName),
        >::empty());
        assert(all_bounds@ =~= all_nest_bounds(sv));
    }
    let mut unique: Vec<(LifetimeName, LifetimeName)> = Vec::new();
    let ghost ab = all_bounds@;
    let nb = all_bounds.len();
    proof {
        assert(ab.subrange(0, nb as int) =~= ab);
        assert(unique@ =~= Seq::<(LifetimeName, LifetimeName)>::empty());
    }
    for p in 0..nb
        invariant
            nb == all_bounds@.len(),
            ab == all_bounds@,
            dedup_pairs(ab.subrange(p as int, nb as int), unique@) == dedup_pairs(
                ab,
                Seq::empty(),
            ),
    {
        let ghost suf = ab.subrange(p as int, nb as int);
        proof {
            assert(suf[0] == ab[p as int]);
            assert(suf.subrange(1, suf.len() as int) =~= ab.subrange(p + 1, nb as int));
        }
        if !pairs_contain(&unique, (all_bounds[p].0, all_bounds[p].1)) {
            unique.push((all_bounds[p].0, all_bounds[p].1));
        }
    }
    proof {
        assert(ab.subrange(nb as int, nb as int).len() == 0);
    }
    unique
}

/// A shape whose decomposition starts with an owned head: primitives,
/// the unit tuple, nominal types other than data-free markers, and
/// slices or arrays of such shapes. References, raw pointers,
/// non-empty tuples, marker types, unresolved `Self` paths and
/// unsupported shapes are ruled out.
pub open spec fn yields_own(t: TyV) -> bool
    decreases t,
{
    match t {
        TyV::Primitive => true,
        TyV::Tuple { elems } => elems.len() == 0,
        TyV::Named { kind, .. } => kind != NominalKind::Phantom,
        TyV::Slice { inner } => yields_own(*inner),
        _ => false,
    }
}

/// How many sub-types of a decomposition are fully owned: no hops and
/// no projection steps.
pub open spec fn count_owned(subs: Seq<SubTypeV>) -> nat
    decreases subs.len(),
{
    if subs.len() == 0 {
        0
    } else {
        count_owned(subs.drop_last()) + (if subs.last().hops.len() == 0 && subs.last().proj.len()
            == 0 {
            1nat
        } else {
            0nat
        })
    }
}

/// Counting owned sub-types distributes over concatenation.
pub proof fn lemma_count_owned_add(a: Seq<SubTypeV>, b: Seq<SubTypeV>)
    ensures
        count_owned(a + b) == count_owned(a) + count_owned(b),
    decreases b.len(),
{
    if b.len() == 0 {
        assert(a + b =~= a);
    } else {
        lemma_count_owned_add(a, b.drop_last());
        assert((a + b).drop_last() =~= a + b.drop_last());
        assert((a + b).last() == b.last());
    }
}

/// A decomposition none of whose sub-types has an empty projection
/// counts no owned sub-type.
pub proof fn lemma_count_owned_zero(subs: Seq<SubTypeV>)
    requires
        forall|i: int| 0 <= i < subs.len() ==> (#[trigger] subs[i]).proj.len() > 0,
    ensures
        count_owned(subs) == 0,
    decreases subs.len(),
{
    if subs.len() > 0 {
        assert(subs.last() == subs[subs.len() - 1]);
        lemma_count_owned_zero(subs.drop_last());
    }
}

/// Every sub-type produced for a struct field carries at least the
/// field's projection step.
pub proof fn lemma_fielddef_mapped_proj(
    subs: Seq<SubTypeV>,
    pos: int,
    name: Option<Seq<char>>,
    owner: u64,
    struct_lts: Seq<LifetimeName>,
)
    ensures
        fielddef_mapped(subs, pos, name, owner, struct_lts).len() == subs.len(),
        forall|i: int|
            0 <= i < subs.len() ==> (#[trigger] fielddef_mapped(subs, pos, name, owner, struct_lts)[i]).proj.len() > 0,
    decreases subs.len(),
{
    if subs.len() > 0 {
        lemma_fielddef_mapped_proj(subs.drop_last(), pos, name, owner, struct_lts);
        assert forall|i: int|
            0 <= i < subs.len() implies (#[trigger] fielddef_mapped(subs, pos, name, owner, struct_lts)[i]).proj.len()
            > 0 by {
            if i < subs.len() - 1 {
                assert(fielddef_mapped(subs, pos, name, owner, struct_lts)[i] == fielddef_mapped(
                    subs.drop_last(),
                    pos,
                    name,
                    owner,
                    struct_lts,
                )[i]);
            }
        }
    }
}

/// Every sub-type produced inside an opaque type argument carries at
/// least the conventional field step.
pub proof fn lemma_arg_mapped_proj(
    subs: Seq<SubTypeV>,
    owner: u64,
    kind: NominalKind,
    struct_lts: Seq<LifetimeName>,
)
    ensures
        arg_mapped(subs, owner, kind, struct_lts).len() == subs.len(),
        forall|i: int|
            0 <= i < subs.len() ==> (#[trigger] arg_mapped(subs, owner, kind, struct_lts)[i]).proj.len() > 0,
    decreases subs.len(),
{
    if subs.len() > 0 {
        lemma_arg_mapped_proj(subs.drop_last(), owner, kind, struct_lts);
        assert forall|i: int|
            0 <= i < subs.len() implies (#[trigger] arg_mapped(subs, owner, kind, struct_lts)[i]).proj.len()
            > 0 by {
            if i < subs.len() - 1 {
                assert(arg_mapped(subs, owner, kind, struct_lts)[i] == arg_mapped(
                    subs.drop_last(),
                    owner,
                    kind,
                    struct_lts,
                )[i]);
            }
        }
    }
}

/// The struct-field decompositions contribute no owned sub-type.
proof fn lemma_fields_no_owned(
    fields: Seq<crate::types::FieldDefV>,
    pos: int,
    ltm: Seq<(LifetimeName, LifetimeName)>,
    tym: Seq<(u64, TyV)>,
    bounds: Seq<(u64, BoundsV)>,
    ctx: CrateV,
    visited: Seq<u64>,
    struct_lts: Seq<LifetimeName>,
    owner: u64,
)
    ensures
        count_owned(
            decompose_fields(fields, pos, ltm, tym, bounds, ctx, visited, struct_lts, owner),
        ) == 0,
    decreases fields.len(),
{
    if fields.len() == 0 {
    } else {
        let head = fielddef_mapped(
            decompose_spec(subst_v(fields[0].ty, ltm, tym), bounds, ctx, visited),
            pos,
            fields[0].name,
            owner,
            struct_lts,
        );
        lemma_fielddef_mapped_proj(
            decompose_spec(subst_v(fields[0].ty, ltm, tym), bounds, ctx, visited),
            pos,
            fields[0].name,
            owner,
            struct_lts,
        );
        lemma_count_owned_zero(head);
        lemma_fields_no_owned(
            fields.subrange(1, fields.len() as int),
            pos + 1,
            ltm,
            tym,
            bounds,
            ctx,
            visited,
            struct_lts,
            owner,
        );
        lemma_count_owned_add(
            head,
            decompose_fields(
                fields.subrange(1, fields.len() as int),
                pos + 1,
                ltm,
                tym,
                bounds,
                ctx,
                visited,
                struct_lts,
                owner,
            ),
        );
    }
}

/// The opaque-argument decompositions contribute no owned sub-type.
proof fn lemma_args_no_owned(
    args: Seq<ArgV>,
    bounds: Seq<(u64, BoundsV)>,
    ctx: CrateV,
    visited: Seq<u64>,
    struct_lts: Seq<LifetimeName>,
    owner: u64,
    kind: NominalKind,
)
    ensures
        count_owned(decompose_args(args, bounds, ctx, visited, struct_lts, owner, kind)) == 0,
    decreases args.len(),
{
    if args.len() == 0 {
    } else {
        let head = (match args[0] {
            ArgV::Lt(_) => Seq::<SubTypeV>::empty(),
            ArgV::Ty(t) => arg_mapped(
                decompose_spec(t, bounds, ctx, visited),
                owner,
                kind,
                struct_lts,
            ),
        });
        match args[0] {
            ArgV::Lt(_) => {},
            ArgV::Ty(t) => {
                lemma_arg_mapped_proj(
                    decompose_spec(t, bounds, ctx, visited),
                    owner,
                    kind,
                    struct_lts,
                );
                lemma_count_owned_zero(head);
            },
        }
        lemma_args_no_owned(
            args.subrange(1, args.len() as int),
            bounds,
            ctx,
            visited,
            struct_lts,
            owner,
            kind,
        );
        lemma_count_owned_add(
            head,
            decompose_args(
                args.subrange(1, args.len() as int),
                bounds,
                ctx,
                visited,
                struct_lts,
                owner,
                kind,
            ),
        );
    }
}

/// A shape that decomposes to an owned head yields exactly one
/// sub-type with no hops and no projection: the piece that owns its
/// data outright. Everything reached through a field or an argument
/// carries at least one projection step.
pub proof fn lemma_single_owned_subtype(
    t: TyV,
    bounds: Seq<(u64, BoundsV)>,
    ctx: CrateV,
    visited: Seq<u64>,
)
    requires
        yields_own(t),
    ensures
        count_owned(decompose_spec(t, bounds, ctx, visited)) == 1,
    decreases unexpanded(ctx, visited), 2nat, t,
{
    match t {
        TyV::Primitive => {
            assert(count_owned(seq![owned_subtype(None)]) == 1) by {
                assert(count_owned(Seq::<SubTypeV>::empty()) == 0);
                assert(seq![owned_subtype(None)].drop_last() =~= Seq::<SubTypeV>::empty());
                assert(seq![owned_subtype(None)].last() == owned_subtype(None));
            }
        },
        TyV::Tuple { elems } => {
            assert(count_owned(seq![owned_subtype(None)]) == 1) by {
                assert(count_owned(Seq::<SubTypeV>::empty()) == 0);
                assert(seq![owned_subtype(None)].drop_last() =~= Seq::<SubTypeV>::empty());
                assert(seq![owned_subtype(None)].last() == owned_subtype(None));
            }
        },
        TyV::Slice { inner } => {
            lemma_single_owned_subtype(*inner, bounds, ctx, visited);
        },
        TyV::Named { def_id, kind, args } => {
            let owned = seq![owned_subtype(Some(def_id))];
            assert(count_owned(owned) == 1) by {
                assert(count_owned(Seq::<SubTypeV>::empty()) == 0);
                assert(owned.drop_last() =~= Seq::<SubTypeV>::empty());
                assert(owned.last() == owned_subtype(Some(def_id)));
            }
            match find_bounds(bounds, def_id) {
                Some(b) => {
                    if !b.outlives.contains(LifetimeName::Static) {
                        let two = seq![
                            owned_subtype(Some(def_id)),
                            generic_borrow_subtype(def_id, b.is_fn_like),
                        ];
                        assert(count_owned(two) == 1) by {
                            assert(two.drop_last() =~= owned);
                            assert(two.last() == generic_borrow_subtype(def_id, b.is_fn_like));
                            assert(generic_borrow_subtype(def_id, b.is_fn_like).hops.len() == 1);
                        }
                    }
                },
                None => {
                    let struct_lts = lt_args_of(args);
                    match find_struct_v(ctx.structs, def_id) {
                        Some(sd) => {
                            if !visited.contains(def_id) {
                                let maps = remappings_of(sd.generics, args);
                                lemma_struct_id_in_table(ctx, def_id);
                                lemma_count_strict(table_ids(ctx), visited, def_id);
                                lemma_fields_no_owned(
                                    sd.fields,
                                    0,
                                    maps.0,
                                    maps.1,
                                    bounds + sd.bounds,
                                    ctx,
                                    visited.push(def_id),
                                    struct_lts,
                                    def_id,
                                );
                                lemma_count_owned_add(
                                    owned,
                                    decompose_fields(
                                        sd.fields,
                                        0,
                                        maps.0,
                                        maps.1,
                                        bounds + sd.bounds,
                                        ctx,
                                        visited.push(def_id),
                                        struct_lts,
                                        def_id,
                                    ),
                                );
                            } else {
                                lemma_count_mono(table_ids(ctx), visited, def_id);
                                lemma_args_no_owned(
                                    args,
                                    bounds,
                                    ctx,
                                    visited.push(def_id),
                                    struct_lts,
                                    def_id,
                                    kind,
                                );
                                lemma_count_owned_add(
                                    owned,
                                    decompose_args(
                                        args,
                                        bounds,
                                        ctx,
                                        visited.push(def_id),
                                        struct_lts,
                                        def_id,
                                        kind,
                                    ),
                                );
                            }
                        },
                        None => {
                            lemma_count_mono(table_ids(ctx), visited, def_id);
                            lemma_args_no_owned(
                                args,
                                bounds,
                                ctx,
                                visited.push(def_id),
                                struct_lts,
                                def_id,
                                kind,
                            );
                            lemma_count_owned_add(
                                owned,
                                decompose_args(
                                    args,
                                    bounds,
                                    ctx,
                                    visited.push(def_id),
                                    struct_lts,
                                    def_id,
                                    kind,
                                ),
                            );
                        },
                    }
                },
            }
        },
        _ => {},
    }
}

/// `deref_mapped` read off element by element.
pub proof fn lemma_deref_mapped_index(subs: Seq<SubTypeV>, hop: HopV)
    ensures
        deref_mapped(subs, hop).len() == subs.len(),
        forall|i: int|
            0 <= i < subs.len() ==> #[trigger] deref_mapped(subs, hop)[i] == deref_hop_prepended(
                subs[i],
                hop,
            ),
    decreases subs.len(),
{
    if subs.len() > 0 {
        lemma_deref_mapped_index(subs.drop_last(), hop);
        assert forall|i: int| 0 <= i < subs.len() implies #[trigger] deref_mapped(subs, hop)[i]
            == deref_hop_prepended(subs[i], hop) by {
            if i < subs.len() - 1 {
                assert(subs.drop_last()[i] == subs[i]);
            }
        }
    }
}

/// Decomposing a reference yields every sub-type of the referent, each
/// with one dereference step and one new outermost hop carrying
/// exactly the reference's lifetime and mutability and not marked raw.
pub proof fn lemma_ref_decomposition(
    lt: LifetimeName,
    is_mut: bool,
    inner: TyV,
    bounds: Seq<(u64, BoundsV)>,
    ctx: CrateV,
    visited: Seq<u64>,
)
    ensures
        ({
            let whole = decompose_spec(
                TyV::Ref { lifetime: lt, is_mut, inner: Box::new(inner) },
                bounds,
                ctx,
                visited,
            );
            let parts = decompose_spec(inner, bounds, ctx, visited);
            let hop = HopV { names: seq![lt], is_mut, is_raw: false, is_refcell: false };
            whole.len() == parts.len() && forall|i: int|
                0 <= i < parts.len() ==> whole[i] == deref_hop_prepended(parts[i], hop)
        }),
{
    let parts = decompose_spec(inner, bounds, ctx, visited);
    let hop = HopV { names: seq![lt], is_mut, is_raw: false, is_refcell: false };
    lemma_deref_mapped_index(parts, hop);
}

/// Decomposing the same type expression against the same bounds,
/// context and visited set twice yields structurally equal results:
/// the decomposition is a mathematical function of its inputs, so two
/// runs can never disagree.
pub proof fn lemma_decompose_deterministic(
    r1: Seq<SubTypeV>,
    r2: Seq<SubTypeV>,
    t: TyV,
    bounds: Seq<(u64, BoundsV)>,
    ctx: CrateV,
    visited: Seq<u64>,
)
    requires
        r1 == decompose_spec(t, bounds, ctx, visited),
        r2 == decompose_spec(t, bounds, ctx, visited),
    ensures
        r1 == r2,
{
}

/// Whether a type expression is an unresolved `Self` path.
pub fn is_self(ty: &TypeExpr) -> (r: bool)
    ensures
        r == (ty_v(*ty) is SelfAlias),
{
    match ty {
        TypeExpr::SelfAlias { .. } => true,
        _ => false,
    }
}

} // verus!
