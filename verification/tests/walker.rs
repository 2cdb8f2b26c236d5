//! Decomposition behavior of the type walker.

use yuga::lifetimes::{LifetimeName, MyLifetime};
use yuga::process::{get_sub_types, get_implicit_lifetime_bounds, get_trait_lifetime_bounds};
use yuga::types::{
    ArgList, BoundsInfo, CrateModel, FieldDef, GenericParamDef, MyProjection, NominalKind,
    ShortLivedType, StructDef, TypeExpr, TypeList,
};

fn prim() -> TypeExpr {
    TypeExpr::Primitive
}

fn ref_to(id: u64, is_mut: bool, inner: TypeExpr) -> TypeExpr {
    TypeExpr::Ref { lifetime: LifetimeName::Param(id), is_mut, inner: Box::new(inner) }
}

fn static_ref(inner: TypeExpr) -> TypeExpr {
    TypeExpr::Ref { lifetime: LifetimeName::Static, is_mut: false, inner: Box::new(inner) }
}

fn raw_ptr(is_mut: bool, inner: TypeExpr) -> TypeExpr {
    TypeExpr::RawPtr { is_mut, inner: Box::new(inner) }
}

fn named(def_id: u64, args: ArgList) -> TypeExpr {
    TypeExpr::Named { def_id, kind: NominalKind::Plain, args }
}

fn empty_ctx() -> CrateModel {
    CrateModel { structs: Vec::new(), impls: Vec::new(), lifetime_idents: Vec::new() }
}

fn no_bounds() -> Vec<(u64, BoundsInfo)> {
    Vec::new()
}

fn hop_names(h: &MyLifetime) -> &Vec<LifetimeName> {
    &h.names
}

fn proj_is_deref(p: &MyProjection) -> bool {
    matches!(p, MyProjection::MyDeref)
}

fn subtype_eq(a: &ShortLivedType, b: &ShortLivedType) -> bool {
    if a.def_id != b.def_id || a.in_struct != b.in_struct || a.is_closure != b.is_closure {
        return false;
    }
    if a.lifetimes.len() != b.lifetimes.len() || a.projection.len() != b.projection.len() {
        return false;
    }
    for (x, y) in a.lifetimes.iter().zip(b.lifetimes.iter()) {
        if x.names != y.names || x.is_mut != y.is_mut || x.is_raw != y.is_raw
            || x.is_refcell != y.is_refcell
        {
            return false;
        }
    }
    for (x, y) in a.projection.iter().zip(b.projection.iter()) {
        let same = match (x, y) {
            (MyProjection::MyDeref, MyProjection::MyDeref) => true,
            (MyProjection::MyField(f), MyProjection::MyField(g)) => {
                f.field_num == g.field_num && f.field_name == g.field_name
                    && f.struct_def_id == g.struct_def_id
            },
            _ => false,
        };
        if !same {
            return false;
        }
    }
    true
}

#[test]
fn primitive_yields_single_owned_subtype() {
    let ctx = empty_ctx();
    let subs = get_sub_types(&prim(), &no_bounds(), &ctx);
    assert_eq!(subs.len(), 1);
    assert!(subs[0].lifetimes.is_empty());
    assert!(subs[0].projection.is_empty());
    assert!(subs[0].def_id.is_none());
    assert!(!subs[0].in_struct);
}

#[test]
fn owned_struct_yields_one_owned_head() {
    // A local struct with two primitive fields: the owned head is the
    // only sub-type with empty hops and empty projection.
    let ctx = CrateModel {
        structs: vec![StructDef {
            def_id: 7,
            generics: Vec::new(),
            bounds: Vec::new(),
            fields: vec![
                FieldDef { field_name: Some(String::from("a")), ty: prim() },
                FieldDef { field_name: Some(String::from("b")), ty: prim() },
            ],
            has_drop_impl: false,
        }],
        impls: Vec::new(),
        lifetime_idents: Vec::new(),
    };
    let subs = get_sub_types(&named(7, ArgList::Nil), &no_bounds(), &ctx);
    assert_eq!(subs.len(), 3);
    let owned: Vec<&ShortLivedType> = subs
        .iter()
        .filter(|s| s.lifetimes.is_empty() && s.projection.is_empty())
        .collect();
    assert_eq!(owned.len(), 1);
    assert_eq!(owned[0].def_id, Some(7));
    assert!(subs[1].in_struct && subs[2].in_struct);
}

#[test]
fn reference_prepends_deref_and_tagged_hop() {
    let ctx = empty_ctx();
    let subs = get_sub_types(&ref_to(1, true, prim()), &no_bounds(), &ctx);
    assert_eq!(subs.len(), 1);
    let st = &subs[0];
    assert_eq!(st.lifetimes.len(), 1);
    assert_eq!(hop_names(&st.lifetimes[0]).as_slice(), &[LifetimeName::Param(1)]);
    assert!(st.lifetimes[0].is_mut);
    assert!(!st.lifetimes[0].is_raw);
    assert!(!st.lifetimes[0].is_refcell);
    assert_eq!(st.projection.len(), 1);
    assert!(proj_is_deref(&st.projection[0]));
}

#[test]
fn decomposition_is_deterministic() {
    // The same type and bounds decomposed twice give structurally
    // equal results.
    let ctx = empty_ctx();
    let inner = TypeExpr::Tuple {
        elems: TypeList::Cons(
            Box::new(prim()),
            Box::new(TypeList::Cons(Box::new(raw_ptr(false, prim())), Box::new(TypeList::Nil))),
        ),
    };
    let ty = ref_to(4, false, inner);
    let first = get_sub_types(&ty, &no_bounds(), &ctx);
    let second = get_sub_types(&ty, &no_bounds(), &ctx);
    assert_eq!(first.len(), second.len());
    for (a, b) in first.iter().zip(second.iter()) {
        assert!(subtype_eq(a, b));
    }
}

#[test]
fn static_return_decomposes_to_static_tag() {
    // The return type of `fn first<'a>(v: &'a Vec<&'a mut i32>) ->
    // &'static i32` decomposes to one sub-type tagged `'static`.
    let ctx = empty_ctx();
    let ret = static_ref(prim());
    let subs = get_sub_types(&ret, &no_bounds(), &ctx);
    assert_eq!(subs.len(), 1);
    assert_eq!(subs[0].lifetimes.len(), 1);
    assert_eq!(hop_names(&subs[0].lifetimes[0]).as_slice(), &[LifetimeName::Static]);

    // The argument decomposes into the vector's owned head plus the
    // sub-types reached through its type argument.
    let arg = ref_to(
        1,
        false,
        named(
            50,
            ArgList::TyCons(Box::new(ref_to(1, true, prim())), Box::new(ArgList::Nil)),
        ),
    );
    let arg_subs = get_sub_types(&arg, &no_bounds(), &ctx);
    assert_eq!(arg_subs.len(), 2);
    assert!(arg_subs.iter().all(|s| !s.lifetimes.is_empty()));
}

#[test]
fn generic_parameter_yields_synthetic_borrow() {
    // A generic parameter without a 'static bound may itself be a
    // borrow: a synthetic sub-type with a fresh tag unique to it.
    let ctx = empty_ctx();
    let bounds = vec![(9u64, BoundsInfo { outlives: Vec::new(), is_fn_like: false })];
    let subs = get_sub_types(&named(9, ArgList::Nil), &bounds, &ctx);
    assert_eq!(subs.len(), 2);
    assert_eq!(subs[0].def_id, Some(9));
    assert!(subs[0].lifetimes.is_empty());
    assert_eq!(subs[1].lifetimes.len(), 1);
    assert_eq!(hop_names(&subs[1].lifetimes[0]).as_slice(), &[LifetimeName::Param(9)]);

    // With a 'static bound the synthetic sub-type is not produced.
    let static_bounds = vec![(9u64, BoundsInfo {
        outlives: vec![LifetimeName::Static],
        is_fn_like: false,
    })];
    let subs2 = get_sub_types(&named(9, ArgList::Nil), &static_bounds, &ctx);
    assert_eq!(subs2.len(), 1);
}

#[test]
fn marker_type_yields_nothing() {
    let ctx = empty_ctx();
    let marker = TypeExpr::Named { def_id: 11, kind: NominalKind::Phantom, args: ArgList::Nil };
    let subs = get_sub_types(&marker, &no_bounds(), &ctx);
    assert!(subs.is_empty());
}

#[test]
fn struct_lifetime_substitutes_into_raw_pointer_hop() {
    // struct S<'a> { p: *const i32 } used as S<'b>: the raw hop has no
    // tag of its own and inherits the owner's lifetime argument.
    let ctx = CrateModel {
        structs: vec![StructDef {
            def_id: 100,
            generics: vec![GenericParamDef::Lifetime(1)],
            bounds: Vec::new(),
            fields: vec![FieldDef {
                field_name: Some(String::from("p")),
                ty: raw_ptr(false, prim()),
            }],
            has_drop_impl: false,
        }],
        impls: Vec::new(),
        lifetime_idents: Vec::new(),
    };
    let s_of_b = named(100, ArgList::LtCons(LifetimeName::Param(2), Box::new(ArgList::Nil)));
    let subs = get_sub_types(&s_of_b, &no_bounds(), &ctx);
    assert_eq!(subs.len(), 2);
    let field_sub = &subs[1];
    assert!(field_sub.in_struct);
    assert_eq!(field_sub.lifetimes.len(), 1);
    assert!(field_sub.lifetimes[0].is_raw);
    assert_eq!(hop_names(&field_sub.lifetimes[0]).as_slice(), &[LifetimeName::Param(2)]);
}

#[test]
fn trait_bounds_lookup_returns_outlives() {
    let bounds = vec![(3u64, BoundsInfo {
        outlives: vec![LifetimeName::Param(8), LifetimeName::Param(9)],
        is_fn_like: false,
    })];
    let lts = get_trait_lifetime_bounds(3, &bounds);
    assert_eq!(lts, vec![LifetimeName::Param(8), LifetimeName::Param(9)]);
    let none = get_trait_lifetime_bounds(4, &bounds);
    assert!(none.is_empty());
}

#[test]
fn implicit_bounds_from_nested_references() {
    // &'a &'b i32: the inner lifetime must outlive the outer, so the
    // derived bound is ('b, 'a).
    let ctx = empty_ctx();
    let ty = ref_to(1, false, ref_to(2, false, prim()));
    let bounds = get_implicit_lifetime_bounds(&ty, &no_bounds(), &ctx);
    assert_eq!(bounds, vec![(LifetimeName::Param(2), LifetimeName::Param(1))]);
}

#[test]
fn cycle_guard_stops_recursive_struct() {
    // struct L { next: L } (through the table) terminates: the second
    // expansion is cut off by the visited set.
    let ctx = CrateModel {
        structs: vec![StructDef {
            def_id: 20,
            generics: Vec::new(),
            bounds: Vec::new(),
            fields: vec![FieldDef {
                field_name: Some(String::from("next")),
                ty: named(20, ArgList::Nil),
            }],
            has_drop_impl: false,
        }],
        impls: Vec::new(),
        lifetime_idents: Vec::new(),
    };
    let subs = get_sub_types(&named(20, ArgList::Nil), &no_bounds(), &ctx);
    // Owned head, then the field's owned head; the nested occurrence
    // only iterates its (empty) arguments.
    assert_eq!(subs.len(), 2);
}
