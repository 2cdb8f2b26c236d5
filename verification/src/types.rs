//! The modeled type expressions a front end hands over, the crate context
//! they are resolved against, and the decomposed sub-types the walker
//! produces.

use vstd::prelude::*;

use crate::lifetimes::{HopV, LifetimeName, MyLifetime};

verus! {

/// How the walker treats a nominal type, as classified by the front end
/// from the type's identity.
#[derive(Clone, Copy, Debug, PartialEq, Eq, Structural)]
pub enum NominalKind {
    /// An ordinary nominal type.
    Plain,
    /// A marker type holding no data of its own; yields no sub-types.
    Phantom,
    /// An interior-mutability cell: contents sit behind a
    /// runtime-checked hop.
    RefCellLike,
}

/// A list of type expressions, linked so that the type may nest inside
/// itself (tuple elements).
pub enum TypeList {
    Nil,
    Cons(Box<TypeExpr>, Box<TypeList>),
}

/// The angle-bracket arguments of a nominal type, in declaration order;
/// lifetime and type arguments interleave as written.
pub enum ArgList {
    Nil,
    LtCons(LifetimeName, Box<ArgList>),
    TyCons(Box<TypeExpr>, Box<ArgList>),
}

/// A type expression as extracted from a function signature or a struct
/// field. References carry the lifetime the declaration names; raw
/// pointers carry none. Arrays and slices are collapsed into one shape
/// because element indices are not tracked.
pub enum TypeExpr {
    Ref { lifetime: LifetimeName, is_mut: bool, inner: Box<TypeExpr> },
    RawPtr { is_mut: bool, inner: Box<TypeExpr> },
    Slice { inner: Box<TypeExpr> },
    Tuple { elems: TypeList },
    Primitive,
    Named { def_id: u64, kind: NominalKind, args: ArgList },
    SelfAlias { impl_id: u64 },
    Unsupported,
}

/// Mathematical image of a [`TypeArg`].
pub ghost enum ArgV {
    Lt(LifetimeName),
    Ty(TyV),
}

/// Mathematical image of a [`TypeExpr`].
pub ghost enum TyV {
    Ref { lifetime: LifetimeName, is_mut: bool, inner: Box<TyV> },
    RawPtr { is_mut: bool, inner: Box<TyV> },
    Slice { inner: Box<TyV> },
    Tuple { elems: Seq<TyV> },
    Primitive,
    Named { def_id: u64, kind: NominalKind, args: Seq<ArgV> },
    SelfAlias { impl_id: u64 },
    Unsupported,
}

/// The image of a type expression in the mathematical model.
pub open spec fn ty_v(t: TypeExpr) -> TyV
    decreases t,
{
    match t {
        TypeExpr::Ref { lifetime, is_mut, inner } => TyV::Ref {
            lifetime,
            is_mut,
            inner: Box::new(ty_v(*inner)),
        },
        TypeExpr::RawPtr { is_mut, inner } => TyV::RawPtr { is_mut, inner: Box::new(ty_v(*inner)) },
        TypeExpr::Slice { inner } => TyV::Slice { inner: Box::new(ty_v(*inner)) },
        TypeExpr::Tuple { elems } => TyV::Tuple { elems: tylist_v(elems) },
        TypeExpr::Primitive => TyV::Primitive,
        TypeExpr::Named { def_id, kind, args } => TyV::Named {
            def_id,
            kind,
            args: arglist_v(args),
        },
        TypeExpr::SelfAlias { impl_id } => TyV::SelfAlias { impl_id },
        TypeExpr::Unsupported => TyV::Unsupported,
    }
}

/// The image of a linked list of type expressions, in order.
pub open spec fn tylist_v(l: TypeList) -> Seq<TyV>
    decreases l,
{
    match l {
        TypeList::Nil => Seq::empty(),
        TypeList::Cons(h, t) => seq![ty_v(*h)] + tylist_v(*t),
    }
}

/// The image of an angle-bracket argument list, in order.
pub open spec fn arglist_v(l: ArgList) -> Seq<ArgV>
    decreases l,
{
    match l {
        ArgList::Nil => Seq::empty(),
        ArgList::LtCons(lt, t) => seq![ArgV::Lt(lt)] + arglist_v(*t),
        ArgList::TyCons(h, t) => seq![ArgV::Ty(ty_v(*h))] + arglist_v(*t),
    }
}

/// The lifetime arguments among an argument list, in order.
pub open spec fn lt_args_of(args: Seq<ArgV>) -> Seq<LifetimeName>
    decreases args,
{
    if args.len() == 0 {
        Seq::empty()
    } else {
        match args[0] {
            ArgV::Lt(lt) => seq![lt] + lt_args_of(args.subrange(1, args.len() as int)),
            ArgV::Ty(_) => lt_args_of(args.subrange(1, args.len() as int)),
        }
    }
}

/// The trait and outlives information attached to one generic parameter:
/// the lifetimes every instantiation must outlive, and whether the
/// parameter is bounded by a function-like trait (so that a matching
/// sub-type is marked as a closure).
#[derive(Clone, Debug)]
pub struct BoundsInfo {
    pub outlives: Vec<LifetimeName>,
    pub is_fn_like: bool,
}

/// Mathematical image of a [`BoundsInfo`].
pub ghost struct BoundsV {
    pub outlives: Seq<LifetimeName>,
    pub is_fn_like: bool,
}

/// The image of one generic parameter's bounds.
pub open spec fn bounds_v(b: BoundsInfo) -> BoundsV {
    BoundsV { outlives: b.outlives@, is_fn_like: b.is_fn_like }
}

/// The image of a bounds table keyed by a generic parameter's
/// declaration site.
pub open spec fn bmap_v(m: Seq<(u64, BoundsInfo)>) -> Seq<(u64, BoundsV)>
    decreases m,
{
    if m.len() == 0 {
        Seq::empty()
    } else {
        bmap_v(m.drop_last()).push((m.last().0, bounds_v(m.last().1)))
    }
}

/// `bmap_v` read off element by element.
pub proof fn lemma_bmap_v_index(m: Seq<(u64, BoundsInfo)>)
    ensures
        bmap_v(m).len() == m.len(),
        forall|i: int| 0 <= i < m.len() ==> #[trigger] bmap_v(m)[i] == (m[i].0, bounds_v(m[i].1)),
    decreases m,
{
    if m.len() > 0 {
        lemma_bmap_v_index(m.drop_last());
        assert forall|i: int| 0 <= i < m.len() implies #[trigger] bmap_v(m)[i] == (
            m[i].0,
            bounds_v(m[i].1),
        ) by {
            if i < m.len() - 1 {
                assert(m.drop_last()[i] == m[i]);
            }
        }
    }
}

/// The bounds recorded for declaration site `id`: the first matching
/// entry of the table, if any.
pub open spec fn find_bounds(m: Seq<(u64, BoundsV)>, id: u64) -> Option<BoundsV>
    decreases m,
{
    if m.len() == 0 {
        None
    } else if m[0].0 == id {
        Some(m[0].1)
    } else {
        find_bounds(m.subrange(1, m.len() as int), id)
    }
}

/// Looks up the bounds recorded for declaration site `id` in the table,
/// returning the index of the first matching entry.
pub fn lookup_bounds(m: &Vec<(u64, BoundsInfo)>, id: u64) -> (r: Option<usize>)
    ensures
        match r {
            Some(i) => i < m@.len() && m@[i as int].0 == id && find_bounds(bmap_v(m@), id)
                == Some(bounds_v(m@[i as int].1)),
            None => find_bounds(bmap_v(m@), id) is None,
        },
{
    proof {
        lemma_bmap_v_index(m@);
    }
    let ghost bm = bmap_v(m@);
    let n = m.len();
    assert(bm.subrange(0, n as int) =~= bm);
    for i in 0..n
        invariant
            n == m@.len(),
            bm == bmap_v(m@),
            bm.len() == n,
            forall|j: int| 0 <= j < bm.len() ==> #[trigger] bm[j] == (m@[j].0, bounds_v(m@[j].1)),
            find_bounds(bm.subrange(i as int, n as int), id) == find_bounds(bm, id),
    {
        assert(bm.subrange(i as int, n as int)[0] == bm[i as int]);
        if m[i].0 == id {
            return Some(i);
        }
        assert(bm.subrange(i as int, n as int).subrange(1, (n - i) as int)
            =~= bm.subrange(i + 1, n as int));
    }
    assert(bm.subrange(n as int, n as int).len() == 0);
    None
}

/// One field of a locally defined struct.
pub struct FieldDef {
    pub field_name: Option<String>,
    pub ty: TypeExpr,
}

/// One formal generic parameter of a struct declaration, identified by
/// its declaration site.
#[derive(Clone, Copy, Debug, PartialEq, Eq, Structural)]
pub enum GenericParamDef {
    Lifetime(u64),
    Type(u64),
}

/// A locally defined struct whose fields the walker can expand.
pub struct StructDef {
    pub def_id: u64,
    pub generics: Vec<GenericParamDef>,
    pub bounds: Vec<(u64, BoundsInfo)>,
    pub fields: Vec<FieldDef>,
    pub has_drop_impl: bool,
}

/// A local impl block a `Self` path can resolve through.
pub struct ImplDef {
    pub impl_id: u64,
    pub self_ty: TypeExpr,
    pub bounds: Vec<(u64, BoundsInfo)>,
}

/// Everything the walker can look up about the crate under analysis:
/// local struct definitions, local impl blocks, and the printable names
/// of lifetime parameters (used only when describing a violation).
pub struct CrateModel {
    pub structs: Vec<StructDef>,
    pub impls: Vec<ImplDef>,
    pub lifetime_idents: Vec<(u64, String)>,
}

/// Mathematical image of a [`FieldDef`].
pub ghost struct FieldDefV {
    pub name: Option<Seq<char>>,
    pub ty: TyV,
}

/// Mathematical image of a [`StructDef`].
pub ghost struct StructV {
    pub def_id: u64,
    pub generics: Seq<GenericParamDef>,
    pub bounds: Seq<(u64, BoundsV)>,
    pub fields: Seq<FieldDefV>,
    pub has_drop_impl: bool,
}

/// Mathematical image of an [`ImplDef`].
pub ghost struct ImplV {
    pub impl_id: u64,
    pub self_ty: TyV,
    pub bounds: Seq<(u64, BoundsV)>,
}

/// Mathematical image of a [`CrateModel`].
pub ghost struct CrateV {
    pub structs: Seq<StructV>,
    pub impls: Seq<ImplV>,
}

/// The image of an optional name.
pub open spec fn name_v(n: Option<String>) -> Option<Seq<char>> {
    match n {
        Some(s) => Some(s@),
        None => None,
    }
}

/// The image of one struct field definition.
pub open spec fn field_def_v(f: FieldDef) -> FieldDefV {
    FieldDefV { name: name_v(f.field_name), ty: ty_v(f.ty) }
}

/// The image of a field list.
pub open spec fn field_defs_v(s: Seq<FieldDef>) -> Seq<FieldDefV>
    decreases s,
{
    if s.len() == 0 {
        Seq::empty()
    } else {
        field_defs_v(s.drop_last()).push(field_def_v(s.last()))
    }
}

/// `field_defs_v` read off element by element.
pub proof fn lemma_field_defs_v_index(s: Seq<FieldDef>)
    ensures
        field_defs_v(s).len() == s.len(),
        forall|i: int| 0 <= i < s.len() ==> #[trigger] field_defs_v(s)[i] == field_def_v(s[i]),
    decreases s,
{
    if s.len() > 0 {
        lemma_field_defs_v_index(s.drop_last());
        assert forall|i: int| 0 <= i < s.len() implies #[trigger] field_defs_v(s)[i]
            == field_def_v(s[i]) by {
            if i < s.len() - 1 {
                assert(s.drop_last()[i] == s[i]);
            }
        }
    }
}

/// The image of one struct definition.
pub open spec fn struct_v(s: StructDef) -> StructV {
    StructV {
        def_id: s.def_id,
        generics: s.generics@,
        bounds: bmap_v(s.bounds@),
        fields: field_defs_v(s.fields@),
        has_drop_impl: s.has_drop_impl,
    }
}

/// The image of the struct table.
pub open spec fn structs_v(s: Seq<StructDef>) -> Seq<StructV>
    decreases s,
{
    if s.len() == 0 {
        Seq::empty()
    } else {
        structs_v(s.drop_last()).push(struct_v(s.last()))
    }
}

/// `structs_v` read off element by element.
pub proof fn lemma_structs_v_index(s: Seq<StructDef>)
    ensures
        structs_v(s).len() == s.len(),
        forall|i: int| 0 <= i < s.len() ==> #[trigger] structs_v(s)[i] == struct_v(s[i]),
    decreases s,
{
    if s.len() > 0 {
        lemma_structs_v_index(s.drop_last());
        assert forall|i: int| 0 <= i < s.len() implies #[trigger] structs_v(s)[i] == struct_v(
            s[i],
        ) by {
            if i < s.len() - 1 {
                assert(s.drop_last()[i] == s[i]);
            }
        }
    }
}

/// The image of one impl block.
pub open spec fn impl_v(s: ImplDef) -> ImplV {
    ImplV { impl_id: s.impl_id, self_ty: ty_v(s.self_ty), bounds: bmap_v(s.bounds@) }
}

/// The image of the impl table.
pub open spec fn impls_v(s: Seq<ImplDef>) -> Seq<ImplV>
    decreases s,
{
    if s.len() == 0 {
        Seq::empty()
    } else {
        impls_v(s.drop_last()).push(impl_v(s.last()))
    }
}

/// `impls_v` read off element by element.
pub proof fn lemma_impls_v_index(s: Seq<ImplDef>)
    ensures
        impls_v(s).len() == s.len(),
        forall|i: int| 0 <= i < s.len() ==> #[trigger] impls_v(s)[i] == impl_v(s[i]),
    decreases s,
{
    if s.len() > 0 {
        lemma_impls_v_index(s.drop_last());
        assert forall|i: int| 0 <= i < s.len() implies #[trigger] impls_v(s)[i] == impl_v(
            s[i],
        ) by {
            if i < s.len() - 1 {
                assert(s.drop_last()[i] == s[i]);
            }
        }
    }
}

/// The image of the crate context.
pub open spec fn crate_v(c: CrateModel) -> CrateV {
    CrateV { structs: structs_v(c.structs@), impls: impls_v(c.impls@) }
}

/// Metadata recorded on a field projection: the field's index, its
/// declared name when it has one, and the declaration site of the struct
/// that owns it.
#[derive(Clone, Debug)]
pub struct FieldInfo {
    pub field_num: usize,
    pub field_name: Option<String>,
    pub struct_def_id: Option<u64>,
}

/// One step on the path from a root value to a sub-value: follow one
/// level of indirection, or select one field.
#[derive(Clone, Debug)]
pub enum MyProjection {
    MyDeref,
    MyField(FieldInfo),
}

/// Mathematical image of a [`FieldInfo`].
pub ghost struct FieldV {
    pub num: usize,
    pub name: Option<Seq<char>>,
    pub owner: Option<u64>,
}

/// Mathematical image of a [`MyProjection`].
pub ghost enum ProjV {
    Deref,
    Field(FieldV),
}

impl View for FieldInfo {
    type V = FieldV;

    open spec fn view(&self) -> FieldV {
        FieldV { num: self.field_num, name: name_v(self.field_name), owner: self.struct_def_id }
    }
}

impl View for MyProjection {
    type V = ProjV;

    open spec fn view(&self) -> ProjV {
        match self {
            MyProjection::MyDeref => ProjV::Deref,
            MyProjection::MyField(f) => ProjV::Field(f@),
        }
    }
}

/// One reachable piece of data inside a type: the nominal identity it
/// carries (if any), the hop stack bounding it ordered outermost first,
/// the projection path that reaches it from the root, whether the path
/// passes through at least one struct field, and whether it stands for a
/// closure-bounded generic.
#[derive(Clone, Debug)]
pub struct ShortLivedType {
    pub def_id: Option<u64>,
    pub lifetimes: Vec<MyLifetime>,
    pub projection: Vec<MyProjection>,
    pub in_struct: bool,
    pub is_closure: bool,
}

/// Mathematical image of a [`ShortLivedType`].
pub ghost struct SubTypeV {
    pub def_id: Option<u64>,
    pub hops: Seq<HopV>,
    pub proj: Seq<ProjV>,
    pub in_struct: bool,
    pub is_closure: bool,
}

impl View for ShortLivedType {
    type V = SubTypeV;

    open spec fn view(&self) -> SubTypeV {
        SubTypeV {
            def_id: self.def_id,
            hops: self.lifetimes@.map_values(|h: MyLifetime| h@),
            proj: self.projection@.map_values(|p: MyProjection| p@),
            in_struct: self.in_struct,
            is_closure: self.is_closure,
        }
    }
}

} // verus!
