//! End-to-end runs of the analysis driver on modeled functions.

use yuga::config::YugaConfig;
use yuga::driver::{analyze, LifetimeChecker, MirFunc, ParamInfo, ViolationKind};
use yuga::lifetimes::LifetimeName;
use yuga::mir::{BasicBlock, Body, Operand, Place, PlaceElem, Rvalue, Statement, Terminator};
use yuga::types::{
    ArgList, CrateModel, FieldDef, GenericParamDef, NominalKind, StructDef, TypeExpr,
};

fn prim() -> TypeExpr {
    TypeExpr::Primitive
}

fn ref_to(id: u64, is_mut: bool, inner: TypeExpr) -> TypeExpr {
    TypeExpr::Ref { lifetime: LifetimeName::Param(id), is_mut, inner: Box::new(inner) }
}

fn raw_ptr(is_mut: bool, inner: TypeExpr) -> TypeExpr {
    TypeExpr::RawPtr { is_mut, inner: Box::new(inner) }
}

fn empty_body() -> Body {
    Body { blocks: vec![BasicBlock { statements: Vec::new(), terminator: Terminator::Other }] }
}

fn place(l: u64, proj: Vec<PlaceElem>) -> Place {
    Place { local: l, projection: proj }
}

/// The crate context holding `struct S<'a> { p: *const i32 }`.
fn s_context() -> CrateModel {
    CrateModel {
        structs: vec![StructDef {
            def_id: 100,
            generics: vec![GenericParamDef::Lifetime(1)],
            bounds: Vec::new(),
            fields: vec![FieldDef {
                field_name: Some(String::from("p")),
                ty: raw_ptr(false, prim()),
            }],
            has_drop_impl: false,
        }],
        impls: Vec::new(),
        lifetime_idents: vec![(1, String::from("'a"))],
    }
}

/// `fn get(s: &'c S<'b>) -> &'d i32` with the given body.
fn get_func(body: Body) -> MirFunc {
    MirFunc {
        func_name: String::from("S::get"),
        impl_trait: String::new(),
        is_public: true,
        is_unsafe: false,
        inputs: vec![ref_to(
            3,
            false,
            TypeExpr::Named {
                def_id: 100,
                kind: NominalKind::Plain,
                args: ArgList::LtCons(LifetimeName::Param(2), Box::new(ArgList::Nil)),
            },
        )],
        output: Some(ref_to(4, false, prim())),
        generic_bounds: Vec::new(),
        lifetime_bounds: Vec::new(),
        params: vec![ParamInfo { name: String::from("s"), local: Some(1) }],
        mir_body: body,
    }
}

/// A body that returns a reborrow of the value behind `s.p`.
fn body_returning_through_p() -> Body {
    Body {
        blocks: vec![BasicBlock {
            statements: vec![
                Statement::Assign(
                    place(2, vec![]),
                    Rvalue::Use(Operand::Copy(place(1, vec![
                        PlaceElem::Deref,
                        PlaceElem::Field(0),
                    ]))),
                ),
                Statement::Assign(place(0, vec![]), Rvalue::Ref(place(2, vec![PlaceElem::Deref]))),
            ],
            terminator: Terminator::Other,
        }],
    }
}

/// A body that returns a borrow of an unrelated local.
fn body_returning_unrelated() -> Body {
    Body {
        blocks: vec![BasicBlock {
            statements: vec![
                Statement::Assign(place(2, vec![]), Rvalue::Use(Operand::Copy(place(5, vec![])))),
                Statement::Assign(place(0, vec![]), Rvalue::Ref(place(2, vec![PlaceElem::Deref]))),
            ],
            terminator: Terminator::Other,
        }],
    }
}

#[test]
fn reading_through_struct_raw_pointer_is_confirmed() {
    // The raw-pointer hop inherits the struct's lifetime argument; the
    // return borrow is not accounted for; the dataflow pass confirms
    // the body that really reads through `s.p`.
    let ctx = s_context();
    let func = get_func(body_returning_through_p());
    let checker = LifetimeChecker::new(&ctx, YugaConfig::default());
    let reports = checker.check_arg_return_violations(&func);
    assert_eq!(reports.len(), 1);
    assert_eq!(reports[0].kind, ViolationKind::ReturnEscape);
    assert_eq!(reports[0].inp_num, 0);
    assert_eq!(reports[0].src_bounding, vec![LifetimeName::Param(2)]);
    assert_eq!(reports[0].tgt_bounding, vec![LifetimeName::Param(4)]);
}

#[test]
fn unrelated_body_is_not_confirmed() {
    let ctx = s_context();
    let func = get_func(body_returning_unrelated());
    let checker = LifetimeChecker::new(&ctx, YugaConfig::default());
    let reports = checker.check_arg_return_violations(&func);
    assert!(reports.is_empty());
}

#[test]
fn taint_strategy_agrees_on_the_scenario() {
    let ctx = s_context();
    let mut cfg = YugaConfig::default();
    cfg.alias_analysis = false;
    let checker = LifetimeChecker::new(&ctx, cfg);
    let confirmed = checker.check_arg_return_violations(&get_func(body_returning_through_p()));
    assert_eq!(confirmed.len(), 1);
    let mut cfg2 = YugaConfig::default();
    cfg2.alias_analysis = false;
    let checker2 = LifetimeChecker::new(&ctx, cfg2);
    let negative = checker2.check_arg_return_violations(&get_func(body_returning_unrelated()));
    assert!(negative.is_empty());
}

#[test]
fn plain_borrow_of_primitive_yields_no_candidates() {
    // `fn noop<'a>(x: &'a i32) -> i32`: the return decomposes to the
    // owned primitive only; zero violations.
    let ctx = CrateModel { structs: Vec::new(), impls: Vec::new(), lifetime_idents: Vec::new() };
    let func = MirFunc {
        func_name: String::from("noop"),
        impl_trait: String::new(),
        is_public: true,
        is_unsafe: false,
        inputs: vec![ref_to(1, false, prim())],
        output: Some(prim()),
        generic_bounds: Vec::new(),
        lifetime_bounds: Vec::new(),
        params: vec![ParamInfo { name: String::from("x"), local: Some(1) }],
        mir_body: empty_body(),
    };
    let reports = analyze(&ctx, &vec![func], YugaConfig::default());
    assert!(reports.is_empty());
}

#[test]
fn unsafe_and_private_functions_are_skipped() {
    let ctx = s_context();
    let mut func = get_func(body_returning_through_p());
    func.is_unsafe = true;
    let reports = analyze(&ctx, &vec![func], YugaConfig::default());
    assert!(reports.is_empty());

    let mut func2 = get_func(body_returning_through_p());
    func2.is_public = false;
    let reports2 = analyze(&ctx, &vec![func2], YugaConfig::default());
    assert!(reports2.is_empty());

    let mut cfg = YugaConfig::default();
    cfg.pub_only = false;
    let mut func3 = get_func(body_returning_through_p());
    func3.is_public = false;
    let reports3 = analyze(&ctx, &vec![func3], cfg);
    assert_eq!(reports3.len(), 1);
}

#[test]
fn shallow_filter_skips_clone_and_iterator_shapes() {
    let ctx = s_context();
    let mut func = get_func(body_returning_through_p());
    func.func_name = String::from("S::clone");
    let reports = analyze(&ctx, &vec![func], YugaConfig::default());
    assert!(reports.is_empty());

    let mut func2 = get_func(body_returning_through_p());
    func2.func_name = String::from("S::next");
    func2.impl_trait = String::from("Iterator<Item = u8>");
    let reports2 = analyze(&ctx, &vec![func2], YugaConfig::default());
    assert!(reports2.is_empty());

    // The same shapes are analyzed when the filter is off.
    let mut cfg = YugaConfig::default();
    cfg.shallow_filter = false;
    let mut func3 = get_func(body_returning_through_p());
    func3.func_name = String::from("S::clone");
    let reports3 = analyze(&ctx, &vec![func3], cfg);
    assert_eq!(reports3.len(), 1);
}

#[test]
fn report_carries_the_short_function_name() {
    let ctx = s_context();
    let func = get_func(body_returning_through_p());
    let reports = analyze(&ctx, &vec![func], YugaConfig::default());
    assert_eq!(reports.len(), 1);
    assert_eq!(reports[0].func_name, String::from("get"));
    assert_eq!(reports[0].error_type, String::from("uaf"));
}

#[test]
fn no_mir_mode_confirms_structural_candidates() {
    // The always-true strategy confirms the flagged pair even with an
    // empty body.
    let ctx = s_context();
    let mut cfg = YugaConfig::default();
    cfg.no_mir = true;
    let func = get_func(empty_body());
    let reports = analyze(&ctx, &vec![func], cfg);
    assert_eq!(reports.len(), 1);
}

#[test]
fn cross_argument_escape_is_reported() {
    // `fn put(dst: &'a mut &'b i32, src: &'c S<'d>)` writing the
    // value behind `src.p` into `*dst`: the source argument's data
    // escapes into a writable position of another argument.
    let ctx = s_context();
    let body = Body {
        blocks: vec![BasicBlock {
            statements: vec![
                Statement::Assign(
                    place(3, vec![]),
                    Rvalue::Use(Operand::Copy(place(2, vec![
                        PlaceElem::Deref,
                        PlaceElem::Field(0),
                    ]))),
                ),
                Statement::Assign(
                    place(1, vec![PlaceElem::Deref]),
                    Rvalue::Ref(place(3, vec![PlaceElem::Deref])),
                ),
            ],
            terminator: Terminator::Other,
        }],
    };
    let func = MirFunc {
        func_name: String::from("put"),
        impl_trait: String::new(),
        is_public: true,
        is_unsafe: false,
        inputs: vec![
            ref_to(5, true, ref_to(6, false, prim())),
            ref_to(
                3,
                false,
                TypeExpr::Named {
                    def_id: 100,
                    kind: NominalKind::Plain,
                    args: ArgList::LtCons(LifetimeName::Param(2), Box::new(ArgList::Nil)),
                },
            ),
        ],
        output: None,
        generic_bounds: Vec::new(),
        lifetime_bounds: Vec::new(),
        params: vec![
            ParamInfo { name: String::from("dst"), local: Some(1) },
            ParamInfo { name: String::from("src"), local: Some(2) },
        ],
        mir_body: body,
    };
    let checker = LifetimeChecker::new(&ctx, YugaConfig::default());
    let reports = checker.check_arg_arg_violations(&func);
    assert_eq!(reports.len(), 1);
    assert_eq!(reports[0].kind, ViolationKind::ArgArgEscape);
    assert_eq!(reports[0].inp_num, 1);
    assert_eq!(reports[0].inp_num2, Some(0));
}

#[test]
fn keeping_all_violations_is_configurable() {
    // With two return sub-type candidates confirmed, the default keeps
    // only the first; the knob keeps both.
    let ctx = s_context();
    let mut cfg = YugaConfig::default();
    cfg.no_mir = true;
    let mut func = get_func(empty_body());
    // Return two references to the struct's data: a tuple of borrows.
    func.output = Some(TypeExpr::Tuple {
        elems: yuga::types::TypeList::Cons(
            Box::new(ref_to(4, false, prim())),
            Box::new(yuga::types::TypeList::Cons(
                Box::new(ref_to(5, false, prim())),
                Box::new(yuga::types::TypeList::Nil),
            )),
        ),
    });
    let first_only = analyze(&ctx, &vec![func], cfg);
    assert_eq!(first_only.len(), 1);

    let mut cfg2 = YugaConfig::default();
    cfg2.no_mir = true;
    cfg2.keep_all_violations = true;
    let mut func2 = get_func(empty_body());
    func2.output = Some(TypeExpr::Tuple {
        elems: yuga::types::TypeList::Cons(
            Box::new(ref_to(4, false, prim())),
            Box::new(yuga::types::TypeList::Cons(
                Box::new(ref_to(5, false, prim())),
                Box::new(yuga::types::TypeList::Nil),
            )),
        ),
    });
    let all = analyze(&ctx, &vec![func2], cfg2);
    assert_eq!(all.len(), 2);
}
