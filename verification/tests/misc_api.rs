//! Smaller pieces of the public surface.

use yuga::analysis::{AnalysisErrorKind, AnalysisKind, Constraint, ConstraintSet};
use yuga::config::Precision;
use yuga::driver::{short_name, str_contains};
use yuga::lifetimes::LifetimeName;
use yuga::process::is_self;
use yuga::report::{arg_arg_uaf_report, arg_return_mut_report, generate_llm_query};
use yuga::types::{CrateModel, MyProjection, ShortLivedType, TypeExpr};

#[test]
fn short_name_takes_the_last_segment() {
    assert_eq!(short_name(&String::from("module::Type::method")), String::from("method"));
    assert_eq!(short_name(&String::from("plain")), String::from("plain"));
    assert_eq!(short_name(&String::from("x::")), String::from(""));
}

#[test]
fn substring_search_finds_runs() {
    assert!(str_contains(&String::from("Iterator<Item = u8>"), "Iterator"));
    assert!(str_contains(&String::from("abc"), ""));
    assert!(!str_contains(&String::from("DoubleEndedIter"), "Iterator"));
}

#[test]
fn self_paths_are_recognized() {
    assert!(is_self(&TypeExpr::SelfAlias { impl_id: 3 }));
    assert!(!is_self(&TypeExpr::Primitive));
}

#[test]
fn enums_compare_by_variant() {
    assert_eq!(AnalysisKind::LifetimeChecker.name(), String::from("LifetimeChecker"));
    assert_ne!(AnalysisErrorKind::Unreachable, AnalysisErrorKind::OutOfScope);
    assert_ne!(Precision::LOW, Precision::HIGH);
    assert_eq!(Constraint::Copy(3), Constraint::Copy(3));
    assert_ne!(Constraint::Copy(3), Constraint::Load(3));
}

fn raw_source() -> ShortLivedType {
    ShortLivedType {
        def_id: None,
        lifetimes: vec![yuga::lifetimes::MyLifetime {
            names: vec![LifetimeName::Param(1)],
            is_mut: true,
            is_raw: true,
            is_refcell: false,
        }],
        projection: vec![MyProjection::MyDeref],
        in_struct: true,
        is_closure: false,
    }
}

fn borrowed_target() -> ShortLivedType {
    ShortLivedType {
        def_id: None,
        lifetimes: vec![yuga::lifetimes::MyLifetime {
            names: vec![LifetimeName::Param(2)],
            is_mut: false,
            is_raw: false,
            is_refcell: false,
        }],
        projection: vec![MyProjection::MyDeref],
        in_struct: false,
        is_closure: false,
    }
}

fn ctx() -> CrateModel {
    CrateModel {
        structs: Vec::new(),
        impls: Vec::new(),
        lifetime_idents: vec![(1, String::from("'a")), (2, String::from("'b"))],
    }
}

fn sample_report(kind: yuga::driver::ViolationKind) -> yuga::driver::Report {
    yuga::driver::Report {
        func_name: String::from("f"),
        error_type: String::from("uaf"),
        kind,
        inp_num: 0,
        inp_num2: None,
        src_ty: raw_source(),
        tgt_ty: borrowed_target(),
        src_bounding: vec![LifetimeName::Param(1)],
        tgt_bounding: vec![LifetimeName::Param(2)],
    }
}

#[test]
fn aliased_mutability_report_renders() {
    let report = sample_report(yuga::driver::ViolationKind::MutableAliasing);
    let (markdown, html) = arg_return_mut_report(&report, &String::from("x"), &ctx());
    assert!(markdown.starts_with("## Potential aliased mutability!\n"));
    assert!(markdown.contains("`*(x)`"));
    assert!(markdown.contains("`'b`"));
    assert!(html.contains("<h2>"));
}

#[test]
fn cross_argument_report_names_both_arguments() {
    let report = sample_report(yuga::driver::ViolationKind::ArgArgEscape);
    let (markdown, _html) = arg_arg_uaf_report(&report, &String::from("a"), &String::from("b"), &ctx());
    assert!(markdown.contains("`*(a)`"));
    assert!(markdown.contains("`*(b)`"));
}

#[test]
fn ownership_question_names_the_flagged_value() {
    let q = generate_llm_query(String::from("x"), &raw_source());
    assert!(q.contains("an argument `x`"));
    assert!(q.contains("does `*(x)` also get dropped?"));
    assert!(q.ends_with("'Yes' or 'No'"));
}

struct TwoCopies;

impl ConstraintSet for TwoCopies {
    fn num_locations(&self) -> usize {
        2
    }

    fn constraints(&self) -> Vec<(usize, Constraint)> {
        vec![(0, Constraint::AddrOf(1)), (1, Constraint::Copy(0))]
    }
}

#[test]
fn constraint_sets_hand_out_their_constraints() {
    let cs = TwoCopies;
    assert_eq!(cs.num_locations(), 2);
    let all = cs.constraints();
    assert_eq!(all.len(), 2);
    assert_eq!(all[1], (1, Constraint::Copy(0)));
}
