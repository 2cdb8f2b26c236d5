//! The report sink, the rendered descriptions, and the configuration.

use yuga::config::{Verbosity, YugaConfig};
use yuga::driver::{Report as DriverReport, ViolationKind};
use yuga::lifetimes::{LifetimeName, MyLifetime};
use yuga::report::{
    arg_return_uaf_report, decompose_projection_as_str, get_string_from_lifetimes,
    init_report_logger, usize_to_string, yuga_report, Report, ReportLevel,
};
use yuga::types::{CrateModel, FieldInfo, MyProjection, ShortLivedType};

fn ctx_with_idents() -> CrateModel {
    CrateModel {
        structs: Vec::new(),
        impls: Vec::new(),
        lifetime_idents: vec![(1, String::from("'a")), (2, String::from("'b"))],
    }
}

#[test]
fn sink_collects_reports_in_order() {
    let mut handle = init_report_logger();
    assert_eq!(handle.len(), 0);
    yuga_report(
        &mut handle,
        Report::new(
            ReportLevel::Warning,
            String::from("LifetimeChecker"),
            String::from("first"),
            String::from("here"),
            String::from("fn f() {}"),
        ),
    );
    yuga_report(
        &mut handle,
        Report::new(
            ReportLevel::Error,
            String::from("LifetimeChecker"),
            String::from("second"),
            String::from("there"),
            String::from("fn g() {}"),
        ),
    );
    assert_eq!(handle.len(), 2);
    let taken = handle.take_reports();
    assert_eq!(taken.len(), 2);
    assert_eq!(taken[0].description, String::from("first"));
    assert_eq!(taken[1].description, String::from("second"));
    assert_eq!(handle.len(), 0);
}

#[test]
fn report_levels_rank_and_name() {
    assert_eq!(ReportLevel::Error.rank(), 2);
    assert_eq!(ReportLevel::Warning.rank(), 1);
    assert_eq!(ReportLevel::Info.rank(), 0);
    assert_eq!(ReportLevel::Error.name(), String::from("Error"));
    assert_eq!(ReportLevel::Info.name(), String::from("Info"));
}

#[test]
fn default_configuration_matches_the_command_line() {
    let cfg = YugaConfig::default();
    assert_eq!(cfg.verbosity, Verbosity::Normal);
    assert_eq!(cfg.report_level, ReportLevel::Info);
    assert!(!cfg.generic_matches_all);
    assert!(cfg.wildcard_field);
    assert!(cfg.pub_only);
    assert!(cfg.shallow_filter);
    assert!(cfg.alias_analysis);
    assert!(!cfg.no_mir);
    assert!(!cfg.filter_by_drop_impl);
    assert!(!cfg.keep_all_violations);
    assert!(cfg.debug_fn.is_none());
    assert_eq!(cfg.report_dir, String::from("yuga_reports"));
}

#[test]
fn decimal_rendering_is_exact() {
    assert_eq!(usize_to_string(0), String::from("0"));
    assert_eq!(usize_to_string(7), String::from("7"));
    assert_eq!(usize_to_string(10), String::from("10"));
    assert_eq!(usize_to_string(90217), String::from("90217"));
}

#[test]
fn projection_path_renders_derefs_and_fields() {
    let proj = vec![
        MyProjection::MyDeref,
        MyProjection::MyField(FieldInfo {
            field_num: 0,
            field_name: Some(String::from("p")),
            struct_def_id: Some(100),
        }),
        MyProjection::MyDeref,
    ];
    let s = decompose_projection_as_str(&proj, String::from("s"));
    assert_eq!(s, String::from("*(*(s).p)"));

    let unnamed = vec![MyProjection::MyField(FieldInfo {
        field_num: 2,
        field_name: None,
        struct_def_id: None,
    })];
    let t = decompose_projection_as_str(&unnamed, String::from("x"));
    assert_eq!(t, String::from("x.2"));
}

#[test]
fn lifetime_descriptions_spell_out_tags() {
    let ctx = ctx_with_idents();
    let none: Vec<LifetimeName> = Vec::new();
    assert_eq!(
        get_string_from_lifetimes(&none, &ctx),
        String::from("lives for the entire duration that it is owned"),
    );
    let named = vec![LifetimeName::Param(1), LifetimeName::Param(2)];
    assert_eq!(
        get_string_from_lifetimes(&named, &ctx),
        String::from("outlives the lifetime corresponding to `'a`, `'b`, "),
    );
    let anon = vec![LifetimeName::Param(9)];
    assert_eq!(
        get_string_from_lifetimes(&anon, &ctx),
        String::from("outlives the lifetime corresponding to `'_`, "),
    );
    let stat = vec![LifetimeName::Static];
    assert_eq!(
        get_string_from_lifetimes(&stat, &ctx),
        String::from("lives for the entire lifetime of the running program (`'static`)"),
    );
}

fn sample_report() -> DriverReport {
    let src = ShortLivedType {
        def_id: None,
        lifetimes: vec![MyLifetime {
            names: vec![LifetimeName::Param(1)],
            is_mut: false,
            is_raw: true,
            is_refcell: false,
        }],
        projection: vec![
            MyProjection::MyField(FieldInfo {
                field_num: 0,
                field_name: Some(String::from("p")),
                struct_def_id: Some(100),
            }),
            MyProjection::MyDeref,
        ],
        in_struct: true,
        is_closure: false,
    };
    let tgt = ShortLivedType {
        def_id: None,
        lifetimes: vec![MyLifetime {
            names: vec![LifetimeName::Static],
            is_mut: false,
            is_raw: false,
            is_refcell: false,
        }],
        projection: vec![MyProjection::MyDeref],
        in_struct: false,
        is_closure: false,
    };
    DriverReport {
        func_name: String::from("get"),
        error_type: String::from("uaf"),
        kind: ViolationKind::ReturnEscape,
        inp_num: 0,
        inp_num2: None,
        src_ty: src,
        tgt_ty: tgt,
        src_bounding: vec![LifetimeName::Param(1)],
        tgt_bounding: vec![LifetimeName::Static],
    }
}

#[test]
fn uaf_report_renders_markdown_and_html() {
    let ctx = ctx_with_idents();
    let report = sample_report();
    let (markdown, html) = arg_return_uaf_report(&report, &String::from("s"), &ctx);
    assert!(markdown.starts_with("## Potential use-after-free!\n"));
    assert!(markdown.contains("*(s.p)"));
    assert!(markdown.contains("`'a`"));
    assert!(markdown.contains("lives for the entire lifetime of the running program"));
    // The HTML really went through the markdown renderer: the heading
    // became an element, so the text differs from its markdown source.
    assert!(html.contains("<h2>"));
    assert_ne!(html, markdown);
}
