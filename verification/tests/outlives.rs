//! Structural classification of (source, target) sub-type pairs.

use yuga::checks::{arg_arg_outlives, arg_return_mut, arg_return_outlives};
use yuga::config::YugaConfig;
use yuga::lifetimes::{LifetimeName, MyLifetime};
use yuga::types::{CrateModel, MyProjection, ShortLivedType};

fn ctx() -> CrateModel {
    CrateModel { structs: Vec::new(), impls: Vec::new(), lifetime_idents: Vec::new() }
}

fn hop(names: Vec<LifetimeName>, is_mut: bool, is_raw: bool, is_refcell: bool) -> MyLifetime {
    MyLifetime { names, is_mut, is_raw, is_refcell }
}

fn subtype(hops: Vec<MyLifetime>, in_struct: bool) -> ShortLivedType {
    ShortLivedType {
        def_id: None,
        lifetimes: hops,
        projection: vec![MyProjection::MyDeref],
        in_struct,
        is_closure: false,
    }
}

fn no_bounds() -> Vec<(LifetimeName, LifetimeName)> {
    Vec::new()
}

#[test]
fn owned_source_never_escapes() {
    // A source without any tag owns its data outright: no violation,
    // whatever the target looks like.
    let src = subtype(vec![hop(Vec::new(), false, true, false)], true);
    let tgt = subtype(vec![hop(vec![LifetimeName::Static], false, false, false)], false);
    let r = arg_return_outlives(&src, &tgt, &no_bounds(), &ctx(), &YugaConfig::default());
    assert!(!r.0);
}

#[test]
fn struct_housed_raw_source_escapes_into_static_target() {
    // A struct-housed raw pointer bounded by 'a, returned behind a
    // 'static borrow: fires without any dataflow involved.
    let src = subtype(
        vec![hop(vec![LifetimeName::Param(1)], false, true, false)],
        true,
    );
    let tgt = subtype(vec![hop(vec![LifetimeName::Static], false, false, false)], false);
    let r = arg_return_outlives(&src, &tgt, &no_bounds(), &ctx(), &YugaConfig::default());
    assert!(r.0);
    assert_eq!(r.1.0, vec![LifetimeName::Param(1)]);
    assert_eq!(r.1.1, vec![LifetimeName::Static]);
}

#[test]
fn matching_tags_are_compatible() {
    // Source 'a against target 'a: every source tag is accounted for.
    let src = subtype(
        vec![hop(vec![LifetimeName::Param(1)], false, true, false)],
        true,
    );
    let tgt = subtype(vec![hop(vec![LifetimeName::Param(1)], false, false, false)], false);
    let r = arg_return_outlives(&src, &tgt, &no_bounds(), &ctx(), &YugaConfig::default());
    assert!(!r.0);
}

#[test]
fn outlives_bound_suppresses_the_violation() {
    // Source 'a against target 'b fires; with the bound "'a outlives
    // 'b" recorded it does not.
    let src = subtype(
        vec![hop(vec![LifetimeName::Param(1)], false, true, false)],
        true,
    );
    let tgt = subtype(vec![hop(vec![LifetimeName::Param(2)], false, false, false)], false);
    let r = arg_return_outlives(&src, &tgt, &no_bounds(), &ctx(), &YugaConfig::default());
    assert!(r.0);
    assert_eq!(r.1.0, vec![LifetimeName::Param(1)]);
    let bounds = vec![(LifetimeName::Param(1), LifetimeName::Param(2))];
    let r2 = arg_return_outlives(&src, &tgt, &bounds, &ctx(), &YugaConfig::default());
    assert!(!r2.0);
}

#[test]
fn interior_mutability_hops_are_skipped() {
    // A cell hop inside the chain is ignored when locating the
    // bounding hop.
    let src = ShortLivedType {
        def_id: None,
        lifetimes: vec![
            hop(vec![LifetimeName::Param(1)], false, true, false),
            hop(Vec::new(), false, false, true),
        ],
        projection: vec![MyProjection::MyDeref],
        in_struct: true,
        is_closure: false,
    };
    let tgt = subtype(vec![hop(vec![LifetimeName::Static], false, false, false)], false);
    let r = arg_return_outlives(&src, &tgt, &no_bounds(), &ctx(), &YugaConfig::default());
    assert!(r.0);
}

#[test]
fn mutable_aliasing_needs_mutable_raw_source() {
    // &'a S where S holds *mut data: the source's innermost hop is a
    // mutable raw pointer housed in a struct; the outer hop's 'a is
    // the bounding tag; the target is a plain borrow of 'b.
    let src = ShortLivedType {
        def_id: None,
        lifetimes: vec![
            hop(vec![LifetimeName::Param(1)], false, false, false),
            hop(Vec::new(), true, true, false),
        ],
        projection: vec![MyProjection::MyDeref],
        in_struct: true,
        is_closure: false,
    };
    let tgt = subtype(vec![hop(vec![LifetimeName::Param(2)], false, false, false)], false);
    let r = arg_return_mut(&src, &tgt, &no_bounds(), &YugaConfig::default());
    assert!(r.0);
    assert_eq!(r.1.0, vec![LifetimeName::Param(1)]);

    // An immutable innermost hop cannot break exclusivity.
    let src_imm = ShortLivedType {
        def_id: None,
        lifetimes: vec![
            hop(vec![LifetimeName::Param(1)], false, false, false),
            hop(Vec::new(), false, true, false),
        ],
        projection: vec![MyProjection::MyDeref],
        in_struct: true,
        is_closure: false,
    };
    let r2 = arg_return_mut(&src_imm, &tgt, &no_bounds(), &YugaConfig::default());
    assert!(!r2.0);
}

#[test]
fn arg_arg_escape_needs_writable_target() {
    // Source: struct-housed raw tagged 'a. Target: data behind
    // &'b mut &'c: the position is writable, so the pair fires.
    let src = subtype(
        vec![hop(vec![LifetimeName::Param(1)], false, true, false)],
        true,
    );
    let tgt = ShortLivedType {
        def_id: None,
        lifetimes: vec![
            hop(vec![LifetimeName::Param(2)], true, false, false),
            hop(vec![LifetimeName::Param(3)], false, false, false),
        ],
        projection: vec![MyProjection::MyDeref],
        in_struct: false,
        is_closure: false,
    };
    let r = arg_arg_outlives(&src, &tgt, &no_bounds(), &YugaConfig::default());
    assert!(r.0);

    // Behind an immutable outer borrow the target cannot be written.
    let tgt_imm = ShortLivedType {
        def_id: None,
        lifetimes: vec![
            hop(vec![LifetimeName::Param(2)], false, false, false),
            hop(vec![LifetimeName::Param(3)], false, false, false),
        ],
        projection: vec![MyProjection::MyDeref],
        in_struct: false,
        is_closure: false,
    };
    let r2 = arg_arg_outlives(&src, &tgt_imm, &no_bounds(), &YugaConfig::default());
    assert!(!r2.0);
}
