//! Lifetime identities and substitution.

use yuga::lifetimes::{apply_remap, compare_lifetimes, LifetimeName};

#[test]
fn named_tags_compare_by_declaration_site() {
    assert!(compare_lifetimes(&LifetimeName::Param(3), &LifetimeName::Param(3)));
    assert!(!compare_lifetimes(&LifetimeName::Param(3), &LifetimeName::Param(4)));
    assert!(compare_lifetimes(&LifetimeName::Static, &LifetimeName::Static));
    assert!(!compare_lifetimes(&LifetimeName::Static, &LifetimeName::Param(3)));
}

#[test]
fn remap_substitutes_mapped_tags_only() {
    let remap = vec![
        (LifetimeName::Param(1), LifetimeName::Param(7)),
        (LifetimeName::Param(2), LifetimeName::Static),
    ];
    assert_eq!(apply_remap(LifetimeName::Param(1), &remap), LifetimeName::Param(7));
    assert_eq!(apply_remap(LifetimeName::Param(2), &remap), LifetimeName::Static);
    assert_eq!(apply_remap(LifetimeName::Param(9), &remap), LifetimeName::Param(9));
    assert_eq!(apply_remap(LifetimeName::Static, &remap), LifetimeName::Static);
}

#[test]
fn remap_takes_the_first_matching_entry() {
    let remap = vec![
        (LifetimeName::Param(1), LifetimeName::Param(7)),
        (LifetimeName::Param(1), LifetimeName::Param(8)),
    ];
    assert_eq!(apply_remap(LifetimeName::Param(1), &remap), LifetimeName::Param(7));
}
