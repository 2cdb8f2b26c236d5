//! Taint propagation and points-to analysis over small bodies.

use yuga::config::YugaConfig;
use yuga::mir::{BasicBlock, Body, Operand, Place, PlaceElem, Rvalue, Statement, Terminator};
use yuga::taint::TaintAnalyzer;
use yuga::alias::AliasAnalyzer;
use yuga::types::MyProjection;

fn local(l: u64) -> Place {
    Place { local: l, projection: Vec::new() }
}

fn place(l: u64, proj: Vec<PlaceElem>) -> Place {
    Place { local: l, projection: proj }
}

fn assign_copy(dst: Place, src: Place) -> Statement {
    Statement::Assign(dst, Rvalue::Use(Operand::Copy(src)))
}

fn one_block(statements: Vec<Statement>) -> Body {
    Body { blocks: vec![BasicBlock { statements, terminator: Terminator::Other }] }
}

#[test]
fn taint_flows_through_copy_chain() {
    // tmp = copy(x); y = copy(tmp): the seed on x reaches y.
    let x = 1u64;
    let tmp = 2u64;
    let y = 3u64;
    let body = one_block(vec![
        assign_copy(local(tmp), local(x)),
        assign_copy(local(y), local(tmp)),
    ]);
    let mut ta = TaintAnalyzer::new(&body, YugaConfig::default());
    ta.mark_taint(x, None);
    assert!(ta.check_taint(y, None));
}

#[test]
fn taint_does_not_flow_without_a_path() {
    // With no path from x to y the query is negative.
    let body = one_block(vec![assign_copy(local(4), local(5))]);
    let mut ta = TaintAnalyzer::new(&body, YugaConfig::default());
    ta.mark_taint(1, None);
    assert!(!ta.check_taint(3, None));
}

#[test]
fn taint_clear_resets_marks() {
    let body = one_block(vec![assign_copy(local(2), local(1))]);
    let mut ta = TaintAnalyzer::new(&body, YugaConfig::default());
    ta.mark_taint(1, None);
    assert!(ta.check_taint(2, None));
    ta.clear_taint();
    assert!(!ta.check_taint(2, None));
}

#[test]
fn taint_is_field_sensitive_one_level() {
    // y.0 = copy(x.1): a seed on x's field 1 taints y's field 0 but
    // not y's field 1; a seed on a different field of x does nothing.
    let body = one_block(vec![Statement::Assign(
        place(2, vec![PlaceElem::Field(0)]),
        Rvalue::Use(Operand::Copy(place(1, vec![PlaceElem::Field(1)]))),
    )]);
    let mut ta = TaintAnalyzer::new(&body, YugaConfig::default());
    ta.mark_taint(1, Some(1));
    assert!(ta.check_taint(2, Some(0)));
    assert!(!ta.check_taint(2, Some(1)));
    ta.clear_taint();
    ta.mark_taint(1, Some(0));
    assert!(!ta.check_taint(2, Some(0)));
}

#[test]
fn taint_call_connects_arguments_and_destination() {
    // r = f(a, b): arguments flow to the destination and to each
    // other, modeling unknown callee effects.
    let body = Body {
        blocks: vec![BasicBlock {
            statements: Vec::new(),
            terminator: Terminator::Call {
                args: vec![Operand::Copy(local(1)), Operand::Copy(local(2))],
                destination: local(3),
            },
        }],
    };
    let mut ta = TaintAnalyzer::new(&body, YugaConfig::default());
    ta.mark_taint(1, None);
    assert!(ta.check_taint(3, None));
    assert!(ta.check_taint(2, None));
}

#[test]
fn alias_reference_and_copy_share_pointees() {
    // p = &x; q = p: dereferencing p and dereferencing q denote
    // overlapping memory.
    let x = 1u64;
    let p = 2u64;
    let q = 3u64;
    let body = one_block(vec![
        Statement::Assign(local(p), Rvalue::Ref(local(x))),
        assign_copy(local(q), local(p)),
    ]);
    let mut aa = AliasAnalyzer::new(&body, YugaConfig::default());
    let confirmed = aa.check_alias(
        p,
        &vec![MyProjection::MyDeref],
        q,
        &vec![MyProjection::MyDeref],
    );
    assert!(confirmed);
}

#[test]
fn alias_unrelated_locals_do_not_intersect() {
    let body = one_block(vec![Statement::Assign(local(2), Rvalue::Ref(local(1)))]);
    let mut aa = AliasAnalyzer::new(&body, YugaConfig::default());
    let confirmed = aa.check_alias(
        2,
        &vec![MyProjection::MyDeref],
        5,
        &vec![MyProjection::MyDeref],
    );
    assert!(!confirmed);
}

#[test]
fn alias_reset_discards_state() {
    let body = one_block(vec![
        Statement::Assign(local(2), Rvalue::Ref(local(1))),
        assign_copy(local(3), local(2)),
    ]);
    let mut aa = AliasAnalyzer::new(&body, YugaConfig::default());
    assert!(aa.check_alias(2, &vec![MyProjection::MyDeref], 3, &vec![MyProjection::MyDeref]));
    aa.reset();
    // After a reset the same query runs from scratch and still holds.
    assert!(aa.check_alias(2, &vec![MyProjection::MyDeref], 3, &vec![MyProjection::MyDeref]));
}

#[test]
fn taint_single_pass_skips_loop_carried_flow() {
    // The single reverse-postorder pass applies each edge once and
    // does not re-iterate back edges: when the only path from the seed
    // runs against block order, the flow is (deliberately) missed.
    let body = Body {
        blocks: vec![
            BasicBlock {
                statements: vec![assign_copy(local(3), local(2))],
                terminator: Terminator::Other,
            },
            BasicBlock {
                statements: vec![assign_copy(local(2), local(1))],
                terminator: Terminator::Other,
            },
        ],
    };
    let mut ta = TaintAnalyzer::new(&body, YugaConfig::default());
    ta.mark_taint(1, None);
    // 2 is tainted by the second block's edge, but the first block's
    // edge was already consumed: 3 stays clean.
    assert!(ta.check_taint(2, None));
    assert!(!ta.check_taint(3, None));
}
