//! Taint propagation: one pass over the linearized body builds a
//! dataflow edge list, the source is seeded, every edge is applied once
//! in order, and the sink is tested for membership.
//!
//! Field sensitivity is one level deep: a location with no field stands
//! for the whole slot and matches every field of it. Back edges are not
//! re-iterated to a fixed point; the single pass deliberately
//! under-approximates loop-carried flow.

use vstd::prelude::*;

use crate::config::YugaConfig;
use crate::seqs::lemma_contains_push;
use crate::mir::{
    first_field_of_place, operand_place, place_first_field, Body, BlockV, Operand, OperandV, Place,
    PlaceV, Rvalue, RvalueV, Statement, StatementV, Terminator, TerminatorV,
};

verus! {

/// A taint mark: a storage slot, and the one field of it that is
/// tainted, or `None` when the slot is tainted as a whole.
pub type TaintMark = (u64, Option<usize>);

/// The set of marks a mark list stands for.
pub open spec fn taints(v: Seq<TaintMark>) -> Set<TaintMark> {
    Set::new(|x: TaintMark| v.contains(x))
}

/// What one dataflow edge `left <- right` does to a taint set.
///
/// A right side with no field matches the whole slot: if the slot is
/// tainted wholesale the left side becomes tainted (wholesale taint on
/// the left replaces any finer marks); if only single fields of the
/// right slot are tainted, a whole-slot left side inherits exactly
/// those fields. A right side with a field propagates only when that
/// field or the whole right slot is tainted, and a left side already
/// tainted wholesale absorbs the mark.
pub open spec fn taint_step(t: Set<TaintMark>, e: (PlaceV, PlaceV)) -> Set<TaintMark> {
    let r = e.0.local;
    let rf = place_first_field(e.0);
    let l = e.1.local;
    let lf = place_first_field(e.1);
    if rf is None {
        if t.contains((r, None::<usize>)) {
            if lf is None {
                Set::new(|x: TaintMark| (t.contains(x) && x.0 != l) || x == (l, None::<usize>))
            } else {
                t.insert((l, lf))
            }
        } else if exists|b: Option<usize>| t.contains((r, b)) {
            if lf is None {
                Set::new(|x: TaintMark| t.contains(x) || (x.0 == l && t.contains((r, x.1))))
            } else {
                t.insert((l, lf))
            }
        } else {
            t
        }
    } else {
        if (t.contains((r, None::<usize>)) || t.contains((r, rf))) && !t.contains(
            (l, None::<usize>),
        ) {
            t.insert((l, lf))
        } else {
            t
        }
    }
}

/// A taint set after a sequence of edges is applied in order.
pub open spec fn apply_edges(t: Set<TaintMark>, es: Seq<(PlaceV, PlaceV)>) -> Set<TaintMark>
    decreases es.len(),
{
    if es.len() == 0 {
        t
    } else {
        apply_edges(taint_step(t, es[0]), es.subrange(1, es.len() as int))
    }
}

/// The places a right-hand side reads, in the order their edges are
/// recorded.
pub open spec fn rvalue_sources(r: RvalueV) -> Seq<PlaceV> {
    match r {
        RvalueV::Use(o) => opt_place_seq(operand_place(o)),
        RvalueV::Repeat(o) => opt_place_seq(operand_place(o)),
        RvalueV::Cast(o) => opt_place_seq(operand_place(o)),
        RvalueV::Ref(p) => seq![p],
        RvalueV::AddressOf(p) => seq![p],
        RvalueV::Discriminant(p) => seq![p],
        RvalueV::CopyForDeref(p) => seq![p],
        RvalueV::BinaryOp(a, b) => opt_place_seq(operand_place(a)) + opt_place_seq(
            operand_place(b),
        ),
        RvalueV::Other => Seq::empty(),
    }
}

/// A zero- or one-element sequence out of an optional place.
pub open spec fn opt_place_seq(o: Option<PlaceV>) -> Seq<PlaceV> {
    match o {
        Some(p) => seq![p],
        None => Seq::empty(),
    }
}

/// The edges one statement contributes.
pub open spec fn stmt_edges(s: StatementV) -> Seq<(PlaceV, PlaceV)> {
    match s {
        StatementV::Assign(l, r) => rvalue_sources(r).map_values(|p: PlaceV| (p, l)),
        StatementV::Nop => Seq::empty(),
    }
}

/// The edges of a statement sequence, in order.
pub open spec fn stmts_edges(ss: Seq<StatementV>) -> Seq<(PlaceV, PlaceV)>
    decreases ss.len(),
{
    if ss.len() == 0 {
        Seq::empty()
    } else {
        stmts_edges(ss.drop_last()) + stmt_edges(ss.last())
    }
}

/// The argument-to-destination edges of a call.
pub open spec fn arg_edges(args: Seq<OperandV>, dest: PlaceV) -> Seq<(PlaceV, PlaceV)>
    decreases args.len(),
{
    if args.len() == 0 {
        Seq::empty()
    } else {
        arg_edges(args.drop_last(), dest) + opt_place_seq(operand_place(args.last())).map_values(
            |p: PlaceV| (p, dest),
        )
    }
}

/// The symmetric edges one argument forms with every distinct other
/// argument, modeling unknown callee effects.
pub open spec fn pair_edges_for(a1: OperandV, args: Seq<OperandV>) -> Seq<(PlaceV, PlaceV)>
    decreases args.len(),
{
    if args.len() == 0 {
        Seq::empty()
    } else {
        pair_edges_for(a1, args.drop_last()) + (if a1 == args.last() {
            Seq::empty()
        } else {
            match (operand_place(a1), operand_place(args.last())) {
                (Some(p1), Some(p2)) => seq![(p1, p2), (p2, p1)],
                _ => Seq::empty(),
            }
        })
    }
}

/// The all-pairs argument edges of a call.
pub open spec fn pairs_edges(args1: Seq<OperandV>, all: Seq<OperandV>) -> Seq<(PlaceV, PlaceV)>
    decreases args1.len(),
{
    if args1.len() == 0 {
        Seq::empty()
    } else {
        pairs_edges(args1.drop_last(), all) + pair_edges_for(args1.last(), all)
    }
}

/// The edges a terminator contributes.
pub open spec fn term_edges(t: TerminatorV) -> Seq<(PlaceV, PlaceV)> {
    match t {
        TerminatorV::Call { args, destination } => arg_edges(args, destination) + pairs_edges(
            args,
            args,
        ),
        TerminatorV::Other => Seq::empty(),
    }
}

/// The edges one block contributes.
pub open spec fn block_edges(b: BlockV) -> Seq<(PlaceV, PlaceV)> {
    stmts_edges(b.statements) + term_edges(b.terminator)
}

/// Every dataflow edge of a body, in the order the single pass applies
/// them.
pub open spec fn edges_of(body: Seq<BlockV>) -> Seq<(PlaceV, PlaceV)>
    decreases body.len(),
{
    if body.len() == 0 {
        Seq::empty()
    } else {
        edges_of(body.drop_last()) + block_edges(body.last())
    }
}

/// Whether a sink location is tainted: a sink with no field matches any
/// mark on the slot; a sink with a field matches that field's mark or a
/// whole-slot mark.
pub open spec fn taint_check(t: Set<TaintMark>, sink_local: u64, sink_field: Option<usize>) -> bool {
    if sink_field is None {
        exists|b: Option<usize>| t.contains((sink_local, b))
    } else {
        t.contains((sink_local, sink_field)) || t.contains((sink_local, None::<usize>))
    }
}

/// Whether two optional field indices are the same.
fn opt_eq(a: &Option<usize>, b: &Option<usize>) -> (r: bool)
    ensures
        r == (a == b),
{
    match (a, b) {
        (None, None) => true,
        (Some(x), Some(y)) => x == y,
        _ => false,
    }
}

/// Whether the mark list holds the given mark.
fn marks_contain(v: &Vec<TaintMark>, x: TaintMark) -> (r: bool)
    ensures
        r == v@.contains(x),
{
    let n = v.len();
    for i in 0..n
        invariant
            n == v@.len(),
            forall|j: int| 0 <= j < i ==> v@[j] != x,
    {
        if v[i].0 == x.0 && opt_eq(&v[i].1, &x.1) {
            assert(v@[i as int] == x);
            return true;
        }
    }
    false
}

/// Whether the mark list holds any mark on the given slot.
fn marks_contain_local(v: &Vec<TaintMark>, l: u64) -> (r: bool)
    ensures
        r == exists|b: Option<usize>| taints(v@).contains((l, b)),
{
    let n = v.len();
    for i in 0..n
        invariant
            n == v@.len(),
            forall|j: int| 0 <= j < i ==> (#[trigger] v@[j]).0 != l,
    {
        if v[i].0 == l {
            assert(taints(v@).contains((l, v@[i as int].1)));
            return true;
        }
    }
    assert forall|b: Option<usize>| !taints(v@).contains((l, b)) by {
        if taints(v@).contains((l, b)) {
            let i = choose|i: int| 0 <= i < v@.len() && v@[i] == (l, b);
            assert(v@[i].0 == l);
        }
    }
    false
}

/// Confirms whether a value at a source location can reach a sink
/// location along the single linearized pass.
pub struct TaintAnalyzer<'a> {
    body: &'a Body,
    taint_list: Vec<TaintMark>,
    config: YugaConfig,
}

impl<'a> TaintAnalyzer<'a> {
    /// The marks currently set.
    pub closed spec fn marks(&self) -> Set<TaintMark> {
        taints(self.taint_list@)
    }

    /// The body this analyzer reads.
    pub closed spec fn body_view(&self) -> Seq<BlockV> {
        self.body@
    }

    /// A fresh analyzer over one function body, with nothing tainted.
    pub fn new(body: &'a Body, config: YugaConfig) -> (r: TaintAnalyzer<'a>)
        ensures
            r.marks() =~= Set::<TaintMark>::empty(),
            r.body_view() == body@,
    {
        let r = TaintAnalyzer { body, taint_list: Vec::new(), config };
        proof {
            assert forall|x: TaintMark| !r.marks().contains(x) by {}
        }
        r
    }

    /// The first field index a place's projection selects, if any.
    pub fn get_first_field_from_place(place: &Place) -> (r: Option<usize>)
        ensures
            r == place_first_field(place@),
    {
        first_field_of_place(place)
    }

    /// Applies one edge `lplace <- rplace` to the marks.
    fn update_taint(&mut self, rplace: &Place, lplace: &Place)
        ensures
            final(self).marks() == taint_step(old(self).marks(), (rplace@, lplace@)),
            final(self).body == old(self).body,
            final(self).body_view() == old(self).body_view(),
    {
        let lf = first_field_of_place(lplace);
        let rf = first_field_of_place(rplace);
        let l = lplace.local;
        let r = rplace.local;
        let ghost t0 = self.marks();
        let ghost v0 = self.taint_list@;

        match rf {
            None => {
                if marks_contain(&self.taint_list, (r, None)) {
                    match lf {
                        None => {
                            // Wholesale taint on the right: retain marks on
                            // other slots, then taint the left slot wholesale.
                            let mut kept: Vec<TaintMark> = Vec::new();
                            let n = self.taint_list.len();
                            for i in 0..n
                                invariant
                                    n == self.taint_list@.len(),
                                    v0 == self.taint_list@,
                                    forall|e: TaintMark|
                                        #[trigger] kept@.contains(e) <==> (v0.subrange(
                                            0,
                                            i as int,
                                        ).contains(e) && e.0 != l),
                            {
                                let ghost pre = v0.subrange(0, i as int);
                                let ghost el = v0[i as int];
                                proof {
                                    assert(v0.subrange(0, i + 1 as int) =~= pre.push(el));
                                }
                                let ghost kept0 = kept@;
                                if self.taint_list[i].0 != l {
                                    kept.push(self.taint_list[i]);
                                }
                                proof {
                                    assert forall|e: TaintMark|
                                        #[trigger] kept@.contains(e) <==> (v0.subrange(
                                            0,
                                            i + 1 as int,
                                        ).contains(e) && e.0 != l) by {
                                        lemma_contains_push(pre, el, e);
                                        if el.0 != l {
                                            lemma_contains_push(kept0, el, e);
                                        }
                                    }
                                }
                            }
                            proof {
                                assert(v0.subrange(0, n as int) =~= v0);
                            }
                            let ghost keptv = kept@;
                            kept.push((l, None));
                            self.taint_list = kept;
                            proof {
                                assert forall|e: TaintMark|
                                    #[trigger] self.taint_list@.contains(e) <==> ((v0.contains(e)
                                        && e.0 != l) || e == (l, None::<usize>)) by {
                                    lemma_contains_push(keptv, (l, None::<usize>), e);
                                }
                                assert(self.marks() =~= taint_step(t0, (rplace@, lplace@)));
                            }
                        },
                        Some(_) => {
                            self.push_if_absent((l, lf));
                            proof {
                                assert(self.marks() =~= taint_step(t0, (rplace@, lplace@)));
                            }
                        },
                    }
                } else if marks_contain_local(&self.taint_list, r) {
                    match lf {
                        None => {
                            // Only single fields of the right slot are
                            // tainted: the left slot inherits those fields.
                            let mut fields: Vec<Option<usize>> = Vec::new();
                            let n = self.taint_list.len();
                            for i in 0..n
                                invariant
                                    n == self.taint_list@.len(),
                                    v0 == self.taint_list@,
                                    forall|b: Option<usize>|
                                        #[trigger] fields@.contains(b) <==> v0.subrange(
                                            0,
                                            i as int,
                                        ).contains((r, b)),
                            {
                                let ghost pre = v0.subrange(0, i as int);
                                let ghost el = v0[i as int];
                                proof {
                                    assert(v0.subrange(0, i + 1 as int) =~= pre.push(el));
                                }
                                let ghost f0 = fields@;
                                if self.taint_list[i].0 == r {
                                    fields.push(self.taint_list[i].1);
                                }
                                proof {
                                    assert forall|b: Option<usize>|
                                        #[trigger] fields@.contains(b) <==> v0.subrange(
                                            0,
                                            i + 1 as int,
                                        ).contains((r, b)) by {
                                        lemma_contains_push(pre, el, (r, b));
                                        if el.0 == r {
                                            lemma_contains_push(f0, el.1, b);
                                            if el.1 == b {
                                                assert(v0.subrange(0, i + 1 as int).contains(
                                                    (r, b),
                                                ));
                                            }
                                        }
                                    }
                                }
                            }
                            proof {
                                assert(v0.subrange(0, n as int) =~= v0);
                            }
                            let ghost fv = fields@;
                            let m = fields.len();
                            proof {
                                assert(fv.subrange(0, 0) =~= Seq::<Option<usize>>::empty());
                            }
                            for k in 0..m
                                invariant
                                    m == fields@.len(),
                                    fv == fields@,
                                    forall|b: Option<usize>|
                                        #[trigger] fv.contains(b) <==> t0.contains((r, b)),
                                    self.body == old(self).body,
                                    forall|e: TaintMark|
                                        #[trigger] self.marks().contains(e) <==> (t0.contains(e)
                                            || (e.0 == l && fv.subrange(0, k as int).contains(
                                            e.1,
                                        ))),
                            {
                                let ghost pref = fv.subrange(0, k as int);
                                proof {
                                    assert(fv.subrange(0, k + 1 as int) =~= pref.push(
                                        fv[k as int],
                                    ));
                                }
                                let ghost mpre = self.marks();
                                self.push_if_absent((l, fields[k]));
                                proof {
                                    assert forall|e: TaintMark|
                                        #[trigger] self.marks().contains(e) <==> (t0.contains(e)
                                            || (e.0 == l && fv.subrange(0, k + 1 as int).contains(
                                            e.1,
                                        ))) by {
                                        assert(self.marks() == mpre.insert((l, fv[k as int])));
                                        lemma_contains_push(pref, fv[k as int], e.1);
                                    }
                                }
                            }
                            proof {
                                assert(fv.subrange(0, m as int) =~= fv);
                                assert(self.marks() =~= taint_step(t0, (rplace@, lplace@)));
                            }
                        },
                        Some(_) => {
                            self.push_if_absent((l, lf));
                            proof {
                                assert(self.marks() =~= taint_step(t0, (rplace@, lplace@)));
                            }
                        },
                    }
                } else {
                    proof {
                        assert forall|b: Option<usize>| !t0.contains((r, b)) by {}
                        assert(self.marks() =~= taint_step(t0, (rplace@, lplace@)));
                    }
                }
            },
            Some(_) => {
                if (marks_contain(&self.taint_list, (r, None)) || marks_contain(
                    &self.taint_list,
                    (r, rf),
                )) && !marks_contain(&self.taint_list, (l, None)) {
                    self.push_if_absent((l, lf));
                    proof {
                        assert(self.marks() =~= taint_step(t0, (rplace@, lplace@)));
                    }
                } else {
                    proof {
                        assert(self.marks() =~= taint_step(t0, (rplace@, lplace@)));
                    }
                }
            },
        }
    }

    /// Adds a mark unless it is already set.
    fn push_if_absent(&mut self, x: TaintMark)
        ensures
            final(self).marks() == old(self).marks().insert(x),
            final(self).body == old(self).body,
            final(self).body_view() == old(self).body_view(),
    {
        if !marks_contain(&self.taint_list, x) {
            let ghost v0 = self.taint_list@;
            self.taint_list.push(x);
            proof {
                assert forall|e: TaintMark|
                    self.marks().contains(e) <==> old(self).marks().insert(x).contains(e) by {
                    lemma_contains_push(v0, x, e);
                }
                assert(self.marks() =~= old(self).marks().insert(x));
            }
        } else {
            proof {
                assert(self.marks() =~= old(self).marks().insert(x));
            }
        }
    }

    /// Seeds the source location and runs the single propagation pass:
    /// afterwards the marks are exactly the seeded set pushed through
    /// every dataflow edge of the body, in order.
    pub fn mark_taint(&mut self, source_local: u64, source_field: Option<usize>)
        ensures
            final(self).marks() == apply_edges(
                old(self).marks().insert((source_local, source_field)),
                edges_of(old(self).body_view()),
            ),
            final(self).body_view() == old(self).body_view(),
    {
        let edge_list = collect_edges(self.body);
        self.push_if_absent((source_local, source_field));
        let ghost seeded = self.marks();
        let ghost all = edges_v(edge_list@);
        let n = edge_list.len();
        assert(all.subrange(0, n as int) =~= all);
        for i in 0..n
            invariant
                n == edge_list@.len(),
                all == edges_v(edge_list@),
                all.len() == n,
                all == edges_of(old(self).body_view()),
                forall|j: int|
                    0 <= j < n ==> #[trigger] all[j] == (edge_list@[j].0@, edge_list@[j].1@),
                apply_edges(self.marks(), all.subrange(i as int, n as int)) == apply_edges(
                    seeded,
                    all,
                ),
                self.body == old(self).body,
        {
            let ghost suf = all.subrange(i as int, n as int);
            assert(suf[0] == all[i as int]);
            assert(suf.subrange(1, suf.len() as int) =~= all.subrange(i + 1, n as int));
            let pair = &edge_list[i];
            self.update_taint(&pair.0, &pair.1);
        }
        assert(apply_edges(self.marks(), all.subrange(n as int, n as int)) == self.marks());
    }

    /// Removes every mark.
    pub fn clear_taint(&mut self)
        ensures
            final(self).marks() =~= Set::<TaintMark>::empty(),
            final(self).body_view() == old(self).body_view(),
    {
        self.taint_list = Vec::new();
        proof {
            assert forall|x: TaintMark| !self.marks().contains(x) by {}
        }
    }

    /// Whether the sink location was reached.
    pub fn check_taint(&self, sink_local: u64, sink_field: Option<usize>) -> (r: bool)
        ensures
            r == taint_check(self.marks(), sink_local, sink_field),
    {
        match sink_field {
            None => marks_contain_local(&self.taint_list, sink_local),
            Some(_) => {
                marks_contain(&self.taint_list, (sink_local, sink_field)) || marks_contain(
                    &self.taint_list,
                    (sink_local, None),
                )
            },
        }
    }
}

/// The view of an edge list, pair by pair.
pub open spec fn edges_v(v: Seq<(Place, Place)>) -> Seq<(PlaceV, PlaceV)> {
    v.map_values(|e: (Place, Place)| (e.0@, e.1@))
}

/// Whether two operands are the same place read the same way.
pub fn operand_eq(a: &Operand, b: &Operand) -> (r: bool)
    ensures
        r == (a@ == b@),
{
    match (a, b) {
        (Operand::Copy(p), Operand::Copy(q)) => p.eq_place(q),
        (Operand::Move(p), Operand::Move(q)) => p.eq_place(q),
        (Operand::Constant, Operand::Constant) => true,
        _ => false,
    }
}

/// Records the edges of one statement onto the list.
fn push_stmt_edges(out: &mut Vec<(Place, Place)>, stmt: &Statement)
    ensures
        edges_v(final(out)@) == edges_v(old(out)@) + stmt_edges(stmt@),
{
    let ghost before = edges_v(out@);
    match stmt {
        Statement::Assign(lplace, rvalue) => {
            let ghost srcs = rvalue_sources(rvalue@);
            match rvalue {
                Rvalue::Use(oper) | Rvalue::Repeat(oper, ..) | Rvalue::Cast(oper) => {
                    match oper {
                        Operand::Move(pl) | Operand::Copy(pl) => {
                            out.push((pl.clone_place(), lplace.clone_place()));
                        },
                        Operand::Constant => {},
                    }
                },
                Rvalue::Ref(pl) | Rvalue::AddressOf(pl) | Rvalue::Discriminant(pl)
                    | Rvalue::CopyForDeref(pl) => {
                    out.push((pl.clone_place(), lplace.clone_place()));
                },
                Rvalue::BinaryOp(op1, op2) => {
                    match op1 {
                        Operand::Move(pl) | Operand::Copy(pl) => {
                            out.push((pl.clone_place(), lplace.clone_place()));
                        },
                        Operand::Constant => {},
                    }
                    match op2 {
                        Operand::Move(pl) | Operand::Copy(pl) => {
                            out.push((pl.clone_place(), lplace.clone_place()));
                        },
                        Operand::Constant => {},
                    }
                },
                Rvalue::Other => {},
            }
            assert(edges_v(out@) =~= before + stmt_edges(stmt@));
        },
        Statement::Nop => {
            assert(edges_v(out@) =~= before + stmt_edges(stmt@));
        },
    }
}

/// Records the edges of one terminator onto the list.
fn push_term_edges(out: &mut Vec<(Place, Place)>, term: &Terminator)
    ensures
        edges_v(final(out)@) == edges_v(old(out)@) + term_edges(term@),
{
    let ghost before = edges_v(out@);
    match term {
        Terminator::Call { args, destination } => {
            let ghost argsv = args@.map_values(|o: Operand| o@);
            let n = args.len();
            proof {
                assert(argsv.subrange(0, n as int) =~= argsv);
            }
            for i in 0..n
                invariant
                    n == args@.len(),
                    argsv == args@.map_values(|o: Operand| o@),
                    argsv.len() == n,
                    forall|j: int| 0 <= j < n ==> #[trigger] argsv[j] == args@[j]@,
                    edges_v(out@) == before + arg_edges(
                        argsv.subrange(0, i as int),
                        destination@,
                    ),
            {
                let ghost pre = argsv.subrange(0, i as int);
                proof {
                    assert(argsv.subrange(0, i + 1 as int) =~= pre.push(argsv[i as int]));
                    assert(argsv.subrange(0, i + 1 as int).drop_last() =~= pre);
                }
                proof {
                    assert(argsv.subrange(0, i + 1 as int).last() == argsv[i as int]);
                }
                let ghost out_pre = edges_v(out@);
                match &args[i] {
                    Operand::Move(rp) | Operand::Copy(rp) => {
                        out.push((rp.clone_place(), destination.clone_place()));
                        proof {
                            assert(operand_place(argsv[i as int]) is Some);
                            assert(edges_v(out@) =~= out_pre + opt_place_seq(
                                operand_place(argsv[i as int]),
                            ).map_values(|p: PlaceV| (p, destination@)));
                        }
                    },
                    Operand::Constant => {
                        proof {
                            assert(operand_place(argsv[i as int]) is None);
                            assert(edges_v(out@) =~= out_pre + opt_place_seq(
                                operand_place(argsv[i as int]),
                            ).map_values(|p: PlaceV| (p, destination@)));
                        }
                    },
                }
                assert(edges_v(out@) =~= before + arg_edges(
                    argsv.subrange(0, i + 1 as int),
                    destination@,
                ));
            }
            proof {
                assert(argsv.subrange(0, n as int) =~= argsv);
            }
            let ghost mid = edges_v(out@);
            for i in 0..n
                invariant
                    n == args@.len(),
                    argsv == args@.map_values(|o: Operand| o@),
                    argsv.len() == n,
                    forall|j: int| 0 <= j < n ==> #[trigger] argsv[j] == args@[j]@,
                    edges_v(out@) == mid + pairs_edges(argsv.subrange(0, i as int), argsv),
            {
                let ghost pre = argsv.subrange(0, i as int);
                proof {
                    assert(argsv.subrange(0, i + 1 as int) =~= pre.push(argsv[i as int]));
                    assert(argsv.subrange(0, i + 1 as int).drop_last() =~= pre);
                }
                let ghost inner_before = edges_v(out@);
                for j in 0..n
                    invariant
                        i < n,
                        n == args@.len(),
                        argsv == args@.map_values(|o: Operand| o@),
                        argsv.len() == n,
                        forall|k: int| 0 <= k < n ==> #[trigger] argsv[k] == args@[k]@,
                        edges_v(out@) == inner_before + pair_edges_for(
                            argsv[i as int],
                            argsv.subrange(0, j as int),
                        ),
                {
                    let ghost prej = argsv.subrange(0, j as int);
                    proof {
                        assert(argsv.subrange(0, j + 1 as int) =~= prej.push(argsv[j as int]));
                        assert(argsv.subrange(0, j + 1 as int).drop_last() =~= prej);
                    }
                    proof {
                        assert(argsv.subrange(0, j + 1 as int).last() == argsv[j as int]);
                    }
                    let ghost out_pre = edges_v(out@);
                    let ghost added = (if argsv[i as int] == argsv[j as int] {
                        Seq::<(PlaceV, PlaceV)>::empty()
                    } else {
                        match (operand_place(argsv[i as int]), operand_place(argsv[j as int])) {
                            (Some(p1), Some(p2)) => seq![(p1, p2), (p2, p1)],
                            _ => Seq::<(PlaceV, PlaceV)>::empty(),
                        }
                    });
                    if !operand_eq(&args[i], &args[j]) {
                        match &args[i] {
                            Operand::Move(p1) | Operand::Copy(p1) => {
                                match &args[j] {
                                    Operand::Move(p2) | Operand::Copy(p2) => {
                                        out.push((p1.clone_place(), p2.clone_place()));
                                        out.push((p2.clone_place(), p1.clone_place()));
                                        proof {
                                            assert(operand_place(argsv[i as int]) == Some(p1@));
                                            assert(operand_place(argsv[j as int]) == Some(p2@));
                                            assert(edges_v(out@) =~= out_pre + added);
                                        }
                                    },
                                    Operand::Constant => {
                                        proof {
                                            assert(operand_place(argsv[j as int]) is None);
                                            assert(edges_v(out@) =~= out_pre + added);
                                        }
                                    },
                                }
                            },
                            Operand::Constant => {
                                proof {
                                    assert(operand_place(argsv[i as int]) is None);
                                    assert(edges_v(out@) =~= out_pre + added);
                                }
                            },
                        }
                    } else {
                        proof {
                            assert(edges_v(out@) =~= out_pre + added);
                        }
                    }
                    assert(edges_v(out@) =~= inner_before + pair_edges_for(
                        argsv[i as int],
                        argsv.subrange(0, j + 1 as int),
                    ));
                }
                proof {
                    assert(argsv.subrange(0, n as int) =~= argsv);
                    assert(edges_v(out@) =~= mid + pairs_edges(
                        argsv.subrange(0, i + 1 as int),
                        argsv,
                    ));
                }
            }
            proof {
                assert(argsv.subrange(0, n as int) =~= argsv);
                assert(edges_v(out@) =~= before + term_edges(term@));
            }
        },
        Terminator::Other => {
            assert(edges_v(out@) =~= before + term_edges(term@));
        },
    }
}

/// Walks the body once in its given order and collects every dataflow
/// edge.
fn collect_edges(body: &Body) -> (r: Vec<(Place, Place)>)
    ensures
        edges_v(r@) == edges_of(body@),
{
    let mut out: Vec<(Place, Place)> = Vec::new();
    let ghost bv = body@;
    let nb = body.blocks.len();
    assert(edges_v(out@) =~= Seq::<(PlaceV, PlaceV)>::empty());
    for b in 0..nb
        invariant
            nb == body.blocks@.len(),
            bv == body@,
            bv.len() == nb,
            forall|j: int| 0 <= j < nb ==> #[trigger] bv[j] == body.blocks@[j]@,
            edges_v(out@) == edges_of(bv.subrange(0, b as int)),
    {
        let ghost pre = bv.subrange(0, b as int);
        proof {
            assert(bv.subrange(0, b + 1 as int) =~= pre.push(bv[b as int]));
            assert(bv.subrange(0, b + 1 as int).drop_last() =~= pre);
        }
        let block = &body.blocks[b];
        let ghost block_before = edges_v(out@);
        let ghost sv = block@.statements;
        let ns = block.statements.len();
        for s in 0..ns
            invariant
                ns == block.statements@.len(),
                sv == block@.statements,
                sv.len() == ns,
                forall|j: int| 0 <= j < ns ==> #[trigger] sv[j] == block.statements@[j]@,
                edges_v(out@) == block_before + stmts_edges(sv.subrange(0, s as int)),
        {
            let ghost spre = sv.subrange(0, s as int);
            proof {
                assert(sv.subrange(0, s + 1 as int) =~= spre.push(sv[s as int]));
                assert(sv.subrange(0, s + 1 as int).drop_last() =~= spre);
            }
            push_stmt_edges(&mut out, &block.statements[s]);
        }
        proof {
            assert(sv.subrange(0, ns as int) =~= sv);
        }
        push_term_edges(&mut out, &block.terminator);
        proof {
            assert(edges_v(out@) =~= edges_of(bv.subrange(0, b + 1 as int)));
        }
    }
    proof {
        assert(bv.subrange(0, nb as int) =~= bv);
    }
    out
}

} // verus!
