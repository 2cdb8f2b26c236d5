//! Points-to (alias) analysis: simulates the linearized body with real
//! pointer semantics, maintaining a per-location points-to map that is
//! lazily extended with synthetic locations for unknown allocations,
//! then confirms a flagged pair when the source's and target's pointee
//! sets intersect.
//!
//! The map is an association list keyed by (storage slot, optional
//! field); one level of field sensitivity, with `usize::MAX` serving as
//! the wildcard field that matches every field. Every step of the
//! simulation is deterministic and is mirrored, step for step, by the
//! specification functions below: the analyzer's contract is exactly
//! that simulation.

use vstd::prelude::*;

use crate::config::YugaConfig;
use crate::mir::{
    Body, BlockV, Operand, OperandV, Place, PlaceElem, PlaceV, Rvalue, RvalueV, Statement,
    StatementV, Terminator, TerminatorV, operand_place,
};
use crate::types::{MyProjection, ProjV};
use crate::checks::projs_v;

verus! {

/// A dataflow location: a storage slot and at most one field of it.
pub type Loc = (u64, Option<usize>);

/// One points-to entry: a location and the set of locations it may
/// reference.
pub type EntryV = (Loc, Seq<Loc>);

/// The analyzer state: the points-to entries in insertion order, and
/// the next synthetic location to hand out.
pub ghost struct PtState {
    pub pm: Seq<EntryV>,
    pub next_alloc: u64,
}

/// The view of the exec points-to map, entry by entry.
pub open spec fn pm_v(v: Seq<((u64, Option<usize>), Vec<(u64, Option<usize>)>)>) -> Seq<EntryV> {
    v.map_values(|e: ((u64, Option<usize>), Vec<(u64, Option<usize>)>)| (e.0, e.1@))
}

/// The index of the entry for `k`, if present.
pub open spec fn pm_find(pm: Seq<EntryV>, k: Loc) -> Option<int>
    decreases pm.len(),
{
    if pm.len() == 0 {
        None
    } else if pm[0].0 == k {
        Some(0)
    } else {
        match pm_find(pm.subrange(1, pm.len() as int), k) {
            Some(i) => Some(i + 1),
            None => None,
        }
    }
}

/// The pointee set recorded for `k`, if any.
pub open spec fn pm_get(pm: Seq<EntryV>, k: Loc) -> Option<Seq<Loc>> {
    match pm_find(pm, k) {
        Some(i) => Some(pm[i].1),
        None => None,
    }
}

/// The map with `k` bound to `vs`: the existing entry is replaced, or
/// a new entry appended.
pub open spec fn pm_put(pm: Seq<EntryV>, k: Loc, vs: Seq<Loc>) -> Seq<EntryV> {
    match pm_find(pm, k) {
        Some(i) => pm.update(i, (k, vs)),
        None => pm.push((k, vs)),
    }
}

/// A set-respecting insertion: appended only when absent.
pub open spec fn set_insert(s: Seq<Loc>, x: Loc) -> Seq<Loc> {
    if s.contains(x) {
        s
    } else {
        s.push(x)
    }
}

/// The union of two location sets, keeping the left order and
/// appending new right elements in order.
pub open spec fn set_union(s: Seq<Loc>, t: Seq<Loc>) -> Seq<Loc>
    decreases t.len(),
{
    if t.len() == 0 {
        s
    } else {
        set_union(set_insert(s, t[0]), t.subrange(1, t.len() as int))
    }
}

/// The next synthetic location counter after one allocation.
pub open spec fn dec_alloc(next: u64) -> u64 {
    if next > 0 {
        (next - 1) as u64
    } else {
        0
    }
}

/// One step of dereferencing: looks up `loc`, lazily copying a
/// wildcard entry and allocating a synthetic location on a miss when
/// `create_new` is set. Returns the new state and the accumulated
/// pointees.
pub open spec fn deref_one(st: PtState, loc: Loc, create_new: bool, acc: Seq<Loc>) -> (
    PtState,
    Seq<Loc>,
) {
    match pm_get(st.pm, loc) {
        Some(ds) => (st, set_union(acc, ds)),
        None => {
            let wild = pm_get(st.pm, (loc.0, Some(usize::MAX)));
            let (pm1, acc1) = if loc.1 is Some && wild is Some {
                (pm_put(st.pm, loc, wild->0), set_union(acc, wild->0))
            } else {
                (st.pm, acc)
            };
            if create_new {
                let fresh = (st.next_alloc, None::<usize>);
                (
                    PtState { pm: pm_put(pm1, loc, seq![fresh]), next_alloc: dec_alloc(st.next_alloc) },
                    set_insert(acc1, fresh),
                )
            } else {
                (PtState { pm: pm1, next_alloc: st.next_alloc }, acc1)
            }
        },
    }
}

/// Dereferences every location of a set in order.
pub open spec fn deref_all(st: PtState, values: Seq<Loc>, create_new: bool, acc: Seq<Loc>) -> (
    PtState,
    Seq<Loc>,
)
    decreases values.len(),
{
    if values.len() == 0 {
        (st, acc)
    } else {
        let (st1, acc1) = deref_one(st, values[0], create_new, acc);
        deref_all(st1, values.subrange(1, values.len() as int), create_new, acc1)
    }
}

/// One step of field selection on a location.
pub open spec fn field_one(st: PtState, loc: Loc, field: usize, acc: Seq<Loc>) -> (
    PtState,
    Seq<Loc>,
) {
    if loc.1 is Some {
        (st, set_insert(acc, loc))
    } else {
        let sel = (loc.0, Some(field));
        let acc1 = set_insert(acc, sel);
        if pm_get(st.pm, sel) is None && pm_get(st.pm, (loc.0, Some(usize::MAX))) is None {
            let fresh = (st.next_alloc, None::<usize>);
            (
                PtState {
                    pm: pm_put(st.pm, sel, seq![fresh]),
                    next_alloc: dec_alloc(st.next_alloc),
                },
                acc1,
            )
        } else {
            (st, acc1)
        }
    }
}

/// Selects a field on every location of a set in order.
pub open spec fn field_all(st: PtState, values: Seq<Loc>, field: usize, acc: Seq<Loc>) -> (
    PtState,
    Seq<Loc>,
)
    decreases values.len(),
{
    if values.len() == 0 {
        (st, acc)
    } else {
        let (st1, acc1) = field_one(st, values[0], field, acc);
        field_all(st1, values.subrange(1, values.len() as int), field, acc1)
    }
}

/// The recorded field locations of slot `l`, in entry order.
pub open spec fn fields_of(pm: Seq<EntryV>, l: u64) -> Seq<Loc>
    decreases pm.len(),
{
    if pm.len() == 0 {
        Seq::empty()
    } else {
        (if pm[0].0.0 == l && pm[0].0.1 is Some {
            seq![pm[0].0]
        } else {
            Seq::empty()
        }) + fields_of(pm.subrange(1, pm.len() as int), l)
    }
}

/// Fans one location out over its known fields (and the wildcard field
/// when configured); a location that already selects a field stands
/// alone.
pub open spec fn unknown_field_one(
    pm: Seq<EntryV>,
    loc: Loc,
    wildcard: bool,
    acc: Seq<Loc>,
) -> Seq<Loc> {
    if loc.1 is Some {
        set_insert(acc, loc)
    } else {
        let acc1 = set_union(set_insert(acc, loc), fields_of(pm, loc.0));
        if wildcard {
            set_insert(acc1, (loc.0, Some(usize::MAX)))
        } else {
            acc1
        }
    }
}

/// Fans every location of a set out over its unknown fields.
pub open spec fn unknown_field_all(
    pm: Seq<EntryV>,
    values: Seq<Loc>,
    wildcard: bool,
    acc: Seq<Loc>,
) -> Seq<Loc>
    decreases values.len(),
{
    if values.len() == 0 {
        acc
    } else {
        unknown_field_all(
            pm,
            values.subrange(1, values.len() as int),
            wildcard,
            unknown_field_one(pm, values[0], wildcard, acc),
        )
    }
}

/// A reference assignment `l = &r` for one left location: the right
/// value set is unioned into the left's pointees.
pub open spec fn ref_one(st: PtState, l: Loc, r_values: Seq<Loc>) -> PtState {
    match pm_get(st.pm, l) {
        Some(ls) => PtState { pm: pm_put(st.pm, l, set_union(ls, r_values)), ..st },
        None => PtState { pm: pm_put(st.pm, l, r_values), ..st },
    }
}

/// A reference assignment applied to every left location in order.
pub open spec fn ref_all(st: PtState, l_values: Seq<Loc>, r_values: Seq<Loc>) -> PtState
    decreases l_values.len(),
{
    if l_values.len() == 0 {
        st
    } else {
        ref_all(ref_one(st, l_values[0], r_values), l_values.subrange(1, l_values.len() as int), r_values)
    }
}

/// A copy `l = r` for one (right, left) pair: the right pointees are
/// unioned into the left's.
pub open spec fn copy_pair(st: PtState, l: Loc, r: Loc) -> PtState {
    match pm_get(st.pm, r) {
        Some(rs) => match pm_get(st.pm, l) {
            Some(ls) => PtState { pm: pm_put(st.pm, l, set_union(ls, rs)), ..st },
            None => PtState { pm: pm_put(st.pm, l, rs), ..st },
        },
        None => st,
    }
}

/// A copy applied to every left location for one right location.
pub open spec fn copy_pairs(st: PtState, l_values: Seq<Loc>, r: Loc) -> PtState
    decreases l_values.len(),
{
    if l_values.len() == 0 {
        st
    } else {
        copy_pairs(copy_pair(st, l_values[0], r), l_values.subrange(1, l_values.len() as int), r)
    }
}

/// The fanout for one recorded field of a whole-slot right side: the
/// matching field is selected on the left values and the field entry
/// copied across, unless the right set already covered it.
pub open spec fn copy_fanout_one(
    st: PtState,
    l_values: Seq<Loc>,
    r_values: Seq<Loc>,
    fl: Loc,
) -> PtState {
    if r_values.contains(fl) || fl.1 is None {
        st
    } else {
        let (st1, new_l) = field_all(st, l_values, fl.1->0, Seq::empty());
        copy_pairs(st1, new_l, fl)
    }
}

/// The fanout applied to every recorded field of the right slot.
pub open spec fn copy_fanout(
    st: PtState,
    l_values: Seq<Loc>,
    r_values: Seq<Loc>,
    fls: Seq<Loc>,
) -> PtState
    decreases fls.len(),
{
    if fls.len() == 0 {
        st
    } else {
        copy_fanout(
            copy_fanout_one(st, l_values, r_values, fls[0]),
            l_values,
            r_values,
            fls.subrange(1, fls.len() as int),
        )
    }
}

/// A copy `l = r` for one right location: every left location inherits
/// the right pointees, and a whole-slot right side fans out over its
/// recorded fields.
pub open spec fn copy_one(st: PtState, l_values: Seq<Loc>, r_values: Seq<Loc>, r: Loc) -> PtState {
    let st1 = copy_pairs(st, l_values, r);
    if r.1 is None {
        copy_fanout(st1, l_values, r_values, fields_of(st1.pm, r.0))
    } else {
        st1
    }
}

/// A copy applied for every right location in order.
pub open spec fn copy_all_from(
    st: PtState,
    l_values: Seq<Loc>,
    r_values: Seq<Loc>,
    i: int,
) -> PtState
    decreases r_values.len() - i,
{
    if i < 0 || i >= r_values.len() {
        st
    } else {
        copy_all_from(
            copy_one(st, l_values, r_values, r_values[i]),
            l_values,
            r_values,
            i + 1,
        )
    }
}

/// The full copy assignment `L = R` over the value sets.
pub open spec fn copy_all(st: PtState, l_values: Seq<Loc>, r_values: Seq<Loc>) -> PtState {
    copy_all_from(st, l_values, r_values, 0)
}

/// Decomposing a place: start from its slot and apply its projection
/// steps in order, dereferences allocating on a miss.
pub open spec fn decompose_place_spec(st: PtState, p: PlaceV, i: int) -> (PtState, Seq<Loc>)
    decreases p.proj.len() - i,
{
    if i <= 0 {
        decompose_steps(st, p.proj, 0, seq![(p.local, None::<usize>)])
    } else {
        decompose_steps(st, p.proj, i, seq![(p.local, None::<usize>)])
    }
}

/// The projection steps of a place applied from position `i` to a
/// value set.
pub open spec fn decompose_steps(
    st: PtState,
    proj: Seq<PlaceElem>,
    i: int,
    values: Seq<Loc>,
) -> (PtState, Seq<Loc>)
    decreases proj.len() - i,
{
    if i < 0 || i >= proj.len() {
        (st, values)
    } else {
        match proj[i] {
            PlaceElem::Deref => {
                let (st1, v1) = deref_all(st, values, true, Seq::empty());
                decompose_steps(st1, proj, i + 1, v1)
            },
            PlaceElem::Field(f) => {
                let (st1, v1) = field_all(st, values, f, Seq::empty());
                decompose_steps(st1, proj, i + 1, v1)
            },
            PlaceElem::Other => decompose_steps(st, proj, i + 1, values),
        }
    }
}

/// One widening pass of the transitive dereference: existing pointees
/// are dereferenced without allocating and fanned out over unknown
/// fields, and the result is unioned in.
pub open spec fn deref_widen(st: PtState, values: Seq<Loc>, wildcard: bool) -> (PtState, Seq<Loc>) {
    let (st1, derefs) = deref_all(st, values, false, Seq::empty());
    let fields = unknown_field_all(st1.pm, derefs, wildcard, Seq::empty());
    (st1, set_union(values, fields))
}

/// The transitive dereference: widening passes run until the value set
/// stops growing, with the pass budget bounding the loop.
pub open spec fn recursively_deref_spec(
    st: PtState,
    values: Seq<Loc>,
    wildcard: bool,
    fuel: nat,
) -> (PtState, Seq<Loc>)
    decreases fuel,
{
    if fuel == 0 {
        (st, values)
    } else {
        let (st1, v1) = deref_widen(st, values, wildcard);
        if v1.len() == values.len() {
            (st1, v1)
        } else {
            recursively_deref_spec(st1, v1, wildcard, (fuel - 1) as nat)
        }
    }
}

/// The pass budget of the transitive dereference, saturating at the
/// machine limit.
pub open spec fn deref_fuel(st: PtState, values: Seq<Loc>) -> nat {
    if st.pm.len() + values.len() + 2 > usize::MAX {
        usize::MAX as nat
    } else {
        (st.pm.len() + values.len() + 2) as nat
    }
}

/// The transitive dereference of a place.
pub open spec fn recursively_deref_place(st: PtState, p: PlaceV, wildcard: bool) -> (
    PtState,
    Seq<Loc>,
) {
    let (st1, values) = decompose_place_spec(st, p, 0);
    recursively_deref_spec(st1, values, wildcard, deref_fuel(st1, values))
}

/// The effect of one statement on the points-to state.
pub open spec fn alias_stmt_step(st: PtState, s: StatementV) -> PtState {
    match s {
        StatementV::Assign(lp, rv) => {
            let (st1, l_values) = decompose_place_spec(st, lp, 0);
            match rv {
                RvalueV::Use(o) | RvalueV::Repeat(o) | RvalueV::Cast(o) => match operand_place(o) {
                    Some(rp) => {
                        let (st2, r_values) = decompose_place_spec(st1, rp, 0);
                        copy_all(st2, l_values, r_values)
                    },
                    None => st1,
                },
                RvalueV::CopyForDeref(rp) => {
                    let (st2, r_values) = decompose_place_spec(st1, rp, 0);
                    copy_all(st2, l_values, r_values)
                },
                RvalueV::Ref(rp) | RvalueV::AddressOf(rp) => {
                    let (st2, r_values) = decompose_place_spec(st1, rp, 0);
                    ref_all(st2, l_values, r_values)
                },
                RvalueV::BinaryOp(o1, o2) => {
                    let sta = match operand_place(o1) {
                        Some(rp) => {
                            let (st2, r_values) = decompose_place_spec(st1, rp, 0);
                            copy_all(st2, l_values, r_values)
                        },
                        None => st1,
                    };
                    match operand_place(o2) {
                        Some(rp) => {
                            let (st2, r_values) = decompose_place_spec(sta, rp, 0);
                            copy_all(st2, l_values, r_values)
                        },
                        None => sta,
                    }
                },
                _ => st1,
            }
        },
        StatementV::Nop => st,
    }
}

/// The statements of a block applied from position `i`.
pub open spec fn alias_stmts_steps(st: PtState, ss: Seq<StatementV>, i: int) -> PtState
    decreases ss.len() - i,
{
    if i < 0 || i >= ss.len() {
        st
    } else {
        alias_stmts_steps(alias_stmt_step(st, ss[i]), ss, i + 1)
    }
}

/// The pairwise unification of call arguments: the transitive
/// dereferences of each ordered pair of distinct arguments are
/// connected.
pub open spec fn alias_call_pairs_inner(
    st: PtState,
    args: Seq<OperandV>,
    i: int,
    j: int,
    wildcard: bool,
) -> PtState
    decreases args.len() - j,
{
    if i < 0 || i >= args.len() || j < 0 || j >= args.len() {
        st
    } else {
        let st1 = if args[i] == args[j] {
            st
        } else {
            match (operand_place(args[i]), operand_place(args[j])) {
                (Some(p1), Some(p2)) => {
                    let (sta, v1) = recursively_deref_place(st, p1, wildcard);
                    let (stb, v2) = recursively_deref_place(sta, p2, wildcard);
                    copy_all(stb, v1, v2)
                },
                _ => st,
            }
        };
        alias_call_pairs_inner(st1, args, i, j + 1, wildcard)
    }
}

/// The pairwise unification over every first argument.
pub open spec fn alias_call_pairs(
    st: PtState,
    args: Seq<OperandV>,
    i: int,
    wildcard: bool,
) -> PtState
    decreases args.len() - i,
{
    if i < 0 || i >= args.len() {
        st
    } else {
        alias_call_pairs(
            alias_call_pairs_inner(st, args, i, 0, wildcard),
            args,
            i + 1,
            wildcard,
        )
    }
}

/// Connecting each argument's transitive dereference into the call
/// destination.
pub open spec fn alias_call_args(
    st: PtState,
    args: Seq<OperandV>,
    i: int,
    l_values: Seq<Loc>,
    wildcard: bool,
) -> PtState
    decreases args.len() - i,
{
    if i < 0 || i >= args.len() {
        st
    } else {
        let st1 = match operand_place(args[i]) {
            Some(rp) => {
                let (sta, r_values) = recursively_deref_place(st, rp, wildcard);
                copy_all(sta, l_values, r_values)
            },
            None => st,
        };
        alias_call_args(st1, args, i + 1, l_values, wildcard)
    }
}

/// The effect of a terminator on the points-to state.
pub open spec fn alias_term_step(st: PtState, t: TerminatorV, wildcard: bool) -> PtState {
    match t {
        TerminatorV::Call { args, destination } => {
            let (st1, l0) = decompose_place_spec(st, destination, 0);
            let l_values = unknown_field_all(st1.pm, l0, wildcard, Seq::empty());
            let st2 = alias_call_pairs(st1, args, 0, wildcard);
            alias_call_args(st2, args, 0, l_values, wildcard)
        },
        TerminatorV::Other => st,
    }
}

/// The whole-body simulation from block `i` on.
pub open spec fn alias_body_steps(st: PtState, body: Seq<BlockV>, i: int, wildcard: bool) -> PtState
    decreases body.len() - i,
{
    if i < 0 || i >= body.len() {
        st
    } else {
        let st1 = alias_stmts_steps(st, body[i].statements, 0);
        let st2 = alias_term_step(st1, body[i].terminator, wildcard);
        alias_body_steps(st2, body, i + 1, wildcard)
    }
}

/// The projection steps of a sub-type path applied to a value set:
/// dereferences allocate for the source side and do not for the
/// target side.
pub open spec fn my_proj_steps(
    st: PtState,
    proj: Seq<ProjV>,
    i: int,
    values: Seq<Loc>,
    create_new: bool,
) -> (PtState, Seq<Loc>)
    decreases proj.len() - i,
{
    if i < 0 || i >= proj.len() {
        (st, values)
    } else {
        match proj[i] {
            ProjV::Deref => {
                let (st1, v1) = deref_all(st, values, create_new, Seq::empty());
                my_proj_steps(st1, proj, i + 1, v1, create_new)
            },
            ProjV::Field(f) => {
                let (st1, v1) = field_all(st, values, f.num, Seq::empty());
                my_proj_steps(st1, proj, i + 1, v1, create_new)
            },
        }
    }
}

/// Whether two location sets intersect.
pub open spec fn locs_intersect(a: Seq<Loc>, b: Seq<Loc>) -> bool {
    exists|x: Loc| a.contains(x) && b.contains(x)
}

/// The complete alias query: decompose the source, simulate the body
/// once, decompose the target, and test for intersection.
pub open spec fn check_alias_spec(
    st: PtState,
    body: Seq<BlockV>,
    source_local: u64,
    source_proj: Seq<ProjV>,
    target_local: u64,
    target_proj: Seq<ProjV>,
    wildcard: bool,
) -> (PtState, bool) {
    let (st1, source_values) = my_proj_steps(
        st,
        source_proj,
        0,
        seq![(source_local, None::<usize>)],
        true,
    );
    let st2 = alias_body_steps(st1, body, 0, wildcard);
    let (st3, target_values) = my_proj_steps(
        st2,
        target_proj,
        0,
        seq![(target_local, None::<usize>)],
        false,
    );
    (st3, locs_intersect(source_values, target_values))
}

/// Whether two locations are equal.
fn loc_eq(a: (u64, Option<usize>), b: (u64, Option<usize>)) -> (r: bool)
    ensures
        r == (a == b),
{
    a.0 == b.0 && (match (a.1, b.1) {
        (None, None) => true,
        (Some(x), Some(y)) => x == y,
        _ => false,
    })
}

/// Whether the location list holds the location.
fn locs_contain(v: &Vec<(u64, Option<usize>)>, x: (u64, Option<usize>)) -> (r: bool)
    ensures
        r == v@.contains(x),
{
    let n = v.len();
    for i in 0..n
        invariant
            n == v@.len(),
            forall|j: int| 0 <= j < i ==> v@[j] != x,
    {
        if loc_eq(v[i], x) {
            assert(v@[i as int] == x);
            return true;
        }
    }
    false
}

/// Inserts a location unless present.
fn push_loc(v: &mut Vec<(u64, Option<usize>)>, x: (u64, Option<usize>))
    ensures
        final(v)@ == set_insert(old(v)@, x),
{
    if !locs_contain(v, x) {
        v.push(x);
    }
}

/// Unions a location list into an accumulator, in order.
fn union_locs(acc: &mut Vec<(u64, Option<usize>)>, src: &Vec<(u64, Option<usize>)>)
    ensures
        final(acc)@ == set_union(old(acc)@, src@),
{
    let ghost a0 = acc@;
    let n = src.len();
    proof {
        assert(src@.subrange(0, n as int) =~= src@);
    }
    for i in 0..n
        invariant
            n == src@.len(),
            set_union(acc@, src@.subrange(i as int, n as int)) == set_union(a0, src@),
    {
        let ghost suf = src@.subrange(i as int, n as int);
        proof {
            assert(suf[0] == src@[i as int]);
            assert(suf.subrange(1, suf.len() as int) =~= src@.subrange(i + 1, n as int));
        }
        push_loc(acc, src[i]);
    }
    assert(src@.subrange(n as int, n as int).len() == 0);
}

/// Clones a location list.
fn clone_locs(v: &Vec<(u64, Option<usize>)>) -> (r: Vec<(u64, Option<usize>)>)
    ensures
        r@ == v@,
{
    let mut out: Vec<(u64, Option<usize>)> = Vec::new();
    let n = v.len();
    for i in 0..n
        invariant
            n == v@.len(),
            out@ == v@.subrange(0, i as int),
    {
        out.push(v[i]);
        assert(out@ =~= v@.subrange(0, i + 1 as int));
    }
    assert(out@ =~= v@);
    out
}

/// `pm_v` read off entry by entry.
pub proof fn lemma_pm_v_index(v: Seq<((u64, Option<usize>), Vec<(u64, Option<usize>)>)>)
    ensures
        pm_v(v).len() == v.len(),
        forall|i: int| 0 <= i < v.len() ==> #[trigger] pm_v(v)[i] == (v[i].0, v[i].1@),
{
    assert forall|i: int| 0 <= i < v.len() implies #[trigger] pm_v(v)[i] == (v[i].0, v[i].1@) by {}
}

/// Maintains a points-to map while simulating one function body; a
/// fresh or reset analyzer answers one alias query.
pub struct AliasAnalyzer<'a> {
    body: &'a Body,
    points_to_map: Vec<((u64, Option<usize>), Vec<(u64, Option<usize>)>)>,
    next_alloc: u64,
    config: YugaConfig,
}

impl<'a> AliasAnalyzer<'a> {
    /// The analyzer's abstract state.
    pub closed spec fn st(&self) -> PtState {
        PtState { pm: pm_v(self.points_to_map@), next_alloc: self.next_alloc }
    }

    /// The body this analyzer reads.
    pub closed spec fn body_view(&self) -> Seq<BlockV> {
        self.body@
    }

    /// Whether unknown field fanout includes the wildcard field.
    pub closed spec fn wildcard(&self) -> bool {
        self.config.wildcard_field
    }

    /// A fresh analyzer over one function body with an empty map.
    pub fn new(body: &'a Body, config: YugaConfig) -> (r: AliasAnalyzer<'a>)
        ensures
            r.st() == (PtState { pm: Seq::<EntryV>::empty(), next_alloc: 4294967295u64 }),
            r.body_view() == body@,
            r.wildcard() == config.wildcard_field,
    {
        let r = AliasAnalyzer { body, points_to_map: Vec::new(), next_alloc: 4294967295, config };
        proof {
            assert(pm_v(r.points_to_map@) =~= Seq::<EntryV>::empty());
        }
        r
    }

    /// Discards the map and the synthetic-location counter, making the
    /// analyzer ready for the next query.
    pub fn reset(&mut self)
        ensures
            final(self).st() == (PtState { pm: Seq::<EntryV>::empty(), next_alloc: 4294967295u64 }),
            final(self).body_view() == old(self).body_view(),
            final(self).wildcard() == old(self).wildcard(),
    {
        self.points_to_map = Vec::new();
        self.next_alloc = 4294967295;
        proof {
            assert(pm_v(self.points_to_map@) =~= Seq::<EntryV>::empty());
        }
    }

    /// Finds the entry index for a location.
    fn find_entry(&self, k: (u64, Option<usize>)) -> (r: Option<usize>)
        ensures
            match r {
                Some(i) => i < self.points_to_map@.len() && pm_find(self.st().pm, k) == Some(
                    i as int,
                ) && self.points_to_map@[i as int].0 == k && pm_get(self.st().pm, k) == Some(
                    self.points_to_map@[i as int].1@,
                ),
                None => pm_find(self.st().pm, k) is None && pm_get(self.st().pm, k) is None,
            },
    {
        let ghost pmv = self.st().pm;
        proof {
            lemma_pm_v_index(self.points_to_map@);
        }
        let n = self.points_to_map.len();
        proof {
            assert(pmv.subrange(0, n as int) =~= pmv);
        }
        for i in 0..n
            invariant
                n == self.points_to_map@.len(),
                pmv == pm_v(self.points_to_map@),
                pmv.len() == n,
                forall|j: int|
                    0 <= j < n ==> #[trigger] pmv[j] == (
                        self.points_to_map@[j].0,
                        self.points_to_map@[j].1@,
                    ),
                pm_find(pmv, k) == (match pm_find(pmv.subrange(i as int, n as int), k) {
                    Some(x) => Some(x + i),
                    None => None::<int>,
                }),
        {
            let ghost suf = pmv.subrange(i as int, n as int);
            proof {
                assert(suf[0] == pmv[i as int]);
                assert(suf.subrange(1, suf.len() as int) =~= pmv.subrange(i + 1, n as int));
            }
            if loc_eq(self.points_to_map[i].0, k) {
                return Some(i);
            }
        }
        proof {
            assert(pmv.subrange(n as int, n as int).len() == 0);
        }
        None
    }

    /// Binds a location to a pointee set, replacing or appending.
    fn put_entry(&mut self, k: (u64, Option<usize>), vs: Vec<(u64, Option<usize>)>)
        ensures
            final(self).st() == (PtState {
                pm: pm_put(old(self).st().pm, k, vs@),
                next_alloc: old(self).st().next_alloc,
            }),
            final(self).body == old(self).body,
            final(self).body_view() == old(self).body_view(),
            final(self).wildcard() == old(self).wildcard(),
    {
        proof {
            lemma_pm_v_index(self.points_to_map@);
        }
        match self.find_entry(k) {
            Some(i) => {
                let ghost pm0 = self.points_to_map@;
                self.points_to_map.set(i, (k, vs));
                proof {
                    lemma_pm_v_index(self.points_to_map@);
                    lemma_pm_v_index(pm0);
                    assert(pm_v(self.points_to_map@) =~= pm_v(pm0).update(i as int, (k, vs@)));
                }
            },
            None => {
                let ghost pm0 = self.points_to_map@;
                self.points_to_map.push((k, vs));
                proof {
                    lemma_pm_v_index(self.points_to_map@);
                    lemma_pm_v_index(pm0);
                    assert(pm_v(self.points_to_map@) =~= pm_v(pm0).push((k, vs@)));
                }
            },
        }
    }

    /// Hands out the next synthetic location.
    fn fresh_loc(&mut self) -> (r: (u64, Option<usize>))
        ensures
            r == (old(self).st().next_alloc, None::<usize>),
            final(self).st() == (PtState {
                pm: old(self).st().pm,
                next_alloc: dec_alloc(old(self).st().next_alloc),
            }),
            final(self).body == old(self).body,
            final(self).body_view() == old(self).body_view(),
            final(self).wildcard() == old(self).wildcard(),
    {
        let r = (self.next_alloc, None);
        if self.next_alloc > 0 {
            self.next_alloc = self.next_alloc - 1;
        }
        r
    }

    /// Dereferences every location of a set, lazily copying wildcard
    /// entries and allocating synthetic locations on a miss when asked.
    fn apply_deref(&mut self, values: &Vec<(u64, Option<usize>)>, create_new: bool) -> (r: Vec<
        (u64, Option<usize>),
    >)
        ensures
            ({
                let (st1, acc) = deref_all(old(self).st(), values@, create_new, Seq::empty());
                final(self).st() == st1 && r@ == acc
            }),
            final(self).body == old(self).body,
            final(self).body_view() == old(self).body_view(),
            final(self).wildcard() == old(self).wildcard(),
    {
        let ghost st0 = self.st();
        let mut acc: Vec<(u64, Option<usize>)> = Vec::new();
        let n = values.len();
        proof {
            assert(values@.subrange(0, n as int) =~= values@);
            assert(acc@ =~= Seq::<Loc>::empty());
        }
        for i in 0..n
            invariant
                n == values@.len(),
                deref_all(self.st(), values@.subrange(i as int, n as int), create_new, acc@)
                    == deref_all(st0, values@, create_new, Seq::empty()),
                self.body == old(self).body,
                self.wildcard() == old(self).wildcard(),
        {
            let ghost suf = values@.subrange(i as int, n as int);
            proof {
                assert(suf[0] == values@[i as int]);
                assert(suf.subrange(1, suf.len() as int) =~= values@.subrange(i + 1, n as int));
            }
            let loc = values[i];
            match self.find_entry(loc) {
                Some(idx) => {
                    let ds = clone_locs(&self.points_to_map[idx].1);
                    union_locs(&mut acc, &ds);
                },
                None => {
                    match loc.1 {
                        Some(_) => {
                            match self.find_entry((loc.0, Some(usize::MAX))) {
                                Some(w) => {
                                    let wild = clone_locs(&self.points_to_map[w].1);
                                    union_locs(&mut acc, &wild);
                                    self.put_entry(loc, wild);
                                },
                                None => {},
                            }
                        },
                        None => {},
                    }
                    if create_new {
                        let fresh = self.fresh_loc();
                        let mut single: Vec<(u64, Option<usize>)> = Vec::new();
                        single.push(fresh);
                        proof {
                            assert(single@ =~= seq![fresh]);
                        }
                        self.put_entry(loc, single);
                        push_loc(&mut acc, fresh);
                    }
                },
            }
        }
        proof {
            assert(values@.subrange(n as int, n as int).len() == 0);
        }
        acc
    }

    /// Selects a field on every location of a set.
    fn apply_field(&mut self, values: &Vec<(u64, Option<usize>)>, field: usize) -> (r: Vec<
        (u64, Option<usize>),
    >)
        ensures
            ({
                let (st1, acc) = field_all(old(self).st(), values@, field, Seq::empty());
                final(self).st() == st1 && r@ == acc
            }),
            final(self).body == old(self).body,
            final(self).body_view() == old(self).body_view(),
            final(self).wildcard() == old(self).wildcard(),
    {
        let ghost st0 = self.st();
        let mut acc: Vec<(u64, Option<usize>)> = Vec::new();
        let n = values.len();
        proof {
            assert(values@.subrange(0, n as int) =~= values@);
            assert(acc@ =~= Seq::<Loc>::empty());
        }
        for i in 0..n
            invariant
                n == values@.len(),
                field_all(self.st(), values@.subrange(i as int, n as int), field, acc@)
                    == field_all(st0, values@, field, Seq::empty()),
                self.body == old(self).body,
                self.wildcard() == old(self).wildcard(),
        {
            let ghost suf = values@.subrange(i as int, n as int);
            proof {
                assert(suf[0] == values@[i as int]);
                assert(suf.subrange(1, suf.len() as int) =~= values@.subrange(i + 1, n as int));
            }
            let loc = values[i];
            match loc.1 {
                Some(_) => {
                    push_loc(&mut acc, loc);
                },
                None => {
                    let sel = (loc.0, Some(field));
                    push_loc(&mut acc, sel);
                    let has_sel = match self.find_entry(sel) {
                        Some(_) => true,
                        None => false,
                    };
                    let has_wild = match self.find_entry((loc.0, Some(usize::MAX))) {
                        Some(_) => true,
                        None => false,
                    };
                    if !has_sel && !has_wild {
                        let fresh = self.fresh_loc();
                        let mut single: Vec<(u64, Option<usize>)> = Vec::new();
                        single.push(fresh);
                        proof {
                            assert(single@ =~= seq![fresh]);
                        }
                        self.put_entry(sel, single);
                    }
                },
            }
        }
        proof {
            assert(values@.subrange(n as int, n as int).len() == 0);
        }
        acc
    }

    /// The recorded field locations of one slot, in entry order.
    fn fields_of_exec(&self, l: u64) -> (r: Vec<(u64, Option<usize>)>)
        ensures
            r@ == fields_of(self.st().pm, l),
    {
        let ghost pmv = self.st().pm;
        proof {
            lemma_pm_v_index(self.points_to_map@);
        }
        let mut out: Vec<(u64, Option<usize>)> = Vec::new();
        let n = self.points_to_map.len();
        proof {
            assert(pmv.subrange(0, n as int) =~= pmv);
            assert(out@ + fields_of(pmv.subrange(0, n as int), l) =~= fields_of(pmv, l));
        }
        for i in 0..n
            invariant
                n == self.points_to_map@.len(),
                pmv == pm_v(self.points_to_map@),
                pmv.len() == n,
                forall|j: int|
                    0 <= j < n ==> #[trigger] pmv[j] == (
                        self.points_to_map@[j].0,
                        self.points_to_map@[j].1@,
                    ),
                out@ + fields_of(pmv.subrange(i as int, n as int), l) == fields_of(pmv, l),
        {
            let ghost suf = pmv.subrange(i as int, n as int);
            proof {
                assert(suf[0] == pmv[i as int]);
                assert(suf.subrange(1, suf.len() as int) =~= pmv.subrange(i + 1, n as int));
            }
            let key = self.points_to_map[i].0;
            let is_field = match key.1 {
                Some(_) => true,
                None => false,
            };
            if key.0 == l && is_field {
                out.push(key);
                proof {
                    assert(out@ + fields_of(pmv.subrange(i + 1, n as int), l) =~= fields_of(
                        pmv,
                        l,
                    ));
                }
            } else {
                proof {
                    assert(out@ + fields_of(pmv.subrange(i + 1, n as int), l) =~= fields_of(
                        pmv,
                        l,
                    ));
                }
            }
        }
        proof {
            assert(pmv.subrange(n as int, n as int).len() == 0);
            assert(fields_of(pmv.subrange(n as int, n as int), l) =~= Seq::<Loc>::empty());
            assert(out@ =~= fields_of(pmv, l));
        }
        out
    }

    /// Fans every location of a set out over its unknown fields.
    fn apply_unknown_field(&self, values: &Vec<(u64, Option<usize>)>) -> (r: Vec<
        (u64, Option<usize>),
    >)
        ensures
            r@ == unknown_field_all(self.st().pm, values@, self.wildcard(), Seq::empty()),
    {
        let mut acc: Vec<(u64, Option<usize>)> = Vec::new();
        let n = values.len();
        proof {
            assert(values@.subrange(0, n as int) =~= values@);
            assert(acc@ =~= Seq::<Loc>::empty());
        }
        for i in 0..n
            invariant
                n == values@.len(),
                unknown_field_all(
                    self.st().pm,
                    values@.subrange(i as int, n as int),
                    self.wildcard(),
                    acc@,
                ) == unknown_field_all(self.st().pm, values@, self.wildcard(), Seq::empty()),
        {
            let ghost suf = values@.subrange(i as int, n as int);
            proof {
                assert(suf[0] == values@[i as int]);
                assert(suf.subrange(1, suf.len() as int) =~= values@.subrange(i + 1, n as int));
            }
            let loc = values[i];
            match loc.1 {
                Some(_) => {
                    push_loc(&mut acc, loc);
                },
                None => {
                    push_loc(&mut acc, loc);
                    let fls = self.fields_of_exec(loc.0);
                    union_locs(&mut acc, &fls);
                    if self.config.wildcard_field {
                        push_loc(&mut acc, (loc.0, Some(usize::MAX)));
                    }
                },
            }
        }
        proof {
            assert(values@.subrange(n as int, n as int).len() == 0);
        }
        acc
    }

    /// A reference assignment `L = &R`.
    fn update_for_ref(
        &mut self,
        l_values: &Vec<(u64, Option<usize>)>,
        r_values: &Vec<(u64, Option<usize>)>,
    )
        ensures
            final(self).st() == ref_all(old(self).st(), l_values@, r_values@),
            final(self).body == old(self).body,
            final(self).body_view() == old(self).body_view(),
            final(self).wildcard() == old(self).wildcard(),
    {
        let ghost st0 = self.st();
        let n = l_values.len();
        proof {
            assert(l_values@.subrange(0, n as int) =~= l_values@);
        }
        for i in 0..n
            invariant
                n == l_values@.len(),
                ref_all(self.st(), l_values@.subrange(i as int, n as int), r_values@) == ref_all(
                    st0,
                    l_values@,
                    r_values@,
                ),
                self.body == old(self).body,
                self.wildcard() == old(self).wildcard(),
        {
            let ghost suf = l_values@.subrange(i as int, n as int);
            proof {
                assert(suf[0] == l_values@[i as int]);
                assert(suf.subrange(1, suf.len() as int) =~= l_values@.subrange(i + 1, n as int));
            }
            let l = l_values[i];
            match self.find_entry(l) {
                Some(idx) => {
                    let mut ls = clone_locs(&self.points_to_map[idx].1);
                    union_locs(&mut ls, r_values);
                    self.put_entry(l, ls);
                },
                None => {
                    let rs = clone_locs(r_values);
                    self.put_entry(l, rs);
                },
            }
        }
        proof {
            assert(l_values@.subrange(n as int, n as int).len() == 0);
        }
    }

    /// A copy of one right location into every left location.
    fn copy_pairs_exec(&mut self, l_values: &Vec<(u64, Option<usize>)>, r: (u64, Option<usize>))
        ensures
            final(self).st() == copy_pairs(old(self).st(), l_values@, r),
            final(self).body == old(self).body,
            final(self).body_view() == old(self).body_view(),
            final(self).wildcard() == old(self).wildcard(),
    {
        let ghost st0 = self.st();
        let n = l_values.len();
        proof {
            assert(l_values@.subrange(0, n as int) =~= l_values@);
        }
        for i in 0..n
            invariant
                n == l_values@.len(),
                copy_pairs(self.st(), l_values@.subrange(i as int, n as int), r) == copy_pairs(
                    st0,
                    l_values@,
                    r,
                ),
                self.body == old(self).body,
                self.wildcard() == old(self).wildcard(),
        {
            let ghost suf = l_values@.subrange(i as int, n as int);
            proof {
                assert(suf[0] == l_values@[i as int]);
                assert(suf.subrange(1, suf.len() as int) =~= l_values@.subrange(i + 1, n as int));
            }
            let l = l_values[i];
            match self.find_entry(r) {
                Some(ridx) => {
                    let rs = clone_locs(&self.points_to_map[ridx].1);
                    match self.find_entry(l) {
                        Some(lidx) => {
                            let mut ls = clone_locs(&self.points_to_map[lidx].1);
                            union_locs(&mut ls, &rs);
                            self.put_entry(l, ls);
                        },
                        None => {
                            self.put_entry(l, rs);
                        },
                    }
                },
                None => {},
            }
        }
        proof {
            assert(l_values@.subrange(n as int, n as int).len() == 0);
        }
    }

    /// The fanout of a whole-slot right side over its recorded fields.
    fn copy_fanout_exec(
        &mut self,
        l_values: &Vec<(u64, Option<usize>)>,
        r_values: &Vec<(u64, Option<usize>)>,
        fls: &Vec<(u64, Option<usize>)>,
    )
        ensures
            final(self).st() == copy_fanout(old(self).st(), l_values@, r_values@, fls@),
            final(self).body == old(self).body,
            final(self).body_view() == old(self).body_view(),
            final(self).wildcard() == old(self).wildcard(),
    {
        let ghost st0 = self.st();
        let n = fls.len();
        proof {
            assert(fls@.subrange(0, n as int) =~= fls@);
        }
        for i in 0..n
            invariant
                n == fls@.len(),
                copy_fanout(self.st(), l_values@, r_values@, fls@.subrange(i as int, n as int))
                    == copy_fanout(st0, l_values@, r_values@, fls@),
                self.body == old(self).body,
                self.wildcard() == old(self).wildcard(),
        {
            let ghost suf = fls@.subrange(i as int, n as int);
            proof {
                assert(suf[0] == fls@[i as int]);
                assert(suf.subrange(1, suf.len() as int) =~= fls@.subrange(i + 1, n as int));
            }
            let fl = fls[i];
            let skip = locs_contain(r_values, fl);
            match fl.1 {
                Some(f) => {
                    if !skip {
                        let new_l = self.apply_field(l_values, f);
                        self.copy_pairs_exec(&new_l, fl);
                    }
                },
                None => {},
            }
        }
        proof {
            assert(fls@.subrange(n as int, n as int).len() == 0);
        }
    }

    /// A copy assignment `L = R` over the value sets.
    fn update_for_copy(
        &mut self,
        l_values: &Vec<(u64, Option<usize>)>,
        r_values: &Vec<(u64, Option<usize>)>,
    )
        ensures
            final(self).st() == copy_all(old(self).st(), l_values@, r_values@),
            final(self).body == old(self).body,
            final(self).body_view() == old(self).body_view(),
            final(self).wildcard() == old(self).wildcard(),
    {
        let ghost st0 = self.st();
        let n = r_values.len();
        for i in 0..n
            invariant
                n == r_values@.len(),
                copy_all_from(st0, l_values@, r_values@, 0) == copy_all_from(
                    self.st(),
                    l_values@,
                    r_values@,
                    i as int,
                ),
                self.body == old(self).body,
                self.wildcard() == old(self).wildcard(),
        {
            let r = r_values[i];
            self.copy_pairs_exec(l_values, r);
            match r.1 {
                Some(_) => {},
                None => {
                    let fls = self.fields_of_exec(r.0);
                    self.copy_fanout_exec(l_values, r_values, &fls);
                },
            }
        }
    }

    /// Decomposes a place: its slot with its projection steps applied.
    fn decompose_place_exec(&mut self, place: &Place) -> (r: Vec<(u64, Option<usize>)>)
        ensures
            ({
                let (st1, vals) = decompose_place_spec(old(self).st(), place@, 0);
                final(self).st() == st1 && r@ == vals
            }),
            final(self).body == old(self).body,
            final(self).body_view() == old(self).body_view(),
            final(self).wildcard() == old(self).wildcard(),
    {
        let ghost st0 = self.st();
        let ghost pv = place@;
        let mut values: Vec<(u64, Option<usize>)> = Vec::new();
        values.push((place.local, None));
        proof {
            assert(values@ =~= seq![(pv.local, None::<usize>)]);
        }
        let n = place.projection.len();
        for i in 0..n
            invariant
                n == place.projection@.len(),
                pv == place@,
                pv.proj.len() == n,
                forall|j: int| 0 <= j < n ==> pv.proj[j] == place.projection@[j],
                decompose_steps(self.st(), pv.proj, i as int, values@) == decompose_steps(
                    st0,
                    pv.proj,
                    0,
                    seq![(pv.local, None::<usize>)],
                ),
                self.body == old(self).body,
                self.wildcard() == old(self).wildcard(),
        {
            match place.projection[i] {
                PlaceElem::Deref => {
                    let v1 = self.apply_deref(&values, true);
                    values = v1;
                },
                PlaceElem::Field(f) => {
                    let v1 = self.apply_field(&values, f);
                    values = v1;
                },
                PlaceElem::Other => {},
            }
        }
        values
    }

    /// The transitive dereference of a place: widening passes until the
    /// value set stops growing, within the pass budget.
    fn recursively_deref(&mut self, place: &Place) -> (r: Vec<(u64, Option<usize>)>)
        ensures
            ({
                let (st1, vals) = recursively_deref_place(old(self).st(), place@, old(self).wildcard());
                final(self).st() == st1 && r@ == vals
            }),
            final(self).body == old(self).body,
            final(self).body_view() == old(self).body_view(),
            final(self).wildcard() == old(self).wildcard(),
    {
        let mut values = self.decompose_place_exec(place);
        proof {
            assert(self.st().pm.len() == self.points_to_map@.len());
        }
        let a = self.points_to_map.len();
        let b = values.len();
        let mut fuel: usize = if b > usize::MAX - 2 {
            usize::MAX
        } else if a > usize::MAX - 2 - b {
            usize::MAX
        } else {
            a + b + 2
        };
        let ghost st_mid = self.st();
        let ghost v_mid = values@;
        let ghost w = self.wildcard();
        proof {
            assert(fuel as nat == deref_fuel(st_mid, v_mid));
        }
        loop
            invariant_except_break
                recursively_deref_spec(self.st(), values@, w, fuel as nat)
                    == recursively_deref_spec(st_mid, v_mid, w, deref_fuel(st_mid, v_mid)),
                w == self.wildcard(),
                self.body == old(self).body,
            ensures
                ({
                    let (stf, vf) = recursively_deref_spec(st_mid, v_mid, w, deref_fuel(st_mid, v_mid));
                    self.st() == stf && values@ == vf
                }),
                w == self.wildcard(),
                self.body == old(self).body,
            decreases fuel,
        {
            if fuel == 0 {
                break;
            }
            let old_len = values.len();
            let ghost st_it = self.st();
            let ghost v_it = values@;
            let derefs = self.apply_deref(&values, false);
            let fields = self.apply_unknown_field(&derefs);
            union_locs(&mut values, &fields);
            proof {
                assert(deref_widen(st_it, v_it, w) == (self.st(), values@));
            }
            if values.len() == old_len {
                break;
            }
            fuel = fuel - 1;
        }
        values
    }

    /// The effect of one statement on the points-to state.
    fn apply_statement(&mut self, stmt: &Statement)
        ensures
            final(self).st() == alias_stmt_step(old(self).st(), stmt@),
            final(self).body == old(self).body,
            final(self).body_view() == old(self).body_view(),
            final(self).wildcard() == old(self).wildcard(),
    {
        match stmt {
            Statement::Assign(lplace, rvalue) => {
                let l_values = self.decompose_place_exec(lplace);
                match rvalue {
                    Rvalue::Use(oper) | Rvalue::Repeat(oper) | Rvalue::Cast(oper) => {
                        match oper {
                            Operand::Move(rp) | Operand::Copy(rp) => {
                                let r_values = self.decompose_place_exec(rp);
                                self.update_for_copy(&l_values, &r_values);
                            },
                            Operand::Constant => {},
                        }
                    },
                    Rvalue::CopyForDeref(rp) => {
                        let r_values = self.decompose_place_exec(rp);
                        self.update_for_copy(&l_values, &r_values);
                    },
                    Rvalue::Ref(rp) | Rvalue::AddressOf(rp) => {
                        let r_values = self.decompose_place_exec(rp);
                        self.update_for_ref(&l_values, &r_values);
                    },
                    Rvalue::BinaryOp(op1, op2) => {
                        match op1 {
                            Operand::Move(rp) | Operand::Copy(rp) => {
                                let r_values = self.decompose_place_exec(rp);
                                self.update_for_copy(&l_values, &r_values);
                            },
                            Operand::Constant => {},
                        }
                        match op2 {
                            Operand::Move(rp) | Operand::Copy(rp) => {
                                let r_values = self.decompose_place_exec(rp);
                                self.update_for_copy(&l_values, &r_values);
                            },
                            Operand::Constant => {},
                        }
                    },
                    _ => {},
                }
            },
            Statement::Nop => {},
        }
    }

    /// The effect of a terminator on the points-to state.
    fn apply_terminator(&mut self, term: &Terminator)
        ensures
            final(self).st() == alias_term_step(old(self).st(), term@, old(self).wildcard()),
            final(self).body == old(self).body,
            final(self).body_view() == old(self).body_view(),
            final(self).wildcard() == old(self).wildcard(),
    {
        match term {
            Terminator::Call { args, destination } => {
                let ghost argsv = args@.map_values(|o: Operand| o@);
                let l0 = self.decompose_place_exec(destination);
                let l_values = self.apply_unknown_field(&l0);
                let ghost st_pairs0 = self.st();
                let n = args.len();
                for i in 0..n
                    invariant
                        n == args@.len(),
                        argsv == args@.map_values(|o: Operand| o@),
                        argsv.len() == n,
                        forall|j: int| 0 <= j < n ==> #[trigger] argsv[j] == args@[j]@,
                        alias_call_pairs(self.st(), argsv, i as int, self.wildcard())
                            == alias_call_pairs(st_pairs0, argsv, 0, self.wildcard()),
                        self.wildcard() == old(self).wildcard(),
                        self.body == old(self).body,
                        self.wildcard() == old(self).wildcard(),
                {
                    let ghost st_inner0 = self.st();
                    for j in 0..n
                        invariant
                            i < n,
                            n == args@.len(),
                            argsv == args@.map_values(|o: Operand| o@),
                            argsv.len() == n,
                            forall|k: int| 0 <= k < n ==> #[trigger] argsv[k] == args@[k]@,
                            alias_call_pairs_inner(self.st(), argsv, i as int, j as int, self.wildcard())
                                == alias_call_pairs_inner(st_inner0, argsv, i as int, 0, self.wildcard()),
                            self.wildcard() == old(self).wildcard(),
                            self.body == old(self).body,
                            self.wildcard() == old(self).wildcard(),
                    {
                        if !crate::taint::operand_eq(&args[i], &args[j]) {
                            match &args[i] {
                                Operand::Move(p1) | Operand::Copy(p1) => {
                                    match &args[j] {
                                        Operand::Move(p2) | Operand::Copy(p2) => {
                                            let v1 = self.recursively_deref(p1);
                                            let v2 = self.recursively_deref(p2);
                                            self.update_for_copy(&v1, &v2);
                                        },
                                        Operand::Constant => {},
                                    }
                                },
                                Operand::Constant => {},
                            }
                        }
                    }
                }
                let ghost st_args0 = self.st();
                for i in 0..n
                    invariant
                        n == args@.len(),
                        argsv == args@.map_values(|o: Operand| o@),
                        argsv.len() == n,
                        forall|j: int| 0 <= j < n ==> #[trigger] argsv[j] == args@[j]@,
                        alias_call_args(self.st(), argsv, i as int, l_values@, self.wildcard())
                            == alias_call_args(st_args0, argsv, 0, l_values@, self.wildcard()),
                        self.wildcard() == old(self).wildcard(),
                        self.body == old(self).body,
                        self.wildcard() == old(self).wildcard(),
                {
                    match &args[i] {
                        Operand::Move(rp) | Operand::Copy(rp) => {
                            let r_values = self.recursively_deref(rp);
                            self.update_for_copy(&l_values, &r_values);
                        },
                        Operand::Constant => {},
                    }
                }
            },
            Terminator::Other => {},
        }
    }

    /// Applies a sub-type projection path to a seed value set.
    fn apply_my_proj(
        &mut self,
        local: u64,
        proj: &Vec<MyProjection>,
        create_new: bool,
    ) -> (r: Vec<(u64, Option<usize>)>)
        ensures
            ({
                let (st1, vals) = my_proj_steps(
                    old(self).st(),
                    projs_v(proj@),
                    0,
                    seq![(local, None::<usize>)],
                    create_new,
                );
                final(self).st() == st1 && r@ == vals
            }),
            final(self).body == old(self).body,
            final(self).body_view() == old(self).body_view(),
            final(self).wildcard() == old(self).wildcard(),
    {
        let ghost st0 = self.st();
        let ghost pj = projs_v(proj@);
        let mut values: Vec<(u64, Option<usize>)> = Vec::new();
        values.push((local, None));
        proof {
            assert(values@ =~= seq![(local, None::<usize>)]);
        }
        let n = proj.len();
        for i in 0..n
            invariant
                n == proj@.len(),
                pj == projs_v(proj@),
                pj.len() == n,
                forall|j: int| 0 <= j < n ==> #[trigger] pj[j] == proj@[j]@,
                my_proj_steps(self.st(), pj, i as int, values@, create_new) == my_proj_steps(
                    st0,
                    pj,
                    0,
                    seq![(local, None::<usize>)],
                    create_new,
                ),
                self.body == old(self).body,
                self.wildcard() == old(self).wildcard(),
        {
            match &proj[i] {
                MyProjection::MyDeref => {
                    let v1 = self.apply_deref(&values, create_new);
                    values = v1;
                },
                MyProjection::MyField(f) => {
                    let v1 = self.apply_field(&values, f.field_num);
                    values = v1;
                },
            }
        }
        values
    }

    /// Answers "may the source reach the target": decomposes the source
    /// path, simulates the body once with real pointer semantics, then
    /// decomposes the target path and tests whether the two pointee
    /// sets intersect.
    pub fn check_alias(
        &mut self,
        source_local: u64,
        source_proj: &Vec<MyProjection>,
        target_local: u64,
        target_proj: &Vec<MyProjection>,
    ) -> (r: bool)
        ensures
            ({
                let (st1, verdict) = check_alias_spec(
                    old(self).st(),
                    old(self).body_view(),
                    source_local,
                    projs_v(source_proj@),
                    target_local,
                    projs_v(target_proj@),
                    old(self).wildcard(),
                );
                final(self).st() == st1 && r == verdict
            }),
            final(self).body_view() == old(self).body_view(),
            final(self).wildcard() == old(self).wildcard(),
    {
        let source_values = self.apply_my_proj(source_local, source_proj, true);
        let ghost st_body0 = self.st();
        let ghost bv = self.body@;
        let nb = self.body.blocks.len();
        for b in 0..nb
            invariant
                nb == self.body.blocks@.len(),
                bv == self.body@,
                bv.len() == nb,
                forall|j: int| 0 <= j < nb ==> #[trigger] bv[j] == self.body.blocks@[j]@,
                alias_body_steps(self.st(), bv, b as int, self.wildcard()) == alias_body_steps(
                    st_body0,
                    bv,
                    0,
                    self.wildcard(),
                ),
                self.body == old(self).body,
                self.wildcard() == old(self).wildcard(),
        {
            let ghost st_blk0 = self.st();
            let ghost sv = bv[b as int].statements;
            let ns = self.body.blocks[b].statements.len();
            for st_i in 0..ns
                invariant
                    b < nb,
                    nb == self.body.blocks@.len(),
                    bv == self.body@,
                    bv.len() == nb,
                    forall|j: int| 0 <= j < nb ==> #[trigger] bv[j] == self.body.blocks@[j]@,
                    sv == bv[b as int].statements,
                    ns == self.body.blocks@[b as int].statements@.len(),
                    sv.len() == ns,
                    forall|j: int|
                        0 <= j < ns ==> #[trigger] sv[j] == self.body.blocks@[b as int].statements@[j]@,
                    alias_stmts_steps(self.st(), sv, st_i as int) == alias_stmts_steps(
                        st_blk0,
                        sv,
                        0,
                    ),
                    self.body == old(self).body,
                    self.wildcard() == old(self).wildcard(),
            {
                let stmt = &self.body.blocks[b].statements[st_i];
                self.apply_statement(stmt);
            }
            let term = &self.body.blocks[b].terminator;
            self.apply_terminator(term);
        }
        proof {
            assert(alias_body_steps(self.st(), bv, nb as int, self.wildcard()) == self.st());
        }
        let target_values = self.apply_my_proj(target_local, target_proj, false);
        let ghost st3g = self.st();
        let ns2 = source_values.len();
        for i in 0..ns2
            invariant
                ns2 == source_values@.len(),
                self.st() == st3g,
                self.body == old(self).body,
                self.wildcard() == old(self).wildcard(),
                check_alias_spec(
                    old(self).st(),
                    old(self).body_view(),
                    source_local,
                    projs_v(source_proj@),
                    target_local,
                    projs_v(target_proj@),
                    old(self).wildcard(),
                ) == (st3g, locs_intersect(source_values@, target_values@)),
                forall|j: int|
                    0 <= j < i ==> !target_values@.contains(#[trigger] source_values@[j]),
        {
            if locs_contain(&target_values, source_values[i]) {
                assert(source_values@.contains(source_values@[i as int]));
                assert(target_values@.contains(source_values@[i as int]));
                return true;
            }
        }
        proof {
            assert forall|x: Loc| !(source_values@.contains(x) && target_values@.contains(x)) by {
                if source_values@.contains(x) {
                    let j = choose|j: int|
                        0 <= j < source_values@.len() && source_values@[j] == x;
                }
            }
        }
        false
    }
}

} // verus!
