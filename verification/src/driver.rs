//! The analysis driver: enumerates eligible functions, forms
//! (argument, return) and (argument, argument) candidate sub-type
//! pairs, classifies each pair structurally, confirms flagged pairs
//! with exactly one dataflow query each, and collects the confirmed
//! violations as report records.

use vstd::prelude::*;

use crate::alias::{check_alias_spec, EntryV, PtState};
use crate::checks::{
    arg_arg_outlives, arg_arg_outlives_spec, arg_return_mut, arg_return_mut_spec,
    arg_return_outlives, arg_return_outlives_spec, projs_v,
};
use crate::config::YugaConfig;
use crate::lifetimes::LifetimeName;
use crate::mir::{Body, BlockV};
use crate::process::{
    clone_subtype, decompose_spec, get_implicit_lifetime_bounds, get_sub_types,
    implicit_bounds_spec, subs_v,
};
use crate::taint::{apply_edges, edges_of, taint_check, TaintAnalyzer, TaintMark};
use crate::types::{
    bmap_v, crate_v, BoundsInfo, BoundsV, CrateModel, CrateV, MyProjection, ShortLivedType,
    SubTypeV, TypeExpr, TyV, ty_v,
};

verus! {

/// Which check flagged a violation.
#[derive(Clone, Copy, Debug, PartialEq, Eq, Structural)]
pub enum ViolationKind {
    /// The return value may outlive an argument's data.
    ReturnEscape,
    /// A mutable, struct-housed raw source escapes into a borrowed
    /// return value.
    MutableAliasing,
    /// One argument's data may escape into a writable position of
    /// another argument.
    ArgArgEscape,
}

/// One function parameter: its declared name and the storage slot the
/// front end resolved it to, if any.
pub struct ParamInfo {
    pub name: String,
    pub local: Option<u64>,
}

/// One analyzable function: its typed signature, bounds, parameter
/// slots, and linearized body.
pub struct MirFunc {
    pub func_name: String,
    pub impl_trait: String,
    pub is_public: bool,
    pub is_unsafe: bool,
    pub inputs: Vec<TypeExpr>,
    pub output: Option<TypeExpr>,
    pub generic_bounds: Vec<(u64, BoundsInfo)>,
    pub lifetime_bounds: Vec<(LifetimeName, LifetimeName)>,
    pub params: Vec<ParamInfo>,
    pub mir_body: Body,
}

/// Mathematical image of a [`MirFunc`].
pub ghost struct MirFuncV {
    pub func_name: Seq<char>,
    pub impl_trait: Seq<char>,
    pub is_public: bool,
    pub is_unsafe: bool,
    pub inputs: Seq<TyV>,
    pub output: Option<TyV>,
    pub generic_bounds: Seq<(u64, BoundsV)>,
    pub lifetime_bounds: Seq<(LifetimeName, LifetimeName)>,
    pub params: Seq<Option<u64>>,
    pub body: Seq<BlockV>,
}

/// The image of an input list.
pub open spec fn inputs_v(v: Seq<TypeExpr>) -> Seq<TyV>
    decreases v,
{
    if v.len() == 0 {
        Seq::empty()
    } else {
        inputs_v(v.drop_last()).push(ty_v(v.last()))
    }
}

/// `inputs_v` read off element by element.
pub proof fn lemma_inputs_v_index(v: Seq<TypeExpr>)
    ensures
        inputs_v(v).len() == v.len(),
        forall|i: int| 0 <= i < v.len() ==> #[trigger] inputs_v(v)[i] == ty_v(v[i]),
    decreases v,
{
    if v.len() > 0 {
        lemma_inputs_v_index(v.drop_last());
        assert forall|i: int| 0 <= i < v.len() implies #[trigger] inputs_v(v)[i] == ty_v(v[i]) by {
            if i < v.len() - 1 {
                assert(v.drop_last()[i] == v[i]);
            }
        }
    }
}

/// The image of a function.
pub open spec fn func_v(f: MirFunc) -> MirFuncV {
    MirFuncV {
        func_name: f.func_name@,
        impl_trait: f.impl_trait@,
        is_public: f.is_public,
        is_unsafe: f.is_unsafe,
        inputs: inputs_v(f.inputs@),
        output: match f.output {
            Some(t) => Some(ty_v(t)),
            None => None,
        },
        generic_bounds: bmap_v(f.generic_bounds@),
        lifetime_bounds: f.lifetime_bounds@,
        params: f.params@.map_values(|p: ParamInfo| p.local),
        body: f.mir_body@,
    }
}

/// One confirmed violation, ready for the reporting collaborator.
pub struct Report {
    pub func_name: String,
    pub error_type: String,
    pub kind: ViolationKind,
    pub inp_num: usize,
    pub inp_num2: Option<usize>,
    pub src_ty: ShortLivedType,
    pub tgt_ty: ShortLivedType,
    pub src_bounding: Vec<LifetimeName>,
    pub tgt_bounding: Vec<LifetimeName>,
}

/// Mathematical image of a [`Report`].
pub ghost struct ReportV {
    pub func_name: Seq<char>,
    pub kind: ViolationKind,
    pub inp_num: usize,
    pub inp_num2: Option<usize>,
    pub src: SubTypeV,
    pub tgt: SubTypeV,
    pub src_bounding: Seq<LifetimeName>,
    pub tgt_bounding: Seq<LifetimeName>,
}

impl View for Report {
    type V = ReportV;

    open spec fn view(&self) -> ReportV {
        ReportV {
            func_name: self.func_name@,
            kind: self.kind,
            inp_num: self.inp_num,
            inp_num2: self.inp_num2,
            src: self.src_ty@,
            tgt: self.tgt_ty@,
            src_bounding: self.src_bounding@,
            tgt_bounding: self.tgt_bounding@,
        }
    }
}

/// The view of a report vector, element by element.
pub open spec fn reports_v(v: Seq<Report>) -> Seq<ReportV> {
    v.map_values(|r: Report| r@)
}

/// The dataflow-relevant configuration.
pub ghost struct CfgV {
    pub generic_matches_all: bool,
    pub wildcard_field: bool,
    pub pub_only: bool,
    pub shallow_filter: bool,
    pub alias_analysis: bool,
    pub no_mir: bool,
    pub filter_by_drop_impl: bool,
    pub keep_all_violations: bool,
}

/// The image of a configuration.
pub open spec fn cfg_v(c: YugaConfig) -> CfgV {
    CfgV {
        generic_matches_all: c.generic_matches_all,
        wildcard_field: c.wildcard_field,
        pub_only: c.pub_only,
        shallow_filter: c.shallow_filter,
        alias_analysis: c.alias_analysis,
        no_mir: c.no_mir,
        filter_by_drop_impl: c.filter_by_drop_impl,
        keep_all_violations: c.keep_all_violations,
    }
}

/// Whether a source and a target sub-type are about the same data:
/// nominal identities must agree, with a missing identity matching
/// everything or only other missing identities depending on the knob,
/// and closure sub-types always comparing.
pub open spec fn ident_match(src: SubTypeV, tgt: SubTypeV, generic_matches_all: bool) -> bool {
    if generic_matches_all {
        !(src.def_id is Some && tgt.def_id is Some && src.def_id != tgt.def_id && !src.is_closure
            && !tgt.is_closure)
    } else {
        !(src.def_id != tgt.def_id && !src.is_closure && !tgt.is_closure)
    }
}

/// The empty points-to state every alias query starts from.
pub open spec fn fresh_pt() -> PtState {
    PtState { pm: Seq::<EntryV>::empty(), next_alloc: 4294967295u64 }
}

/// Whether one dataflow query confirms that the source location can
/// reach the target location, under the configured strategy: the
/// always-true mode, the points-to analysis, or taint propagation.
/// Engine state never survives from one query into the next.
pub open spec fn dataflow_confirms(
    f: MirFuncV,
    cfg: CfgV,
    src_local: u64,
    src: SubTypeV,
    tgt_local: u64,
    tgt: SubTypeV,
) -> bool {
    if cfg.no_mir {
        true
    } else if cfg.alias_analysis {
        check_alias_spec(
            fresh_pt(),
            f.body,
            src_local,
            src.proj,
            tgt_local,
            tgt.proj,
            cfg.wildcard_field,
        ).1
    } else {
        taint_check(
            apply_edges(
                Set::<TaintMark>::empty().insert((src_local, sub_first_field(src))),
                edges_of(f.body),
            ),
            tgt_local,
            sub_first_field(tgt),
        )
    }
}

/// The first field index a sub-type's projection selects.
pub open spec fn sub_first_field(s: SubTypeV) -> Option<usize> {
    proj_first_field(s.proj)
}

/// The first field index among a sub-type projection path.
pub open spec fn proj_first_field(proj: Seq<crate::types::ProjV>) -> Option<usize>
    decreases proj.len(),
{
    if proj.len() == 0 {
        None
    } else {
        match proj[0] {
            crate::types::ProjV::Field(f) => Some(f.num),
            crate::types::ProjV::Deref => proj_first_field(
                proj.subrange(1, proj.len() as int),
            ),
        }
    }
}

/// The decomposition of the function's return type.
pub open spec fn ret_subs_of(f: MirFuncV, ctx: CrateV) -> Seq<SubTypeV> {
    match f.output {
        Some(t) => decompose_spec(t, f.generic_bounds, ctx, Seq::empty()),
        None => Seq::empty(),
    }
}

/// The decomposition of input `i`.
pub open spec fn inp_subs_of(f: MirFuncV, ctx: CrateV, i: int) -> Seq<SubTypeV> {
    decompose_spec(f.inputs[i], f.generic_bounds, ctx, Seq::empty())
}

/// The bound set used when input `i` is the source: the input's
/// implicit bounds followed by the function's explicit bounds.
pub open spec fn bounds_of(f: MirFuncV, ctx: CrateV, i: int) -> Seq<(LifetimeName, LifetimeName)> {
    implicit_bounds_spec(f.inputs[i], f.generic_bounds, ctx) + f.lifetime_bounds
}

/// The report an (argument, return) candidate yields, if the pair is
/// structurally a violation, the argument has a resolved slot, and one
/// dataflow query confirms it. Use-after-free takes priority over
/// aliased mutability for the same pair.
pub open spec fn ar_candidate_report(
    f: MirFuncV,
    ctx: CrateV,
    cfg: CfgV,
    i: int,
    src: SubTypeV,
    tgt: SubTypeV,
) -> Option<ReportV> {
    if !ident_match(src, tgt, cfg.generic_matches_all) {
        None
    } else {
        let bounds = bounds_of(f, ctx, i);
        let uaf = arg_return_outlives_spec(src, tgt, bounds, ctx, cfg.filter_by_drop_impl);
        if uaf.0 {
            if f.params[i] is None {
                None
            } else if dataflow_confirms(f, cfg, f.params[i]->0, src, 0, tgt) {
                Some(
                    ReportV {
                        func_name: f.func_name,
                        kind: ViolationKind::ReturnEscape,
                        inp_num: i as usize,
                        inp_num2: None,
                        src,
                        tgt,
                        src_bounding: uaf.1.0,
                        tgt_bounding: uaf.1.1,
                    },
                )
            } else {
                ar_mut_report(f, ctx, cfg, i, src, tgt)
            }
        } else {
            ar_mut_report(f, ctx, cfg, i, src, tgt)
        }
    }
}

/// The aliased-mutability half of an (argument, return) candidate.
pub open spec fn ar_mut_report(
    f: MirFuncV,
    ctx: CrateV,
    cfg: CfgV,
    i: int,
    src: SubTypeV,
    tgt: SubTypeV,
) -> Option<ReportV> {
    let bounds = bounds_of(f, ctx, i);
    let mutv = arg_return_mut_spec(src, tgt, bounds);
    if mutv.0 {
        if f.params[i] is None {
            None
        } else if dataflow_confirms(f, cfg, f.params[i]->0, src, 0, tgt) {
            Some(
                ReportV {
                    func_name: f.func_name,
                    kind: ViolationKind::MutableAliasing,
                    inp_num: i as usize,
                    inp_num2: None,
                    src,
                    tgt,
                    src_bounding: mutv.1.0,
                    tgt_bounding: mutv.1.1,
                },
            )
        } else {
            None
        }
    } else {
        None
    }
}

/// Every confirmed (argument, return) violation of the function, in
/// candidate order: arguments outermost, return sub-types next, input
/// sub-types innermost.
pub open spec fn ar_collect(f: MirFuncV, ctx: CrateV, cfg: CfgV, i: int, j: int, k: int) -> Seq<
    ReportV,
>
    decreases f.inputs.len() - i, ret_subs_of(f, ctx).len() - j, inp_subs_of(f, ctx, i).len() - k,
{
    if i < 0 || j < 0 || k < 0 || i >= f.inputs.len() {
        Seq::empty()
    } else if j >= ret_subs_of(f, ctx).len() {
        ar_collect(f, ctx, cfg, i + 1, 0, 0)
    } else if k >= inp_subs_of(f, ctx, i).len() {
        ar_collect(f, ctx, cfg, i, j + 1, 0)
    } else {
        (match ar_candidate_report(
            f,
            ctx,
            cfg,
            i,
            inp_subs_of(f, ctx, i)[k],
            ret_subs_of(f, ctx)[j],
        ) {
            Some(r) => seq![r],
            None => Seq::empty(),
        }) + ar_collect(f, ctx, cfg, i, j, k + 1)
    }
}

/// The report an (argument, argument) candidate yields.
pub open spec fn aa_candidate_report(
    f: MirFuncV,
    ctx: CrateV,
    cfg: CfgV,
    i1: int,
    i2: int,
    src: SubTypeV,
    tgt: SubTypeV,
) -> Option<ReportV> {
    if !ident_match(src, tgt, cfg.generic_matches_all) {
        None
    } else {
        let bounds = implicit_bounds_spec(f.inputs[i2], f.generic_bounds, ctx) + bounds_of(
            f,
            ctx,
            i1,
        );
        let v = arg_arg_outlives_spec(src, tgt, bounds);
        if v.0 {
            if f.params[i1] is None || f.params[i2] is None {
                None
            } else if dataflow_confirms(f, cfg, f.params[i1]->0, src, f.params[i2]->0, tgt) {
                Some(
                    ReportV {
                        func_name: f.func_name,
                        kind: ViolationKind::ArgArgEscape,
                        inp_num: i1 as usize,
                        inp_num2: Some(i2 as usize),
                        src,
                        tgt,
                        src_bounding: v.1.0,
                        tgt_bounding: v.1.1,
                    },
                )
            } else {
                None
            }
        } else {
            None
        }
    }
}

/// Every confirmed (argument, argument) violation of the function, in
/// candidate order.
pub open spec fn aa_collect(
    f: MirFuncV,
    ctx: CrateV,
    cfg: CfgV,
    i1: int,
    i2: int,
    k1: int,
    k2: int,
) -> Seq<ReportV>
    decreases
            f.inputs.len() - i1,
            f.inputs.len() - i2,
            inp_subs_of(f, ctx, i1).len() - k1,
            inp_subs_of(f, ctx, i2).len() - k2,
{
    if i1 < 0 || i2 < 0 || k1 < 0 || k2 < 0 || i1 >= f.inputs.len() {
        Seq::empty()
    } else if i2 >= f.inputs.len() {
        aa_collect(f, ctx, cfg, i1 + 1, 0, 0, 0)
    } else if i1 == i2 {
        aa_collect(f, ctx, cfg, i1, i2 + 1, 0, 0)
    } else if k1 >= inp_subs_of(f, ctx, i1).len() {
        aa_collect(f, ctx, cfg, i1, i2 + 1, 0, 0)
    } else if k2 >= inp_subs_of(f, ctx, i2).len() {
        aa_collect(f, ctx, cfg, i1, i2, k1 + 1, 0)
    } else {
        (match aa_candidate_report(
            f,
            ctx,
            cfg,
            i1,
            i2,
            inp_subs_of(f, ctx, i1)[k1],
            inp_subs_of(f, ctx, i2)[k2],
        ) {
            Some(r) => seq![r],
            None => Seq::empty(),
        }) + aa_collect(f, ctx, cfg, i1, i2, k1, k2 + 1)
    }
}

/// The first field index a sub-type projection path selects.
pub fn get_first_field(proj: &Vec<MyProjection>) -> (r: Option<usize>)
    ensures
        r == proj_first_field(projs_v(proj@)),
{
    let ghost pj = projs_v(proj@);
    let n = proj.len();
    proof {
        assert(pj.subrange(0, n as int) =~= pj);
    }
    for i in 0..n
        invariant
            n == proj@.len(),
            pj == projs_v(proj@),
            pj.len() == n,
            forall|j: int| 0 <= j < n ==> #[trigger] pj[j] == proj@[j]@,
            proj_first_field(pj.subrange(i as int, n as int)) == proj_first_field(pj),
    {
        let ghost suf = pj.subrange(i as int, n as int);
        proof {
            assert(suf[0] == pj[i as int]);
            assert(suf.subrange(1, suf.len() as int) =~= pj.subrange(i + 1, n as int));
        }
        match &proj[i] {
            MyProjection::MyField(f) => {
                return Some(f.field_num);
            },
            MyProjection::MyDeref => {},
        }
    }
    proof {
        assert(pj.subrange(n as int, n as int).len() == 0);
    }
    None
}

/// Appending one more report to a vector appends its image.
proof fn lemma_reports_push(o0: Seq<Report>, t: Report, mid: Seq<ReportV>, tail: Seq<ReportV>)
    requires
        reports_v(o0) == mid + tail,
    ensures
        reports_v(o0.push(t)) == mid + tail.push(t@),
{
    assert(reports_v(o0).len() == o0.len());
    assert forall|j: int| 0 <= j < o0.len() + 1 implies reports_v(o0.push(t))[j] == (mid
        + tail.push(t@))[j] by {
        assert(reports_v(o0.push(t))[j] == o0.push(t)[j]@);
        if j < o0.len() {
            assert(o0.push(t)[j] == o0[j]);
            assert(reports_v(o0)[j] == o0[j]@);
            if j < mid.len() {
                assert((mid + tail)[j] == mid[j]);
                assert((mid + tail.push(t@))[j] == mid[j]);
            } else {
                assert((mid + tail)[j] == tail[j - mid.len()]);
                assert((mid + tail.push(t@))[j] == tail.push(t@)[j - mid.len()]);
                assert(tail.push(t@)[j - mid.len()] == tail[j - mid.len()]);
            }
        } else {
            assert(o0.push(t)[j] == t);
            assert((mid + tail.push(t@))[j] == tail.push(t@)[j - mid.len()]);
            assert(j - mid.len() == tail.len());
            assert(tail.push(t@)[tail.len() as int] == t@);
        }
    }
    assert(reports_v(o0.push(t)) =~~= mid + tail.push(t@));
}

/// Whether two optional identities are the same.
fn opt_u64_eq(a: Option<u64>, b: Option<u64>) -> (r: bool)
    ensures
        r == (a == b),
{
    match (a, b) {
        (None, None) => true,
        (Some(x), Some(y)) => x == y,
        _ => false,
    }
}

/// Whether a source and a target sub-type are about the same data.
fn ident_match_exec(src: &ShortLivedType, tgt: &ShortLivedType, generic_matches_all: bool) -> (r:
    bool)
    ensures
        r == ident_match(src@, tgt@, generic_matches_all),
{
    let differ = !opt_u64_eq(src.def_id, tgt.def_id);
    if generic_matches_all {
        let both = match (src.def_id, tgt.def_id) {
            (Some(_), Some(_)) => true,
            _ => false,
        };
        !(both && differ && !src.is_closure && !tgt.is_closure)
    } else {
        !(differ && !src.is_closure && !tgt.is_closure)
    }
}

/// Orchestrates the pipeline over all eligible functions of the crate
/// under analysis.
pub struct LifetimeChecker<'a> {
    tcx: &'a CrateModel,
    config: YugaConfig,
}

impl<'a> LifetimeChecker<'a> {
    /// The crate context in the mathematical model.
    pub closed spec fn ctx_v(&self) -> CrateV {
        crate_v(*self.tcx)
    }

    /// The configuration in the mathematical model.
    pub closed spec fn cfg(&self) -> CfgV {
        cfg_v(self.config)
    }

    /// A checker over one crate context with one configuration.
    pub fn new(tcx: &'a CrateModel, config: YugaConfig) -> (r: LifetimeChecker<'a>)
        ensures
            r.ctx_v() == crate_v(*tcx),
            r.cfg() == cfg_v(config),
    {
        LifetimeChecker { tcx, config }
    }

    /// Runs the configured dataflow strategy once for a candidate
    /// pair, with fresh engine state.
    fn eval_dataflow(
        &self,
        func: &MirFunc,
        src_local: u64,
        src: &ShortLivedType,
        tgt_local: u64,
        tgt: &ShortLivedType,
    ) -> (r: bool)
        ensures
            r == dataflow_confirms(func_v(*func), self.cfg(), src_local, src@, tgt_local, tgt@),
    {
        if self.config.no_mir {
            true
        } else if self.config.alias_analysis {
            let mut aa = crate::alias::AliasAnalyzer::new(&func.mir_body, self.config.clone_cfg());
            let r = aa.check_alias(src_local, &src.projection, tgt_local, &tgt.projection);
            r
        } else {
            let mut ta = TaintAnalyzer::new(&func.mir_body, self.config.clone_cfg());
            let sf = get_first_field(&src.projection);
            let tf = get_first_field(&tgt.projection);
            ta.mark_taint(src_local, sf);
            ta.check_taint(tgt_local, tf)
        }
    }

    /// The aliased-mutability half of one (argument, return)
    /// candidate.
    fn ar_mut_half(
        &self,
        func: &MirFunc,
        i: usize,
        src: &ShortLivedType,
        tgt: &ShortLivedType,
        bounds: &Vec<(LifetimeName, LifetimeName)>,
    ) -> (r: Option<Report>)
        requires
            i < func.params@.len(),
            i < func_v(*func).inputs.len(),
            bounds@ == bounds_of(func_v(*func), self.ctx_v(), i as int),
        ensures
            match r {
                Some(rep) => ar_mut_report(
                    func_v(*func),
                    self.ctx_v(),
                    self.cfg(),
                    i as int,
                    src@,
                    tgt@,
                ) == Some(rep@),
                None => ar_mut_report(
                    func_v(*func),
                    self.ctx_v(),
                    self.cfg(),
                    i as int,
                    src@,
                    tgt@,
                ) is None,
            },
    {
        let mutv = arg_return_mut(src, tgt, bounds, &self.config);
        if !mutv.0 {
            return None;
        }
        match func.params[i].local {
            None => None,
            Some(pl) => {
                if self.eval_dataflow(func, pl, src, 0, tgt) {
                    Some(
                        Report {
                            func_name: func.func_name.clone(),
                            error_type: String::from_str("uaf"),
                            kind: ViolationKind::MutableAliasing,
                            inp_num: i,
                            inp_num2: None,
                            src_ty: clone_subtype(src),
                            tgt_ty: clone_subtype(tgt),
                            src_bounding: mutv.1.0,
                            tgt_bounding: mutv.1.1,
                        },
                    )
                } else {
                    None
                }
            },
        }
    }

    /// The report one (argument, return) candidate yields, if any.
    fn ar_candidate(
        &self,
        func: &MirFunc,
        i: usize,
        src: &ShortLivedType,
        tgt: &ShortLivedType,
        bounds: &Vec<(LifetimeName, LifetimeName)>,
    ) -> (r: Option<Report>)
        requires
            i < func.params@.len(),
            i < func_v(*func).inputs.len(),
            bounds@ == bounds_of(func_v(*func), self.ctx_v(), i as int),
        ensures
            match r {
                Some(rep) => ar_candidate_report(
                    func_v(*func),
                    self.ctx_v(),
                    self.cfg(),
                    i as int,
                    src@,
                    tgt@,
                ) == Some(rep@),
                None => ar_candidate_report(
                    func_v(*func),
                    self.ctx_v(),
                    self.cfg(),
                    i as int,
                    src@,
                    tgt@,
                ) is None,
            },
    {
        if !ident_match_exec(src, tgt, self.config.generic_matches_all) {
            return None;
        }
        let uaf = arg_return_outlives(src, tgt, bounds, self.tcx, &self.config);
        if uaf.0 {
            match func.params[i].local {
                None => None,
                Some(pl) => {
                    if self.eval_dataflow(func, pl, src, 0, tgt) {
                        Some(
                            Report {
                                func_name: func.func_name.clone(),
                                error_type: String::from_str("uaf"),
                                kind: ViolationKind::ReturnEscape,
                                inp_num: i,
                                inp_num2: None,
                                src_ty: clone_subtype(src),
                                tgt_ty: clone_subtype(tgt),
                                src_bounding: uaf.1.0,
                                tgt_bounding: uaf.1.1,
                            },
                        )
                    } else {
                        self.ar_mut_half(func, i, src, tgt, bounds)
                    }
                },
            }
        } else {
            self.ar_mut_half(func, i, src, tgt, bounds)
        }
    }

    /// Scans every (argument, return-sub-type, argument-sub-type)
    /// candidate of the function and collects the confirmed
    /// violations, in candidate order.
    pub fn check_arg_return_violations(&self, func: &MirFunc) -> (r: Vec<Report>)
        requires
            func.params@.len() == func.inputs@.len(),
        ensures
            reports_v(r@) == ar_collect(func_v(*func), self.ctx_v(), self.cfg(), 0, 0, 0),
    {
        let ghost fv = func_v(*func);
        let ghost cv = self.ctx_v();
        let ghost cg = self.cfg();
        proof {
            lemma_inputs_v_index(func.inputs@);
        }
        let ret_subs = match &func.output {
            Some(t) => get_sub_types(t, &func.generic_bounds, self.tcx),
            None => Vec::new(),
        };
        proof {
            if func.output is None {
                assert(subs_v(ret_subs@) =~~= ret_subs_of(fv, cv));
            }
            assert(subs_v(ret_subs@) == ret_subs_of(fv, cv));
        }
        let mut out: Vec<Report> = Vec::new();
        let ni = func.inputs.len();
        proof {
            assert(reports_v(out@) =~= Seq::<ReportV>::empty());
        }
        for i in 0..ni
            invariant
                ni == func.inputs@.len(),
                ni == func.params@.len(),
                fv == func_v(*func),
                cv == self.ctx_v(),
                cg == self.cfg(),
                fv.inputs.len() == ni,
                subs_v(ret_subs@) == ret_subs_of(fv, cv),
                reports_v(out@) + ar_collect(fv, cv, cg, i as int, 0, 0) == ar_collect(
                    fv,
                    cv,
                    cg,
                    0,
                    0,
                    0,
                ),
        {
            proof {
                lemma_inputs_v_index(func.inputs@);
            }
            let inp_subs = get_sub_types(&func.inputs[i], &func.generic_bounds, self.tcx);
            let mut bounds = get_implicit_lifetime_bounds(
                &func.inputs[i],
                &func.generic_bounds,
                self.tcx,
            );
            let ghost imp = bounds@;
            let nl = func.lifetime_bounds.len();
            for x in 0..nl
                invariant
                    nl == func.lifetime_bounds@.len(),
                    bounds@ == imp + func.lifetime_bounds@.subrange(0, x as int),
            {
                bounds.push(func.lifetime_bounds[x]);
                proof {
                    assert(func.lifetime_bounds@.subrange(0, x + 1 as int)
                        =~= func.lifetime_bounds@.subrange(0, x as int).push(
                        func.lifetime_bounds@[x as int],
                    ));
                    assert(bounds@ =~= imp + func.lifetime_bounds@.subrange(0, x + 1 as int));
                }
            }
            proof {
                assert(func.lifetime_bounds@.subrange(0, nl as int) =~= func.lifetime_bounds@);
                assert(bounds@ =~= bounds_of(fv, cv, i as int));
            }
            let nj = ret_subs.len();
            let nk = inp_subs.len();
            for j in 0..nj
                invariant
                    i < ni,
                    ni == func.inputs@.len(),
                    ni == func.params@.len(),
                    fv == func_v(*func),
                    cv == self.ctx_v(),
                    cg == self.cfg(),
                    fv.inputs.len() == ni,
                    nj == ret_subs@.len(),
                    nk == inp_subs@.len(),
                    subs_v(ret_subs@) == ret_subs_of(fv, cv),
                    subs_v(inp_subs@) == inp_subs_of(fv, cv, i as int),
                    bounds@ == bounds_of(fv, cv, i as int),
                    reports_v(out@) + ar_collect(fv, cv, cg, i as int, j as int, 0) == ar_collect(
                        fv,
                        cv,
                        cg,
                        0,
                        0,
                        0,
                    ),
            {
                for k in 0..nk
                    invariant
                        i < ni,
                        j < nj,
                        ni == func.inputs@.len(),
                        ni == func.params@.len(),
                        fv == func_v(*func),
                        cv == self.ctx_v(),
                        cg == self.cfg(),
                        fv.inputs.len() == ni,
                        nj == ret_subs@.len(),
                        nk == inp_subs@.len(),
                        subs_v(ret_subs@) == ret_subs_of(fv, cv),
                        subs_v(inp_subs@) == inp_subs_of(fv, cv, i as int),
                        bounds@ == bounds_of(fv, cv, i as int),
                        reports_v(out@) + ar_collect(fv, cv, cg, i as int, j as int, k as int)
                            == ar_collect(fv, cv, cg, 0, 0, 0),
                {
                    proof {
                        assert(subs_v(inp_subs@)[k as int] == inp_subs@[k as int]@);
                        assert(subs_v(ret_subs@)[j as int] == ret_subs@[j as int]@);
                    }
                    let cand = self.ar_candidate(
                        func,
                        i,
                        &inp_subs[k],
                        &ret_subs[j],
                        &bounds,
                    );
                    let ghost before = reports_v(out@);
                    let ghost candv = ar_candidate_report(
                        fv,
                        cv,
                        cg,
                        i as int,
                        inp_subs@[k as int]@,
                        ret_subs@[j as int]@,
                    );
                    match cand {
                        Some(rep) => {
                            let ghost o0 = out@;
                            out.push(rep);
                            proof {
                                lemma_reports_push(
                                    o0,
                                    rep,
                                    Seq::empty(),
                                    before,
                                );
                                assert(reports_v(out@) =~~= before.push(rep@));
                            }
                        },
                        None => {},
                    }
                }
            }
        }
        proof {
            assert(reports_v(out@) =~~= ar_collect(fv, cv, cg, 0, 0, 0));
        }
        out
    }

    /// The report one (argument, argument) candidate yields, if any.
    fn aa_candidate(
        &self,
        func: &MirFunc,
        i1: usize,
        i2: usize,
        src: &ShortLivedType,
        tgt: &ShortLivedType,
        bounds: &Vec<(LifetimeName, LifetimeName)>,
    ) -> (r: Option<Report>)
        requires
            i1 < func.params@.len(),
            i2 < func.params@.len(),
            i1 < func_v(*func).inputs.len(),
            i2 < func_v(*func).inputs.len(),
            bounds@ == implicit_bounds_spec(
                func_v(*func).inputs[i2 as int],
                func_v(*func).generic_bounds,
                self.ctx_v(),
            ) + bounds_of(func_v(*func), self.ctx_v(), i1 as int),
        ensures
            match r {
                Some(rep) => aa_candidate_report(
                    func_v(*func),
                    self.ctx_v(),
                    self.cfg(),
                    i1 as int,
                    i2 as int,
                    src@,
                    tgt@,
                ) == Some(rep@),
                None => aa_candidate_report(
                    func_v(*func),
                    self.ctx_v(),
                    self.cfg(),
                    i1 as int,
                    i2 as int,
                    src@,
                    tgt@,
                ) is None,
            },
    {
        if !ident_match_exec(src, tgt, self.config.generic_matches_all) {
            return None;
        }
        let v = arg_arg_outlives(src, tgt, bounds, &self.config);
        if !v.0 {
            return None;
        }
        let pl1 = match func.params[i1].local {
            Some(p) => p,
            None => {
                return None;
            },
        };
        let pl2 = match func.params[i2].local {
            Some(p) => p,
            None => {
                return None;
            },
        };
        if self.eval_dataflow(func, pl1, src, pl2, tgt) {
            Some(
                Report {
                    func_name: func.func_name.clone(),
                    error_type: String::from_str("uaf"),
                    kind: ViolationKind::ArgArgEscape,
                    inp_num: i1,
                    inp_num2: Some(i2),
                    src_ty: clone_subtype(src),
                    tgt_ty: clone_subtype(tgt),
                    src_bounding: v.1.0,
                    tgt_bounding: v.1.1,
                },
            )
        } else {
            None
        }
    }

    /// Scans every ordered pair of distinct arguments and their
    /// sub-type pairs and collects the confirmed cross-argument
    /// violations, in candidate order.
    pub fn check_arg_arg_violations(&self, func: &MirFunc) -> (r: Vec<Report>)
        requires
            func.params@.len() == func.inputs@.len(),
        ensures
            reports_v(r@) == aa_collect(func_v(*func), self.ctx_v(), self.cfg(), 0, 0, 0, 0),
    {
        let ghost fv = func_v(*func);
        let ghost cv = self.ctx_v();
        let ghost cg = self.cfg();
        proof {
            lemma_inputs_v_index(func.inputs@);
        }
        let mut out: Vec<Report> = Vec::new();
        let ni = func.inputs.len();
        proof {
            assert(reports_v(out@) =~= Seq::<ReportV>::empty());
        }
        for i1 in 0..ni
            invariant
                ni == func.inputs@.len(),
                ni == func.params@.len(),
                fv == func_v(*func),
                cv == self.ctx_v(),
                cg == self.cfg(),
                fv.inputs.len() == ni,
                reports_v(out@) + aa_collect(fv, cv, cg, i1 as int, 0, 0, 0) == aa_collect(
                    fv,
                    cv,
                    cg,
                    0,
                    0,
                    0,
                    0,
                ),
        {
            proof {
                lemma_inputs_v_index(func.inputs@);
            }
            let inp1_subs = get_sub_types(&func.inputs[i1], &func.generic_bounds, self.tcx);
            let bounds1 = get_implicit_lifetime_bounds(
                &func.inputs[i1],
                &func.generic_bounds,
                self.tcx,
            );
            for i2 in 0..ni
                invariant
                    i1 < ni,
                    ni == func.inputs@.len(),
                    ni == func.params@.len(),
                    fv == func_v(*func),
                    cv == self.ctx_v(),
                    cg == self.cfg(),
                    fv.inputs.len() == ni,
                    subs_v(inp1_subs@) == inp_subs_of(fv, cv, i1 as int),
                    bounds1@ == implicit_bounds_spec(
                        fv.inputs[i1 as int],
                        fv.generic_bounds,
                        cv,
                    ),
                    reports_v(out@) + aa_collect(fv, cv, cg, i1 as int, i2 as int, 0, 0)
                        == aa_collect(fv, cv, cg, 0, 0, 0, 0),
            {
                if i2 != i1 {
                    proof {
                        lemma_inputs_v_index(func.inputs@);
                    }
                    let inp2_subs = get_sub_types(
                        &func.inputs[i2],
                        &func.generic_bounds,
                        self.tcx,
                    );
                    let mut bounds2 = get_implicit_lifetime_bounds(
                        &func.inputs[i2],
                        &func.generic_bounds,
                        self.tcx,
                    );
                    let ghost imp2 = bounds2@;
                    let nb1 = bounds1.len();
                    for x in 0..nb1
                        invariant
                            nb1 == bounds1@.len(),
                            bounds2@ == imp2 + bounds1@.subrange(0, x as int),
                    {
                        bounds2.push(bounds1[x]);
                        proof {
                            assert(bounds1@.subrange(0, x + 1 as int) =~= bounds1@.subrange(
                                0,
                                x as int,
                            ).push(bounds1@[x as int]));
                            assert(bounds2@ =~= imp2 + bounds1@.subrange(0, x + 1 as int));
                        }
                    }
                    proof {
                        assert(bounds1@.subrange(0, nb1 as int) =~= bounds1@);
                    }
                    let ghost mid2 = bounds2@;
                    let nl = func.lifetime_bounds.len();
                    for x in 0..nl
                        invariant
                            nl == func.lifetime_bounds@.len(),
                            bounds2@ == mid2 + func.lifetime_bounds@.subrange(0, x as int),
                    {
                        bounds2.push(func.lifetime_bounds[x]);
                        proof {
                            assert(func.lifetime_bounds@.subrange(0, x + 1 as int)
                                =~= func.lifetime_bounds@.subrange(0, x as int).push(
                                func.lifetime_bounds@[x as int],
                            ));
                            assert(bounds2@ =~= mid2 + func.lifetime_bounds@.subrange(
                                0,
                                x + 1 as int,
                            ));
                        }
                    }
                    proof {
                        assert(func.lifetime_bounds@.subrange(0, nl as int)
                            =~= func.lifetime_bounds@);
                        assert(bounds2@ =~= implicit_bounds_spec(
                            fv.inputs[i2 as int],
                            fv.generic_bounds,
                            cv,
                        ) + bounds_of(fv, cv, i1 as int));
                    }
                    let nk1 = inp1_subs.len();
                    let nk2 = inp2_subs.len();
                    for k1 in 0..nk1
                        invariant
                            i1 < ni,
                            i2 < ni,
                            i1 != i2,
                            ni == func.inputs@.len(),
                            ni == func.params@.len(),
                            fv == func_v(*func),
                            cv == self.ctx_v(),
                            cg == self.cfg(),
                            fv.inputs.len() == ni,
                            nk1 == inp1_subs@.len(),
                            nk2 == inp2_subs@.len(),
                            subs_v(inp1_subs@) == inp_subs_of(fv, cv, i1 as int),
                            subs_v(inp2_subs@) == inp_subs_of(fv, cv, i2 as int),
                            bounds2@ == implicit_bounds_spec(
                                fv.inputs[i2 as int],
                                fv.generic_bounds,
                                cv,
                            ) + bounds_of(fv, cv, i1 as int),
                            reports_v(out@) + aa_collect(
                                fv,
                                cv,
                                cg,
                                i1 as int,
                                i2 as int,
                                k1 as int,
                                0,
                            ) == aa_collect(fv, cv, cg, 0, 0, 0, 0),
                    {
                        for k2 in 0..nk2
                            invariant
                                i1 < ni,
                                i2 < ni,
                                i1 != i2,
                                k1 < nk1,
                                ni == func.inputs@.len(),
                                ni == func.params@.len(),
                                fv == func_v(*func),
                                cv == self.ctx_v(),
                                cg == self.cfg(),
                                fv.inputs.len() == ni,
                                nk1 == inp1_subs@.len(),
                                nk2 == inp2_subs@.len(),
                                subs_v(inp1_subs@) == inp_subs_of(fv, cv, i1 as int),
                                subs_v(inp2_subs@) == inp_subs_of(fv, cv, i2 as int),
                                bounds2@ == implicit_bounds_spec(
                                    fv.inputs[i2 as int],
                                    fv.generic_bounds,
                                    cv,
                                ) + bounds_of(fv, cv, i1 as int),
                                reports_v(out@) + aa_collect(
                                    fv,
                                    cv,
                                    cg,
                                    i1 as int,
                                    i2 as int,
                                    k1 as int,
                                    k2 as int,
                                ) == aa_collect(fv, cv, cg, 0, 0, 0, 0),
                        {
                            proof {
                                assert(subs_v(inp1_subs@)[k1 as int] == inp1_subs@[k1 as int]@);
                                assert(subs_v(inp2_subs@)[k2 as int] == inp2_subs@[k2 as int]@);
                            }
                            let cand = self.aa_candidate(
                                func,
                                i1,
                                i2,
                                &inp1_subs[k1],
                                &inp2_subs[k2],
                                &bounds2,
                            );
                            let ghost before = reports_v(out@);
                            match cand {
                                Some(rep) => {
                                    let ghost o0 = out@;
                                    out.push(rep);
                                    proof {
                                        lemma_reports_push(o0, rep, Seq::empty(), before);
                                        assert(reports_v(out@) =~~= before.push(rep@));
                                    }
                                },
                                None => {},
                            }
                        }
                    }
                }
            }
        }
        proof {
            assert(reports_v(out@) =~~= aa_collect(fv, cv, cg, 0, 0, 0, 0));
        }
        out
    }
}




/// The position of the rightmost `::` separator in a name, if any.
pub open spec fn last_sep(s: Seq<char>) -> Option<int>
    decreases s.len(),
{
    if s.len() < 2 {
        None
    } else if s[s.len() - 2] == ':' && s[s.len() - 1] == ':' {
        Some(s.len() - 2)
    } else {
        last_sep(s.drop_last())
    }
}

/// The text after the rightmost `::` separator; the whole name when
/// there is none.
pub open spec fn short_name_spec(s: Seq<char>) -> Seq<char> {
    match last_sep(s) {
        Some(i) => s.subrange(i + 2, s.len() as int),
        None => s,
    }
}

/// Computes the text after the rightmost `::` separator of a name.
pub fn short_name(s: &String) -> (r: String)
    ensures
        r@ == short_name_spec(s@),
{
    let st = s.as_str();
    let n = st.unicode_len();
    let mut k = n;
    proof {
        assert(s@.subrange(0, n as int) =~= s@);
    }
    while k >= 2
        invariant
            k <= n,
            n == s@.len(),
            st@ == s@,
            last_sep(s@.subrange(0, k as int)) == last_sep(s@),
        decreases k,
    {
        let ghost pre = s@.subrange(0, k as int);
        proof {
            assert(pre[k - 2] == s@[k - 2]);
            assert(pre[k - 1] == s@[k - 1]);
            assert(pre.drop_last() =~= s@.subrange(0, k - 1));
        }
        let c1 = st.get_char(k - 2);
        let c2 = st.get_char(k - 1);
        if c1 == ':' && c2 == ':' {
            let tail = st.substring_char(k, n);
            let r = tail.to_owned();
            proof {
                assert(r@ =~= short_name_spec(s@));
            }
            return r;
        }
        k = k - 1;
    }
    proof {
        assert(last_sep(s@.subrange(0, k as int)) is None);
    }
    s.clone()
}

/// Whether `needle` occurs as a contiguous run inside `hay`.
pub open spec fn contains_sub(hay: Seq<char>, needle: Seq<char>) -> bool {
    exists|o: int|
        0 <= o && o + needle.len() <= hay.len() && #[trigger] hay.subrange(o, o + needle.len())
            == needle
}

/// Tests whether one string occurs inside another.
pub fn str_contains(hay: &String, needle: &str) -> (r: bool)
    ensures
        r == contains_sub(hay@, needle@),
{
    let hs = hay.as_str();
    let n = hs.unicode_len();
    let m = needle.unicode_len();
    if m > n {
        proof {
            assert forall|o: int| !(0 <= o && o + needle@.len() <= hay@.len()
                && #[trigger] hay@.subrange(o, o + needle@.len()) == needle@) by {}
        }
        return false;
    }
    let end = n - m;
    let mut o: usize = 0;
    while o <= end
        invariant
            m <= n,
            end == n - m,
            n == hay@.len(),
            m == needle@.len(),
            hs@ == hay@,
            o <= end + 1,
            forall|p: int|
                0 <= p < o ==> #[trigger] hay@.subrange(p, p + needle@.len()) != needle@,
        decreases end - o + 1,
    {
        let mut ok = true;
        let mut q: usize = 0;
        while q < m
            invariant
                m <= n,
                n == hay@.len(),
                m == needle@.len(),
                hs@ == hay@,
                o + m <= n,
                q <= m,
                ok <==> (forall|x: int| 0 <= x < q ==> hay@[o + x] == needle@[x]),
            decreases m - q,
        {
            let hc = hs.get_char(o + q);
            let nc = needle.get_char(q);
            if hc != nc {
                ok = false;
                proof {
                    assert(hay@[o + q] != needle@[q as int]);
                }
                q = m;
            } else {
                proof {
                    assert(hay@[o + q] == needle@[q as int]);
                }
                q = q + 1;
            }
        }
        if ok {
            proof {
                assert(hay@.subrange(o as int, o + needle@.len()) =~= needle@);
            }
            return true;
        }
        proof {
            if hay@.subrange(o as int, o + needle@.len()) == needle@ {
                let x = choose|x: int| 0 <= x < m && hay@[o + x] != needle@[x];
                assert(hay@.subrange(o as int, o + needle@.len())[x] == hay@[o + x]);
            }
        }
        o = o + 1;
    }
    proof {
        assert forall|p: int| !(0 <= p && p + needle@.len() <= hay@.len()
            && #[trigger] hay@.subrange(p, p + needle@.len()) == needle@) by {
            if 0 <= p && p + needle@.len() <= hay@.len() {
                assert(p < o);
            }
        }
    }
    false
}

/// Whether a function is analyzed at all: unsafe functions are
/// excluded, only public functions are kept when so configured, and
/// the shallow filter skips common false-positive trait shapes.
pub open spec fn eligible(f: MirFuncV, cfg: CfgV) -> bool {
    &&& !f.is_unsafe
    &&& (cfg.pub_only ==> f.is_public)
    &&& (cfg.shallow_filter ==> !(short_name_spec(f.func_name) == "clone"@ || f.impl_trait
        == "Clone"@ || (contains_sub(f.impl_trait, "Iterator"@) && (short_name_spec(f.func_name)
        == "next"@ || short_name_spec(f.func_name) == "next_back"@))))
}

/// The reports with their function name replaced by the short name.
pub open spec fn rename_reports(rs: Seq<ReportV>, name: Seq<char>) -> Seq<ReportV>
    decreases rs.len(),
{
    if rs.len() == 0 {
        Seq::empty()
    } else {
        seq![ReportV { func_name: name, ..rs[0] }] + rename_reports(
            rs.subrange(1, rs.len() as int),
            name,
        )
    }
}

/// What one check contributes for one function: every confirmed
/// violation when all are kept, otherwise only the first.
pub open spec fn kept(rs: Seq<ReportV>, keep_all: bool) -> Seq<ReportV> {
    if keep_all {
        rs
    } else if rs.len() > 0 {
        seq![rs[0]]
    } else {
        Seq::empty()
    }
}

/// The reports one function contributes to a run.
pub open spec fn func_reports(f: MirFuncV, ctx: CrateV, cfg: CfgV) -> Seq<ReportV> {
    if !eligible(f, cfg) {
        Seq::empty()
    } else {
        rename_reports(
            kept(ar_collect(f, ctx, cfg, 0, 0, 0), cfg.keep_all_violations) + kept(
                aa_collect(f, ctx, cfg, 0, 0, 0, 0),
                cfg.keep_all_violations,
            ),
            short_name_spec(f.func_name),
        )
    }
}

/// The image of a function list.
pub open spec fn funcs_v(v: Seq<MirFunc>) -> Seq<MirFuncV>
    decreases v,
{
    if v.len() == 0 {
        Seq::empty()
    } else {
        funcs_v(v.drop_last()).push(func_v(v.last()))
    }
}

/// `funcs_v` read off element by element.
pub proof fn lemma_funcs_v_index(v: Seq<MirFunc>)
    ensures
        funcs_v(v).len() == v.len(),
        forall|i: int| 0 <= i < v.len() ==> #[trigger] funcs_v(v)[i] == func_v(v[i]),
    decreases v,
{
    if v.len() > 0 {
        lemma_funcs_v_index(v.drop_last());
        assert forall|i: int| 0 <= i < v.len() implies #[trigger] funcs_v(v)[i] == func_v(
            v[i],
        ) by {
            if i < v.len() - 1 {
                assert(v.drop_last()[i] == v[i]);
            }
        }
    }
}

/// Every report of a whole run, function by function in order.
pub open spec fn analyze_spec(funcs: Seq<MirFuncV>, ctx: CrateV, cfg: CfgV, i: int) -> Seq<ReportV>
    decreases funcs.len() - i,
{
    if i < 0 || i >= funcs.len() {
        Seq::empty()
    } else {
        func_reports(funcs[i], ctx, cfg) + analyze_spec(funcs, ctx, cfg, i + 1)
    }
}

/// A report with its function name replaced.
fn renamed_report(r: &Report, name: &String) -> (r2: Report)
    ensures
        r2@ == (ReportV { func_name: name@, ..r@ }),
{
    Report {
        func_name: name.clone(),
        error_type: r.error_type.clone(),
        kind: r.kind,
        inp_num: r.inp_num,
        inp_num2: r.inp_num2,
        src_ty: clone_subtype(&r.src_ty),
        tgt_ty: clone_subtype(&r.tgt_ty),
        src_bounding: crate::lifetimes::clone_lifetime_vec(&r.src_bounding),
        tgt_bounding: crate::lifetimes::clone_lifetime_vec(&r.tgt_bounding),
    }
}

impl<'a> LifetimeChecker<'a> {
    /// Whether a function is analyzed at all.
    fn eligible_exec(&self, func: &MirFunc) -> (r: bool)
        ensures
            r == eligible(func_v(*func), self.cfg()),
    {
        if func.is_unsafe {
            return false;
        }
        if self.config.pub_only && !func.is_public {
            return false;
        }
        if self.config.shallow_filter {
            let fname = short_name(&func.func_name);
            if fname == String::from_str("clone") || func.impl_trait == String::from_str("Clone") {
                return false;
            }
            if str_contains(&func.impl_trait, "Iterator") && (fname == String::from_str("next")
                || fname == String::from_str("next_back")) {
                return false;
            }
        }
        true
    }

    /// Appends the renamed kept reports of one check.
    fn push_kept(&self, out: &mut Vec<Report>, reports: Vec<Report>, name: &String)
        ensures
            reports_v(final(out)@) == reports_v(old(out)@) + rename_reports(
                kept(reports_v(reports@), self.cfg().keep_all_violations),
                name@,
            ),
    {
        let ghost base = reports_v(out@);
        let ghost keptv = kept(reports_v(reports@), self.cfg().keep_all_violations);
        if self.config.keep_all_violations {
            let n = reports.len();
            proof {
                assert(rename_reports(keptv.subrange(0, 0), name@) =~= Seq::<ReportV>::empty());
                assert(reports_v(out@) =~= base + rename_reports(keptv.subrange(0, 0), name@));
            }
            for i in 0..n
                invariant
                    n == reports@.len(),
                    keptv == kept(reports_v(reports@), self.cfg().keep_all_violations),
                    keptv.len() == n,
                    forall|j: int| 0 <= j < n ==> #[trigger] keptv[j] == reports@[j]@,
                    name@ == name@,
                    reports_v(out@) == base + rename_reports(keptv.subrange(0, i as int), name@),
            {
                let r2 = renamed_report(&reports[i], name);
                let ghost o0 = out@;
                out.push(r2);
                proof {
                    lemma_reports_push(
                        o0,
                        r2,
                        base,
                        rename_reports(keptv.subrange(0, i as int), name@),
                    );
                    assert(keptv.subrange(0, i + 1 as int).drop_last() =~~= keptv.subrange(
                        0,
                        i as int,
                    ));
                    lemma_rename_snoc(keptv.subrange(0, i + 1 as int), name@);
                    assert(keptv.subrange(0, i + 1 as int).last() == keptv[i as int]);
                    assert(reports_v(out@) =~~= base + rename_reports(
                        keptv.subrange(0, i + 1 as int),
                        name@,
                    ));
                }
            }
            proof {
                assert(keptv.subrange(0, n as int) =~~= keptv);
            }
        } else {
            if reports.len() > 0 {
                let r2 = renamed_report(&reports[0], name);
                let ghost o0 = out@;
                out.push(r2);
                proof {
                    assert(keptv =~~= seq![reports@[0]@]);
                    lemma_reports_push(o0, r2, base, Seq::empty());
                    assert(keptv[0] == reports@[0]@);
                    assert(keptv.subrange(1, keptv.len() as int).len() == 0);
                    assert(rename_reports(keptv.subrange(1, keptv.len() as int), name@) =~= Seq::<
                        ReportV,
                    >::empty());
                    assert(rename_reports(keptv, name@) =~~= seq![
                        ReportV { func_name: name@, ..reports@[0]@ },
                    ]);
                    assert(reports_v(out@) =~~= base + rename_reports(keptv, name@));
                }
            } else {
                proof {
                    assert(keptv.len() == 0);
                    assert(rename_reports(keptv, name@) =~= Seq::<ReportV>::empty());
                    assert(reports_v(out@) =~= base + rename_reports(keptv, name@));
                }
            }
        }
    }

    /// Runs the whole pipeline over every function handed over by the
    /// front end and collects the confirmed violations, function by
    /// function.
    pub fn analyze(&self, funcs: &Vec<MirFunc>) -> (r: Vec<Report>)
        requires
            forall|i: int|
                0 <= i < funcs@.len() ==> (#[trigger] funcs@[i]).params@.len()
                    == funcs@[i].inputs@.len(),
        ensures
            reports_v(r@) == analyze_spec(funcs_v(funcs@), self.ctx_v(), self.cfg(), 0),
    {
        let ghost fsv = funcs_v(funcs@);
        let ghost cv = self.ctx_v();
        let ghost cg = self.cfg();
        proof {
            lemma_funcs_v_index(funcs@);
        }
        let mut out: Vec<Report> = Vec::new();
        let n = funcs.len();
        proof {
            assert(reports_v(out@) =~= Seq::<ReportV>::empty());
        }
        for i in 0..n
            invariant
                n == funcs@.len(),
                fsv == funcs_v(funcs@),
                fsv.len() == n,
                cv == self.ctx_v(),
                cg == self.cfg(),
                forall|j: int| 0 <= j < n ==> #[trigger] fsv[j] == func_v(funcs@[j]),
                forall|j: int|
                    0 <= j < n ==> (#[trigger] funcs@[j]).params@.len()
                        == funcs@[j].inputs@.len(),
                reports_v(out@) + analyze_spec(fsv, cv, cg, i as int) == analyze_spec(
                    fsv,
                    cv,
                    cg,
                    0,
                ),
        {
            let func = &funcs[i];
            let ghost before = reports_v(out@);
            if self.eligible_exec(func) {
                let fname = short_name(&func.func_name);
                let ar = self.check_arg_return_violations(func);
                self.push_kept(&mut out, ar, &fname);
                let aa = self.check_arg_arg_violations(func);
                self.push_kept(&mut out, aa, &fname);
                proof {
                    lemma_rename_append(
                        kept(ar_collect(fsv[i as int], cv, cg, 0, 0, 0), cg.keep_all_violations),
                        kept(
                            aa_collect(fsv[i as int], cv, cg, 0, 0, 0, 0),
                            cg.keep_all_violations,
                        ),
                        short_name_spec(fsv[i as int].func_name),
                    );
                    assert(reports_v(out@) =~~= before + func_reports(fsv[i as int], cv, cg));
                }
            } else {
                proof {
                    assert(func_reports(fsv[i as int], cv, cg) =~= Seq::<ReportV>::empty());
                    assert(reports_v(out@) =~= before + func_reports(fsv[i as int], cv, cg));
                }
            }
        }
        proof {
            assert(analyze_spec(fsv, cv, cg, n as int) =~= Seq::<ReportV>::empty());
            assert(reports_v(out@) =~~= analyze_spec(fsv, cv, cg, 0));
        }
        out
    }
}

/// `rename_reports` read off element by element.
proof fn lemma_rename_index(rs: Seq<ReportV>, name: Seq<char>)
    ensures
        rename_reports(rs, name).len() == rs.len(),
        forall|i: int|
            0 <= i < rs.len() ==> #[trigger] rename_reports(rs, name)[i] == (ReportV {
                func_name: name,
                ..rs[i]
            }),
    decreases rs.len(),
{
    if rs.len() > 0 {
        let rest = rs.subrange(1, rs.len() as int);
        lemma_rename_index(rest, name);
        assert forall|i: int| 0 <= i < rs.len() implies #[trigger] rename_reports(rs, name)[i]
            == (ReportV { func_name: name, ..rs[i] }) by {
            if i > 0 {
                assert(rename_reports(rs, name)[i] == rename_reports(rest, name)[i - 1]);
                assert(rest[i - 1] == rs[i]);
            }
        }
    }
}

/// Renaming distributes over appending one report.
proof fn lemma_rename_snoc(rs: Seq<ReportV>, name: Seq<char>)
    requires
        rs.len() > 0,
    ensures
        rename_reports(rs, name) == rename_reports(rs.drop_last(), name).push(
            ReportV { func_name: name, ..rs.last() },
        ),
{
    lemma_rename_index(rs, name);
    lemma_rename_index(rs.drop_last(), name);
    assert forall|i: int|
        0 <= i < rs.len() implies rename_reports(rs, name)[i] == rename_reports(
        rs.drop_last(),
        name,
    ).push(ReportV { func_name: name, ..rs.last() })[i] by {
        if i < rs.len() - 1 {
            assert(rs.drop_last()[i] == rs[i]);
        }
    }
    assert(rename_reports(rs, name) =~~= rename_reports(rs.drop_last(), name).push(
        ReportV { func_name: name, ..rs.last() },
    ));
}

/// Renaming distributes over concatenation.
proof fn lemma_rename_append(a: Seq<ReportV>, b: Seq<ReportV>, name: Seq<char>)
    ensures
        rename_reports(a + b, name) == rename_reports(a, name) + rename_reports(b, name),
{
    lemma_rename_index(a + b, name);
    lemma_rename_index(a, name);
    lemma_rename_index(b, name);
    assert forall|i: int|
        0 <= i < (a + b).len() implies rename_reports(a + b, name)[i] == (rename_reports(a, name)
        + rename_reports(b, name))[i] by {
        if i < a.len() {
            assert((a + b)[i] == a[i]);
        } else {
            assert((a + b)[i] == b[i - a.len()]);
        }
    }
    assert(rename_reports(a + b, name) =~~= rename_reports(a, name) + rename_reports(b, name));
}

/// Runs the lifetime checker over a crate: every function the front
/// end extracted, against the crate context, under one configuration.
pub fn analyze(tcx: &CrateModel, funcs: &Vec<MirFunc>, config: YugaConfig) -> (r: Vec<Report>)
    requires
        forall|i: int|
            0 <= i < funcs@.len() ==> (#[trigger] funcs@[i]).params@.len()
                == funcs@[i].inputs@.len(),
    ensures
        reports_v(r@) == analyze_spec(funcs_v(funcs@), crate_v(*tcx), cfg_v(config), 0),
{
    let checker = LifetimeChecker::new(tcx, config);
    checker.analyze(funcs)
}

} // verus!
