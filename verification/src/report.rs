//! Report records and the explicit report sink they are collected into.
//!
//! The sink is a plain value handed through the program rather than a
//! process-wide logger, so runs cannot interfere and every write is
//! visible in the sink's contents.

use vstd::prelude::*;

use crate::driver::{ViolationKind};
use crate::lifetimes::LifetimeName;
use crate::types::{CrateModel, MyProjection, ProjV};

verus! {

/// Severity of a report.
#[derive(Clone, Copy, Debug, PartialEq, Eq, Structural)]
pub enum ReportLevel {
    Error,
    Warning,
    Info,
}

impl ReportLevel {
    /// The severity's rank: higher means more severe.
    pub fn rank(&self) -> (r: u32)
        ensures
            r == self.rank_spec(),
    {
        match self {
            ReportLevel::Error => 2,
            ReportLevel::Warning => 1,
            ReportLevel::Info => 0,
        }
    }

    /// The rank backing [`ReportLevel::rank`].
    pub open spec fn rank_spec(&self) -> u32 {
        match self {
            ReportLevel::Error => 2,
            ReportLevel::Warning => 1,
            ReportLevel::Info => 0,
        }
    }

    /// The severity's name, as the surrounding program prints it.
    pub fn name(&self) -> (r: String)
        ensures
            self == ReportLevel::Error ==> r@ == "Error"@,
            self == ReportLevel::Warning ==> r@ == "Warning"@,
            self == ReportLevel::Info ==> r@ == "Info"@,
    {
        match self {
            ReportLevel::Error => String::from_str("Error"),
            ReportLevel::Warning => String::from_str("Warning"),
            ReportLevel::Info => String::from_str("Info"),
        }
    }
}

/// One finding, ready for the reporting collaborator: severity, the
/// analysis that produced it, a description, and the location and source
/// text it points at.
#[derive(Clone, Debug)]
pub struct Report {
    pub level: ReportLevel,
    pub analyzer: String,
    pub description: String,
    pub location: String,
    pub source: String,
}

impl Report {
    /// Assembles a report from its parts.
    pub fn new(
        level: ReportLevel,
        analyzer: String,
        description: String,
        location: String,
        source: String,
    ) -> (r: Report)
        ensures
            r.level == level,
            r.analyzer@ == analyzer@,
            r.description@ == description@,
            r.location@ == location@,
            r.source@ == source@,
    {
        Report { level, analyzer, description, location, source }
    }
}

/// The report sink: every report logged during a run, in logging order.
/// The surrounding program flushes it once analysis is done.
pub struct FlushHandle {
    pub reports: Vec<Report>,
}

impl FlushHandle {
    /// The reports logged so far.
    pub fn len(&self) -> (r: usize)
        ensures
            r == self.reports@.len(),
    {
        self.reports.len()
    }

    /// Hands the collected reports over for flushing, leaving the sink
    /// empty.
    pub fn take_reports(&mut self) -> (r: Vec<Report>)
        ensures
            r@ == old(self).reports@,
            final(self).reports@.len() == 0,
    {
        let mut out: Vec<Report> = Vec::new();
        core::mem::swap(&mut out, &mut self.reports);
        out
    }
}

/// Opens an empty report sink for one run.
pub fn init_report_logger() -> (h: FlushHandle)
    ensures
        h.reports@.len() == 0,
{
    FlushHandle { reports: Vec::new() }
}

/// Appends one report to the sink.
pub fn yuga_report(handle: &mut FlushHandle, report: Report)
    ensures
        final(handle).reports@ == old(handle).reports@.push(report),
{
    handle.reports.push(report);
}

/// The decimal digit character for `d`.
pub open spec fn digit_char(d: nat) -> char {
    ((d + 48) as u8) as char
}

/// The decimal digits of `n`, most significant first.
pub open spec fn dec_digits(n: nat) -> Seq<char>
    decreases n,
{
    if n < 10 {
        seq![digit_char(n)]
    } else {
        dec_digits(n / 10) + seq![digit_char(n % 10)]
    }
}

/// One decimal digit as text.
fn digit_str(d: usize) -> (r: &'static str)
    requires
        d < 10,
    ensures
        r@ == seq![digit_char(d as nat)],
{
    let r: &'static str = match d {
        0 => "0",
        1 => "1",
        2 => "2",
        3 => "3",
        4 => "4",
        5 => "5",
        6 => "6",
        7 => "7",
        8 => "8",
        _ => "9",
    };
    proof {
        reveal_strlit("0");
        reveal_strlit("1");
        reveal_strlit("2");
        reveal_strlit("3");
        reveal_strlit("4");
        reveal_strlit("5");
        reveal_strlit("6");
        reveal_strlit("7");
        reveal_strlit("8");
        reveal_strlit("9");
        assert(r@ =~= seq![digit_char(d as nat)]);
    }
    r
}

/// Renders a number in decimal.
pub fn usize_to_string(n: usize) -> (r: String)
    ensures
        r@ == dec_digits(n as nat),
    decreases n,
{
    if n < 10 {
        String::from_str(digit_str(n))
    } else {
        let mut s = usize_to_string(n / 10);
        s.append(digit_str(n % 10));
        s
    }
}

/// The projection path rendered onto an accumulated expression: a
/// dereference wraps it in `*( .. )`, a field selection appends a dot
/// and the field's name or index.
pub open spec fn proj_str_spec(proj: Seq<ProjV>, acc: Seq<char>) -> Seq<char>
    decreases proj.len(),
{
    if proj.len() == 0 {
        acc
    } else {
        match proj[0] {
            ProjV::Deref => proj_str_spec(
                proj.subrange(1, proj.len() as int),
                "*("@ + acc + ")"@,
            ),
            ProjV::Field(f) => proj_str_spec(
                proj.subrange(1, proj.len() as int),
                acc + "."@ + (match f.name {
                    Some(nm) => nm,
                    None => dec_digits(f.num as nat),
                }),
            ),
        }
    }
}

/// Renders the expression that reaches a sub-value: the root
/// identifier with every projection step applied.
pub fn decompose_projection_as_str(proj: &Vec<MyProjection>, top_level_id_name: String) -> (r:
    String)
    ensures
        r@ == proj_str_spec(crate::checks::projs_v(proj@), top_level_id_name@),
{
    let ghost pj = crate::checks::projs_v(proj@);
    let mut acc = top_level_id_name;
    let n = proj.len();
    proof {
        assert(pj.subrange(0, n as int) =~= pj);
    }
    for i in 0..n
        invariant
            n == proj@.len(),
            pj == crate::checks::projs_v(proj@),
            pj.len() == n,
            forall|j: int| 0 <= j < n ==> #[trigger] pj[j] == proj@[j]@,
            proj_str_spec(pj.subrange(i as int, n as int), acc@) == proj_str_spec(
                pj,
                top_level_id_name@,
            ),
    {
        let ghost suf = pj.subrange(i as int, n as int);
        proof {
            assert(suf[0] == pj[i as int]);
            assert(suf.subrange(1, suf.len() as int) =~= pj.subrange(i + 1, n as int));
        }
        match &proj[i] {
            MyProjection::MyDeref => {
                let mut wrapped = String::from_str("*(");
                wrapped.append(acc.as_str());
                wrapped.append(")");
                acc = wrapped;
            },
            MyProjection::MyField(f) => {
                acc.append(".");
                match &f.field_name {
                    Some(nm) => {
                        acc.append(nm.as_str());
                    },
                    None => {
                        let num = usize_to_string(f.field_num);
                        acc.append(num.as_str());
                    },
                }
            },
        }
    }
    proof {
        assert(pj.subrange(n as int, n as int).len() == 0);
    }
    acc
}

/// The printable ident recorded for a lifetime's declaration site.
pub open spec fn lt_ident(table: Seq<(u64, Seq<char>)>, id: u64) -> Option<Seq<char>>
    decreases table.len(),
{
    if table.len() == 0 {
        None
    } else if table[0].0 == id {
        Some(table[0].1)
    } else {
        lt_ident(table.subrange(1, table.len() as int), id)
    }
}

/// The view of the lifetime-ident table.
pub open spec fn table_v(t: Seq<(u64, String)>) -> Seq<(u64, Seq<char>)>
    decreases t,
{
    if t.len() == 0 {
        Seq::empty()
    } else {
        table_v(t.drop_last()).push((t.last().0, t.last().1@))
    }
}

/// `table_v` read off element by element.
pub proof fn lemma_table_v_index(t: Seq<(u64, String)>)
    ensures
        table_v(t).len() == t.len(),
        forall|i: int| 0 <= i < t.len() ==> #[trigger] table_v(t)[i] == (t[i].0, t[i].1@),
    decreases t,
{
    if t.len() > 0 {
        lemma_table_v_index(t.drop_last());
        assert forall|i: int| 0 <= i < t.len() implies #[trigger] table_v(t)[i] == (
            t[i].0,
            t[i].1@,
        ) by {
            if i < t.len() - 1 {
                assert(t.drop_last()[i] == t[i]);
            }
        }
    }
}

/// The description accumulated over a tag list: a named tag appends
/// its backquoted ident (an unknown declaration site prints as the
/// anonymous lifetime), and the whole-program sentinel replaces the
/// text built so far with the static sentence.
pub open spec fn describe_fold(
    lts: Seq<LifetimeName>,
    table: Seq<(u64, Seq<char>)>,
    acc: Seq<char>,
) -> Seq<char>
    decreases lts.len(),
{
    if lts.len() == 0 {
        acc
    } else {
        match lts[0] {
            LifetimeName::Static => describe_fold(
                lts.subrange(1, lts.len() as int),
                table,
                "lives for the entire lifetime of the running program (`'static`)"@,
            ),
            LifetimeName::Param(id) => describe_fold(
                lts.subrange(1, lts.len() as int),
                table,
                acc + "`"@ + (match lt_ident(table, id) {
                    Some(nm) => nm,
                    None => "'_"@,
                }) + "`, "@,
            ),
        }
    }
}

/// What a bounding tag set means for a reader: an empty set means the
/// data is owned for as long as its owner lives; otherwise the tags
/// are spelled out.
pub open spec fn describe_lifetimes(
    lts: Seq<LifetimeName>,
    table: Seq<(u64, Seq<char>)>,
) -> Seq<char> {
    if lts.len() == 0 {
        "lives for the entire duration that it is owned"@
    } else {
        describe_fold(lts, table, "outlives the lifetime corresponding to "@)
    }
}

/// Looks up the printable ident of a lifetime declaration site.
fn lookup_ident(ctx: &CrateModel, id: u64) -> (r: Option<String>)
    ensures
        match r {
            Some(s) => lt_ident(table_v(ctx.lifetime_idents@), id) == Some(s@),
            None => lt_ident(table_v(ctx.lifetime_idents@), id) is None,
        },
{
    let ghost tv = table_v(ctx.lifetime_idents@);
    proof {
        lemma_table_v_index(ctx.lifetime_idents@);
    }
    let n = ctx.lifetime_idents.len();
    proof {
        assert(tv.subrange(0, n as int) =~= tv);
    }
    for i in 0..n
        invariant
            n == ctx.lifetime_idents@.len(),
            tv == table_v(ctx.lifetime_idents@),
            tv.len() == n,
            forall|j: int|
                0 <= j < n ==> #[trigger] tv[j] == (
                    ctx.lifetime_idents@[j].0,
                    ctx.lifetime_idents@[j].1@,
                ),
            lt_ident(tv.subrange(i as int, n as int), id) == lt_ident(tv, id),
    {
        assert(tv.subrange(i as int, n as int)[0] == tv[i as int]);
        if ctx.lifetime_idents[i].0 == id {
            return Some(ctx.lifetime_idents[i].1.clone());
        }
        assert(tv.subrange(i as int, n as int).subrange(1, (n - i) as int) =~= tv.subrange(
            i + 1,
            n as int,
        ));
    }
    proof {
        assert(tv.subrange(n as int, n as int).len() == 0);
    }
    None
}

/// Renders what a bounding tag set means for a reader.
pub fn get_string_from_lifetimes(lifetimes: &Vec<LifetimeName>, ctx: &CrateModel) -> (r: String)
    ensures
        r@ == describe_lifetimes(lifetimes@, table_v(ctx.lifetime_idents@)),
{
    if lifetimes.len() == 0 {
        return String::from_str("lives for the entire duration that it is owned");
    }
    let mut acc = String::from_str("outlives the lifetime corresponding to ");
    let ghost table = table_v(ctx.lifetime_idents@);
    let n = lifetimes.len();
    proof {
        assert(lifetimes@.subrange(0, n as int) =~= lifetimes@);
    }
    for i in 0..n
        invariant
            n == lifetimes@.len(),
            table == table_v(ctx.lifetime_idents@),
            describe_fold(lifetimes@.subrange(i as int, n as int), table, acc@) == describe_fold(
                lifetimes@,
                table,
                "outlives the lifetime corresponding to "@,
            ),
    {
        let ghost suf = lifetimes@.subrange(i as int, n as int);
        proof {
            assert(suf[0] == lifetimes@[i as int]);
            assert(suf.subrange(1, suf.len() as int) =~= lifetimes@.subrange(i + 1, n as int));
        }
        match lifetimes[i] {
            LifetimeName::Static => {
                acc = String::from_str(
                    "lives for the entire lifetime of the running program (`'static`)",
                );
            },
            LifetimeName::Param(id) => {
                acc.append("`");
                match lookup_ident(ctx, id) {
                    Some(nm) => {
                        acc.append(nm.as_str());
                    },
                    None => {
                        acc.append("'_");
                    },
                }
                acc.append("`, ");
            },
        }
    }
    proof {
        assert(lifetimes@.subrange(n as int, n as int).len() == 0);
    }
    acc
}

/// The HTML that default markdown rendering produces for a text; a
/// function of the markdown alone.
pub uninterp spec fn html_of(md: Seq<char>) -> Seq<char>;

/// Relies on comrak's `markdown_to_html` with default options: the
/// result depends only on the markdown text.
#[verifier::external_body]
fn render_markdown(md: &String) -> (r: String)
    ensures
        r@ == html_of(md@),
{
    comrak::markdown_to_html(md.as_str(), &comrak::Options::default())
}

/// The trace a report shows for one side: the root identifier and the
/// full expression that reaches the flagged sub-value.
pub open spec fn trace_spec(proj: Seq<ProjV>, root: Seq<char>) -> Seq<char> {
    "`"@ + root + "` reaches the flagged value as `"@ + proj_str_spec(proj, root) + "`\n"@
}

/// Renders the trace from a root identifier to the flagged sub-value.
pub fn generate_trace(ty: &crate::types::ShortLivedType, top_level_id_name: String) -> (r: String)
    ensures
        r@ == trace_spec(crate::checks::projs_v(ty.projection@), top_level_id_name@),
{
    let path = decompose_projection_as_str(&ty.projection, top_level_id_name.clone());
    let mut out = String::from_str("`");
    out.append(top_level_id_name.as_str());
    out.append("` reaches the flagged value as `");
    out.append(path.as_str());
    out.append("`\n");
    out
}

/// The markdown body shared by the use-after-free reports.
pub open spec fn uaf_markdown_spec(
    r: crate::driver::ReportV,
    table: Seq<(u64, Seq<char>)>,
    arg_name: Seq<char>,
    tgt_name: Seq<char>,
) -> Seq<char> {
    "## Potential use-after-free!\n"@ + "`"@ + proj_str_spec(r.src.proj, arg_name)
        + "` is data reached from `"@ + arg_name + "` and "@ + describe_lifetimes(
        r.src_bounding,
        table,
    ) + "\n\nIt is (probably) reached from `"@ + proj_str_spec(r.tgt.proj, tgt_name) + "`, which "@
        + describe_lifetimes(r.tgt_bounding, table)
        + ".\n\nThe latter can live longer than the former, which could lead to use-after-free!\n"@
        + trace_spec(r.src.proj, arg_name) + trace_spec(r.tgt.proj, tgt_name)
}

/// Renders a confirmed return-escape violation as markdown and HTML.
/// `ret` names the value returned by the function.
pub fn arg_return_uaf_report(report: &crate::driver::Report, arg_name: &String, ctx: &CrateModel)
    -> (r: (String, String))
    ensures
        r.0@ == uaf_markdown_spec(report@, table_v(ctx.lifetime_idents@), arg_name@, "ret"@),
        r.1@ == html_of(r.0@),
{
    let tgt_name = String::from_str("ret");
    let md = build_uaf_markdown(report, arg_name, &tgt_name, ctx);
    let html = render_markdown(&md);
    (md, html)
}

/// Renders a confirmed cross-argument escape as markdown and HTML.
pub fn arg_arg_uaf_report(
    report: &crate::driver::Report,
    arg_name1: &String,
    arg_name2: &String,
    ctx: &CrateModel,
) -> (r: (String, String))
    ensures
        r.0@ == uaf_markdown_spec(report@, table_v(ctx.lifetime_idents@), arg_name1@, arg_name2@),
        r.1@ == html_of(r.0@),
{
    let md = build_uaf_markdown(report, arg_name1, arg_name2, ctx);
    let html = render_markdown(&md);
    (md, html)
}

/// Assembles the shared use-after-free markdown body.
fn build_uaf_markdown(
    report: &crate::driver::Report,
    arg_name: &String,
    tgt_name: &String,
    ctx: &CrateModel,
) -> (r: String)
    ensures
        r@ == uaf_markdown_spec(report@, table_v(ctx.lifetime_idents@), arg_name@, tgt_name@),
{
    let src_path = decompose_projection_as_str(&report.src_ty.projection, arg_name.clone());
    let tgt_path = decompose_projection_as_str(&report.tgt_ty.projection, tgt_name.clone());
    let src_lts = get_string_from_lifetimes(&report.src_bounding, ctx);
    let tgt_lts = get_string_from_lifetimes(&report.tgt_bounding, ctx);
    let src_trace = generate_trace(&report.src_ty, arg_name.clone());
    let tgt_trace = generate_trace(&report.tgt_ty, tgt_name.clone());
    let mut md = String::from_str("## Potential use-after-free!\n");
    md.append("`");
    md.append(src_path.as_str());
    md.append("` is data reached from `");
    md.append(arg_name.as_str());
    md.append("` and ");
    md.append(src_lts.as_str());
    md.append("\n\nIt is (probably) reached from `");
    md.append(tgt_path.as_str());
    md.append("`, which ");
    md.append(tgt_lts.as_str());
    md.append(".\n\nThe latter can live longer than the former, which could lead to use-after-free!\n");
    md.append(src_trace.as_str());
    md.append(tgt_trace.as_str());
    md
}

/// The markdown body of an aliased-mutability report.
pub open spec fn mut_markdown_spec(
    r: crate::driver::ReportV,
    table: Seq<(u64, Seq<char>)>,
    arg_name: Seq<char>,
) -> Seq<char> {
    "## Potential aliased mutability!\n"@ + "`"@ + proj_str_spec(r.src.proj, arg_name)
        + "` is behind a `&mut` or `*mut` reached from `"@ + arg_name
        + "`: during its lifetime there cannot be another mutable borrow.\n\nBut it is (probably) returned as `"@
        + proj_str_spec(r.tgt.proj, "ret"@) + "`, which "@ + describe_lifetimes(
        r.tgt_bounding,
        table,
    ) + ". Here, `ret` denotes the value returned by the function.\n\nThe latter lifetime can be larger than the former, so we can have non-exclusive mutability!\n"@
        + trace_spec(r.src.proj, arg_name) + trace_spec(r.tgt.proj, "ret"@)
}

/// Renders a confirmed aliased-mutability violation as markdown and
/// HTML.
pub fn arg_return_mut_report(report: &crate::driver::Report, arg_name: &String, ctx: &CrateModel)
    -> (r: (String, String))
    ensures
        r.0@ == mut_markdown_spec(report@, table_v(ctx.lifetime_idents@), arg_name@),
        r.1@ == html_of(r.0@),
{
    let ret_name = String::from_str("ret");
    let src_path = decompose_projection_as_str(&report.src_ty.projection, arg_name.clone());
    let tgt_path = decompose_projection_as_str(&report.tgt_ty.projection, ret_name.clone());
    let tgt_lts = get_string_from_lifetimes(&report.tgt_bounding, ctx);
    let src_trace = generate_trace(&report.src_ty, arg_name.clone());
    let tgt_trace = generate_trace(&report.tgt_ty, ret_name.clone());
    let mut md = String::from_str("## Potential aliased mutability!\n");
    md.append("`");
    md.append(src_path.as_str());
    md.append("` is behind a `&mut` or `*mut` reached from `");
    md.append(arg_name.as_str());
    md.append("`: during its lifetime there cannot be another mutable borrow.\n\nBut it is (probably) returned as `");
    md.append(tgt_path.as_str());
    md.append("`, which ");
    md.append(tgt_lts.as_str());
    md.append(". Here, `ret` denotes the value returned by the function.\n\nThe latter lifetime can be larger than the former, so we can have non-exclusive mutability!\n");
    md.append(src_trace.as_str());
    md.append(tgt_trace.as_str());
    let html = render_markdown(&md);
    (md, html)
}

/// The question handed to a language model about whether dropping the
/// argument also drops the flagged sub-value.
pub open spec fn llm_query_spec(proj: Seq<ProjV>, arg_name: Seq<char>) -> Seq<char> {
    "Here are some snippets of Rust code from a larger project.\n\nA function has an argument `"@
        + arg_name + "`\n\n"@ + trace_spec(proj, arg_name) + "When `"@ + arg_name
        + "` is dropped, does `"@ + proj_str_spec(proj, arg_name)
        + "` also get dropped?\nUse the function implementations provided, as well as comments and other semantic information, to infer this.\nYour response should be only a single word, 'Yes' or 'No'"@
}

/// Renders the follow-up question about ownership of the flagged
/// sub-value.
pub fn generate_llm_query(arg_name: String, src_ty: &crate::types::ShortLivedType) -> (r: String)
    ensures
        r@ == llm_query_spec(crate::checks::projs_v(src_ty.projection@), arg_name@),
{
    let src_path = decompose_projection_as_str(&src_ty.projection, arg_name.clone());
    let trace = generate_trace(src_ty, arg_name.clone());
    let mut md = String::from_str(
        "Here are some snippets of Rust code from a larger project.\n\nA function has an argument `",
    );
    md.append(arg_name.as_str());
    md.append("`\n\n");
    md.append(trace.as_str());
    md.append("When `");
    md.append(arg_name.as_str());
    md.append("` is dropped, does `");
    md.append(src_path.as_str());
    md.append("` also get dropped?\nUse the function implementations provided, as well as comments and other semantic information, to infer this.\nYour response should be only a single word, 'Yes' or 'No'");
    md
}

} // verus!
