//! Missing required instruction argument: an instruction-annotated
//! context declares arguments its handlers must accept; every handler
//! bound to that context must carry each declared argument, matched by
//! exact name and type.  One finding is raised per missing pair per
//! handler, so every omission is independently actionable.

use vstd::prelude::*;
use crate::knowledge_base::{
    findings_view,
    Finding,
    FindingView,
    MissingRequiredInstructionArgumentFinding,
    MissingRequiredInstructionArgumentView,
    RuleCode,
};
use crate::report::Report;
use crate::state::{
    AccountInstructions,
    AccountInstructionsView,
    FnArgs,
    FnArgsView,
    FunctionArgsView,
    NormalizedFunctionArgs,
};
use crate::text::str_eq;

verus! {

/// `req` occurs among `args`, matched by exact name and type.
pub open spec fn arg_present(args: Seq<FnArgsView>, req: FnArgsView) -> bool {
    exists|i: int| 0 <= i < args.len() && args[i].name == req.name && args[i].ty == req.ty
}

/// The finding raised when handler `func` misses the declared pair `req`.
pub open spec fn missing_arg_view(func: FunctionArgsView, req: FnArgsView) -> FindingView {
    FindingView::MissingRequiredInstructionArgument(
        MissingRequiredInstructionArgumentView {
            rule: RuleCode::MissingRequiredInstructionArgument,
            line: func.line,
            fn_name: func.name,
            required_arg_name: req.name,
            required_arg_type: req.ty,
        },
    )
}

/// One finding per declared argument that `func` misses, in
/// declaration order.
pub open spec fn missing_args_of_fn(func: FunctionArgsView, reqs: Seq<FnArgsView>) -> Seq<
    FindingView,
>
    decreases reqs.len(),
{
    if reqs.len() == 0 {
        Seq::<FindingView>::empty()
    } else {
        missing_args_of_fn(func, reqs.drop_last()) + if !arg_present(func.args, reqs.last()) {
            seq![missing_arg_view(func, reqs.last())]
        } else {
            Seq::<FindingView>::empty()
        }
    }
}

/// Findings of one instruction context against every handler bound to
/// it, in handler order.
pub open spec fn missing_args_of_ctx(
    ctx: AccountInstructionsView,
    funcs: Seq<FunctionArgsView>,
) -> Seq<FindingView>
    decreases funcs.len(),
{
    if funcs.len() == 0 {
        Seq::<FindingView>::empty()
    } else {
        missing_args_of_ctx(ctx, funcs.drop_last()) + if funcs.last().context == ctx.ctx_name {
            missing_args_of_fn(funcs.last(), ctx.args)
        } else {
            Seq::<FindingView>::empty()
        }
    }
}

/// Findings of every instruction context, in context order.
pub open spec fn missing_args_findings(
    ctxs: Seq<AccountInstructionsView>,
    funcs: Seq<FunctionArgsView>,
) -> Seq<FindingView>
    decreases ctxs.len(),
{
    if ctxs.len() == 0 {
        Seq::<FindingView>::empty()
    } else {
        missing_args_findings(ctxs.drop_last(), funcs) + missing_args_of_ctx(ctxs.last(), funcs)
    }
}

fn fn_has_arg(args: &Vec<FnArgs>, req: &FnArgs) -> (r: bool)
    ensures
        r == arg_present(args@.map_values(|a: FnArgs| a@), req@),
{
    let ghost av = args@.map_values(|a: FnArgs| a@);
    let n = args.len();
    let mut i: usize = 0;
    while i < n
        invariant
            0 <= i <= n,
            n == args@.len(),
            av == args@.map_values(|a: FnArgs| a@),
            forall|j: int| 0 <= j < i ==> !(av[j].name == req@.name && av[j].ty == req@.ty),
        decreases n - i,
    {
        let arg: &FnArgs = &args[i];
        proof {
            assert(av[i as int] == arg@);
        }
        if str_eq(arg.name.as_str(), req.name.as_str()) && str_eq(
            arg.ty.as_str(),
            req.ty.as_str(),
        ) {
            return true;
        }
        i = i + 1;
    }
    false
}

/// Flag, for every instruction context and every handler bound to it,
/// each declared argument the handler misses; see
/// [`missing_args_findings`].
pub fn rules_fn_missing_instruction_args(
    v: &Vec<AccountInstructions>,
    f: &Vec<NormalizedFunctionArgs>,
    r: &mut Report,
)
    ensures
        findings_view(final(r).findings@) == findings_view(old(r).findings@)
            + missing_args_findings(
            v@.map_values(|c: AccountInstructions| c@),
            f@.map_values(|x: NormalizedFunctionArgs| x@),
        ),
        final(r).diagnostics@ == old(r).diagnostics@,
        final(r).file_info == old(r).file_info,
        final(r).file_path == old(r).file_path,
{
    let ghost cv = v@.map_values(|c: AccountInstructions| c@);
    let ghost fv = f@.map_values(|x: NormalizedFunctionArgs| x@);
    let nc = v.len();
    let mut ci: usize = 0;
    proof {
        assert(findings_view(r.findings@) =~= findings_view(old(r).findings@)
            + missing_args_findings(cv.take(0), fv));
    }
    while ci < nc
        invariant
            0 <= ci <= nc,
            nc == v@.len(),
            cv == v@.map_values(|c: AccountInstructions| c@),
            fv == f@.map_values(|x: NormalizedFunctionArgs| x@),
            findings_view(r.findings@) == findings_view(old(r).findings@) + missing_args_findings(
                cv.take(ci as int),
                fv,
            ),
            r.diagnostics@ == old(r).diagnostics@,
            r.file_info == old(r).file_info,
            r.file_path == old(r).file_path,
        decreases nc - ci,
    {
        let ctx: &AccountInstructions = &v[ci];
        proof {
            assert(cv[ci as int] == ctx@);
            assert(cv.take(ci as int + 1).drop_last() =~= cv.take(ci as int));
            assert(cv.take(ci as int + 1).last() == cv[ci as int]);
        }
        let nf = f.len();
        let mut fi: usize = 0;
        proof {
            assert(missing_args_of_ctx(ctx@, fv.take(0)) =~= Seq::<FindingView>::empty());
            assert(findings_view(r.findings@) =~= findings_view(old(r).findings@)
                + missing_args_findings(cv.take(ci as int), fv) + missing_args_of_ctx(
                ctx@,
                fv.take(0),
            ));
        }
        while fi < nf
            invariant
                0 <= fi <= nf,
                nf == f@.len(),
                0 <= ci < nc,
                nc == v@.len(),
                cv == v@.map_values(|c: AccountInstructions| c@),
                fv == f@.map_values(|x: NormalizedFunctionArgs| x@),
                ctx@ == cv[ci as int],
                findings_view(r.findings@) == findings_view(old(r).findings@)
                    + missing_args_findings(cv.take(ci as int), fv) + missing_args_of_ctx(
                    ctx@,
                    fv.take(fi as int),
                ),
                r.diagnostics@ == old(r).diagnostics@,
                r.file_info == old(r).file_info,
                r.file_path == old(r).file_path,
            decreases nf - fi,
        {
            let func: &NormalizedFunctionArgs = &f[fi];
            proof {
                assert(fv[fi as int] == func@);
                assert(fv.take(fi as int + 1).drop_last() =~= fv.take(fi as int));
                assert(fv.take(fi as int + 1).last() == fv[fi as int]);
            }
            if str_eq(func.context.as_str(), ctx.ctx_name.as_str()) {
                let na = ctx.args.len();
                let mut ai: usize = 0;
                proof {
                    assert(ctx@.args.take(0) =~= Seq::<FnArgsView>::empty());
                    assert(missing_args_of_fn(func@, ctx@.args.take(0)) =~= Seq::<
                        FindingView,
                    >::empty());
                }
                while ai < na
                    invariant
                        0 <= ai <= na,
                        na == ctx.args@.len(),
                        0 <= fi < nf,
                        nf == f@.len(),
                        0 <= ci < nc,
                        nc == v@.len(),
                        cv == v@.map_values(|c: AccountInstructions| c@),
                        fv == f@.map_values(|x: NormalizedFunctionArgs| x@),
                        ctx@ == cv[ci as int],
                        func@ == fv[fi as int],
                        findings_view(r.findings@) == findings_view(old(r).findings@)
                            + missing_args_findings(cv.take(ci as int), fv) + missing_args_of_ctx(
                            ctx@,
                            fv.take(fi as int),
                        ) + missing_args_of_fn(func@, ctx@.args.take(ai as int)),
                        r.diagnostics@ == old(r).diagnostics@,
                        r.file_info == old(r).file_info,
                        r.file_path == old(r).file_path,
                    decreases na - ai,
                {
                    let req: &FnArgs = &ctx.args[ai];
                    proof {
                        assert(ctx@.args[ai as int] == req@);
                        assert(ctx@.args.take(ai as int + 1).drop_last() =~= ctx@.args.take(
                            ai as int,
                        ));
                        assert(ctx@.args.take(ai as int + 1).last() == ctx@.args[ai as int]);
                    }
                    if !fn_has_arg(&func.args, req) {
                        let ghost prior = r.findings@;
                        proof {
                            assert(func@.args == func.args@.map_values(|a: FnArgs| a@));
                        }
                        r.add(
                            Finding::MissingRequiredInstructionArgument(
                                MissingRequiredInstructionArgumentFinding {
                                    rule: RuleCode::MissingRequiredInstructionArgument,
                                    fn_name: func.name.clone(),
                                    line: func.line,
                                    required_arg_name: req.name.clone(),
                                    required_arg_type: req.ty.clone(),
                                },
                            ),
                        );
                        proof {
                            assert(findings_view(r.findings@) =~= findings_view(prior).push(
                                missing_arg_view(func@, req@),
                            ));
                        }
                    } else {
                        proof {
                            assert(func@.args == func.args@.map_values(|a: FnArgs| a@));
                        }
                    }
                    ai = ai + 1;
                }
                proof {
                    assert(ctx@.args.take(na as int) =~= ctx@.args);
                    assert(func@.context == ctx@.ctx_name);
                }
            }
            fi = fi + 1;
        }
        proof {
            assert(fv.take(nf as int) =~= fv);
        }
        ci = ci + 1;
    }
    proof {
        assert(cv.take(nc as int) =~= cv);
    }
}

} // verus!
