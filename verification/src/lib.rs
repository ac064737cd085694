//! Static analyzer for attribute-annotated account-binding source files.
//!
//! The library takes one already-parsed source file, given as the plain
//! syntax model in [`syntax`], normalizes it into a typed domain model of
//! account-context structs, storage structs and instruction handlers, and
//! runs a fixed catalogue of rules that flag risky patterns.  Every rule
//! and every helper is specified by an exact contract and verified;
//! reading the source text and rendering the report live outside the
//! library.

pub mod eval;
pub mod knowledge_base;
pub mod normalize;
pub mod report;
pub mod rules;
pub mod state;
pub mod syntax;
pub mod text;

use vstd::prelude::*;

use crate::knowledge_base::{findings_view, FindingView};
use crate::normalize::{
    account_structs_spec,
    functions_spec,
    instruction_ctxs_of_items,
    normalize_program,
    program_diags_spec,
    storage_structs_spec,
};
use crate::report::Report;
use crate::rules::rule_division_by_zero::{division_findings, rules_division_by_variable};
use crate::rules::rule_init_if_needed::{missing_init_findings, rules_missing_init_if_needed};
use crate::rules::rule_missing_account_verification::{
    rules_missing_signer_check,
    unverified_account_findings,
};
use crate::rules::rule_missing_fn_arg::{missing_args_findings, rules_fn_missing_instruction_args};
use crate::rules::rule_wrong_space_assignment::{
    rules_wrong_space_assignment,
    space_diags,
    space_findings,
};
use crate::state::{
    diagnostics_view,
    AccountStructView,
    Diagnostic,
    DiagnosticView,
    NormalizedAccountStruct,
    StorageStruct,
    StorageStructView,
};
use crate::syntax::SourceFile;

verus! {

/// The findings the three per-context rules raise for one context
/// struct, in the order the analysis runs them: unsafe initialization,
/// then size mismatches, then unverified raw accounts.
pub open spec fn struct_rule_findings(
    s: AccountStructView,
    stores: Seq<StorageStructView>,
) -> Seq<FindingView> {
    missing_init_findings(s.name, s.fields) + space_findings(s.fields, stores)
        + unverified_account_findings(s.fields)
}

/// The per-context findings of every context struct, in source order.
pub open spec fn structs_rule_findings(
    ss: Seq<AccountStructView>,
    stores: Seq<StorageStructView>,
) -> Seq<FindingView>
    decreases ss.len(),
{
    if ss.len() == 0 {
        Seq::<FindingView>::empty()
    } else {
        structs_rule_findings(ss.drop_last(), stores) + struct_rule_findings(ss.last(), stores)
    }
}

/// The size-rule diagnostics of every context struct, in source order.
pub open spec fn structs_rule_diags(
    ss: Seq<AccountStructView>,
    stores: Seq<StorageStructView>,
) -> Seq<DiagnosticView>
    decreases ss.len(),
{
    if ss.len() == 0 {
        Seq::<DiagnosticView>::empty()
    } else {
        structs_rule_diags(ss.drop_last(), stores) + space_diags(ss.last().fields, stores)
    }
}

/// Every finding of one analysis run, in discovery order: the
/// per-context rules over each context struct, then the missing
/// instruction arguments, then the division sites.
pub open spec fn analysis_findings(ast: SourceFile) -> Seq<FindingView> {
    structs_rule_findings(account_structs_spec(ast.items@), storage_structs_spec(ast.items@))
        + missing_args_findings(instruction_ctxs_of_items(ast.items@), functions_spec(ast.items@))
        + division_findings(ast)
}

/// Every diagnostic of one analysis run: normalization first, then the
/// size rule's, in discovery order.
pub open spec fn analysis_diags(ast: SourceFile) -> Seq<DiagnosticView> {
    program_diags_spec(ast.items@) + structs_rule_diags(
        account_structs_spec(ast.items@),
        storage_structs_spec(ast.items@),
    )
}

/// Analyze one parsed source file: normalize it and run the whole rule
/// catalogue.  The returned report holds exactly the findings of
/// [`analysis_findings`] and the diagnostics of [`analysis_diags`], in
/// discovery order; file statistics are not filled in here.
pub fn run_analysis(ast: &SourceFile) -> (r: Report)
    ensures
        findings_view(r.findings@) == analysis_findings(*ast),
        diagnostics_view(r.diagnostics@) == analysis_diags(*ast),
        r.file_info is None,
        r.file_path is None,
{
    let mut r = Report::default();
    let mut diags: Vec<Diagnostic> = Vec::new();
    let (account_structs, storage_structs, accounts_with_instructions, functions_args) =
        normalize_program(ast, &mut diags);
    r.diagnostics = diags;
    let ghost asv = account_structs@.map_values(|x: NormalizedAccountStruct| x@);
    let ghost ssv = storage_structs@.map_values(|x: StorageStruct| x@);
    let n = account_structs.len();
    let mut i: usize = 0;
    proof {
        assert(asv.take(0) =~= Seq::<AccountStructView>::empty());
        assert(findings_view(r.findings@) =~= structs_rule_findings(asv.take(0), ssv));
        assert(diagnostics_view(r.diagnostics@) =~= program_diags_spec(ast.items@)
            + structs_rule_diags(asv.take(0), ssv));
    }
    while i < n
        invariant
            0 <= i <= n,
            n == account_structs@.len(),
            asv == account_structs@.map_values(|x: NormalizedAccountStruct| x@),
            ssv == storage_structs@.map_values(|x: StorageStruct| x@),
            asv == account_structs_spec(ast.items@),
            ssv == storage_structs_spec(ast.items@),
            findings_view(r.findings@) == structs_rule_findings(asv.take(i as int), ssv),
            diagnostics_view(r.diagnostics@) == program_diags_spec(ast.items@)
                + structs_rule_diags(asv.take(i as int), ssv),
            r.file_info is None,
            r.file_path is None,
        decreases n - i,
    {
        let a: &NormalizedAccountStruct = &account_structs[i];
        proof {
            assert(asv[i as int] == a@);
            assert(asv.take(i as int + 1).drop_last() =~= asv.take(i as int));
            assert(asv.take(i as int + 1).last() == asv[i as int]);
        }
        rules_missing_init_if_needed(a, &mut r);
        rules_wrong_space_assignment(a, &storage_structs, &mut r);
        rules_missing_signer_check(a, &mut r);
        i = i + 1;
    }
    proof {
        assert(asv.take(n as int) =~= asv);
    }
    rules_fn_missing_instruction_args(&accounts_with_instructions, &functions_args, &mut r);
    rules_division_by_variable(ast, &mut r);
    proof {
        assert(findings_view(r.findings@) =~= analysis_findings(*ast));
        assert(diagnostics_view(r.diagnostics@) =~= analysis_diags(*ast));
    }
    r
}

/// Law: the analysis is deterministic.  Two runs whose reports meet
/// the contract of [`run_analysis`] on equal inputs hold equal finding
/// lists and equal diagnostic lists.
pub proof fn lemma_analysis_deterministic(a: SourceFile, b: SourceFile, r1: Report, r2: Report)
    requires
        a == b,
        findings_view(r1.findings@) == analysis_findings(a),
        findings_view(r2.findings@) == analysis_findings(b),
        diagnostics_view(r1.diagnostics@) == analysis_diags(a),
        diagnostics_view(r2.diagnostics@) == analysis_diags(b),
    ensures
        findings_view(r1.findings@) == findings_view(r2.findings@),
        diagnostics_view(r1.diagnostics@) == diagnostics_view(r2.diagnostics@),
{
}

} // verus!
