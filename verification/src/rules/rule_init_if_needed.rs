//! Unsafe associated-account creation: a field whose annotation keys
//! mention the associated-token constraint and that carries a bare
//! `init` annotation fails when the account already exists; the
//! idempotent `init_if_needed` form does not trip the rule because its
//! key is not bound as the boolean `init`.

use vstd::prelude::*;
use crate::knowledge_base::{
    findings_view,
    Finding,
    FindingView,
    MissingInitIfNeededFinding,
    MissingInitIfNeededView,
    RuleCode,
};
use crate::report::Report;
use crate::state::{AccountFieldView, NormalizedAccountField, NormalizedAccountStruct};

verus! {

/// The rule's trigger: some annotation key contains `associated_token`
/// and `init` is bound as a bare boolean annotation.
pub open spec fn flags_missing_init(f: AccountFieldView) -> bool {
    f.contains_attr_spec("associated_token"@) && f.has_bool_attribute_spec("init"@)
}

/// The finding raised for one flagged field of context `ctx`.
pub open spec fn missing_init_view(ctx: Seq<char>, f: AccountFieldView) -> FindingView {
    FindingView::MissingInitIfNeeded(
        MissingInitIfNeededView {
            rule: RuleCode::MissingInitIfNeeded,
            line: f.line,
            account: f.name,
            context: ctx,
        },
    )
}

/// One finding per flagged field, in field order.
pub open spec fn missing_init_findings(ctx: Seq<char>, fields: Seq<AccountFieldView>) -> Seq<
    FindingView,
>
    decreases fields.len(),
{
    if fields.len() == 0 {
        Seq::<FindingView>::empty()
    } else {
        missing_init_findings(ctx, fields.drop_last()) + if flags_missing_init(fields.last()) {
            seq![missing_init_view(ctx, fields.last())]
        } else {
            Seq::<FindingView>::empty()
        }
    }
}

/// Flag every unsafely initialized associated account of one context
/// struct; see [`missing_init_findings`].
pub fn rules_missing_init_if_needed(s: &NormalizedAccountStruct, r: &mut Report)
    ensures
        findings_view(final(r).findings@) == findings_view(old(r).findings@)
            + missing_init_findings(s@.name, s@.fields),
        final(r).diagnostics@ == old(r).diagnostics@,
        final(r).file_info == old(r).file_info,
        final(r).file_path == old(r).file_path,
{
    let n = s.fields.len();
    let mut i: usize = 0;
    proof {
        assert(findings_view(r.findings@) =~= findings_view(old(r).findings@)
            + missing_init_findings(s@.name, s@.fields.take(0)));
    }
    while i < n
        invariant
            0 <= i <= n,
            n == s.fields@.len(),
            s@.fields.len() == n,
            findings_view(r.findings@) == findings_view(old(r).findings@) + missing_init_findings(
                s@.name,
                s@.fields.take(i as int),
            ),
            r.diagnostics@ == old(r).diagnostics@,
            r.file_info == old(r).file_info,
            r.file_path == old(r).file_path,
        decreases n - i,
    {
        let field: &NormalizedAccountField = &s.fields[i];
        proof {
            assert(s@.fields[i as int] == field@);
            assert(s@.fields.take(i as int + 1).drop_last() =~= s@.fields.take(i as int));
            assert(s@.fields.take(i as int + 1).last() == s@.fields[i as int]);
        }
        if field.contains_attr("associated_token") && field.has_bool_attribute("init") {
            let ghost prior = r.findings@;
            r.add(
                Finding::MissingInitIfNeeded(
                    MissingInitIfNeededFinding {
                        rule: RuleCode::MissingInitIfNeeded,
                        account: field.name.clone(),
                        line: field.line,
                        context: s.name.clone(),
                    },
                ),
            );
            proof {
                assert(findings_view(r.findings@) =~= findings_view(prior).push(
                    missing_init_view(s@.name, field@),
                ));
            }
        }
        i = i + 1;
    }
    proof {
        assert(s@.fields.take(n as int) =~= s@.fields);
    }
}

} // verus!
