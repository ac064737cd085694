//! Possibly unverified raw account: a field of one of the two raw,
//! unchecked account capabilities with neither a bare `constraint` nor
//! a bare `signer` annotation accepts arbitrary caller-provided
//! accounts without any declared validation.

use vstd::prelude::*;
use crate::knowledge_base::{
    findings_view,
    Finding,
    FindingView,
    PossibleMissingAccountVerificationFinding,
    PossibleMissingAccountVerificationView,
    RuleCode,
};
use crate::report::Report;
use crate::state::{AccountFieldView, NormalizedAccountField, NormalizedAccountStruct};
use crate::text::str_eq;

verus! {

/// The rule's trigger: a raw or unchecked account capability with no
/// boolean `constraint` and no boolean `signer` annotation.
pub open spec fn flags_unverified_account(f: AccountFieldView) -> bool {
    (f.base_type == "AccountInfo"@ || f.base_type == "UncheckedAccount"@)
        && !f.has_bool_attribute_spec("constraint"@) && !f.has_bool_attribute_spec("signer"@)
}

/// The finding raised for one flagged field.
pub open spec fn unverified_account_view(f: AccountFieldView) -> FindingView {
    FindingView::PossibleMissingAccountVerification(
        PossibleMissingAccountVerificationView {
            rule: RuleCode::MissingAccountVerification,
            line: f.line,
            account_name: f.name,
            field_type: f.base_type,
        },
    )
}

/// One finding per flagged field, in field order.
pub open spec fn unverified_account_findings(fields: Seq<AccountFieldView>) -> Seq<FindingView>
    decreases fields.len(),
{
    if fields.len() == 0 {
        Seq::<FindingView>::empty()
    } else {
        unverified_account_findings(fields.drop_last()) + if flags_unverified_account(
            fields.last(),
        ) {
            seq![unverified_account_view(fields.last())]
        } else {
            Seq::<FindingView>::empty()
        }
    }
}

/// Flag every unconstrained raw account field of one context struct;
/// see [`unverified_account_findings`].
pub fn rules_missing_signer_check(s: &NormalizedAccountStruct, r: &mut Report)
    ensures
        findings_view(final(r).findings@) == findings_view(old(r).findings@)
            + unverified_account_findings(s@.fields),
        final(r).diagnostics@ == old(r).diagnostics@,
        final(r).file_info == old(r).file_info,
        final(r).file_path == old(r).file_path,
{
    let n = s.fields.len();
    let mut i: usize = 0;
    proof {
        assert(findings_view(r.findings@) =~= findings_view(old(r).findings@)
            + unverified_account_findings(s@.fields.take(0)));
    }
    while i < n
        invariant
            0 <= i <= n,
            n == s.fields@.len(),
            s@.fields.len() == n,
            findings_view(r.findings@) == findings_view(old(r).findings@)
                + unverified_account_findings(s@.fields.take(i as int)),
            r.diagnostics@ == old(r).diagnostics@,
            r.file_info == old(r).file_info,
            r.file_path == old(r).file_path,
        decreases n - i,
    {
        let field: &NormalizedAccountField = &s.fields[i];
        proof {
            assert(s@.fields[i as int] == field@);
            assert(s@.fields.take(i as int + 1).drop_last() =~= s@.fields.take(i as int));
            assert(s@.fields.take(i as int + 1).last() == s@.fields[i as int]);
        }
        let raw = str_eq(field.base_type.as_str(), "AccountInfo") || str_eq(
            field.base_type.as_str(),
            "UncheckedAccount",
        );
        if raw && !field.has_bool_attribute("constraint") && !field.has_bool_attribute("signer") {
            let ghost prior = r.findings@;
            r.add(
                Finding::PossibleMissingAccountVerification(
                    PossibleMissingAccountVerificationFinding {
                        rule: RuleCode::MissingAccountVerification,
                        line: field.line,
                        account_name: field.name.clone(),
                        field_type: field.base_type.clone(),
                    },
                ),
            );
            proof {
                assert(findings_view(r.findings@) =~= findings_view(prior).push(
                    unverified_account_view(field@),
                ));
            }
        }
        i = i + 1;
    }
    proof {
        assert(s@.fields.take(n as int) =~= s@.fields);
    }
}

} // verus!
