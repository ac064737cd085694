//! Storage size mismatch: a field carrying a textual `space` annotation
//! names a storage struct in its second generic type argument; the
//! evaluated annotation must equal the storage struct's expected size.
//! A space expression that does not evaluate, a missing storage type
//! argument, and a storage struct that cannot be sized are soft
//! failures: the entity is skipped with a diagnostic.

use vstd::prelude::*;
use crate::eval::{eval_chars, evaluate_expression, expected_size_spec, extract_types_from_storage_struct};
use crate::knowledge_base::{
    findings_view,
    Finding,
    FindingView,
    RuleCode,
    WrongSpaceAssignmentFinding,
    WrongSpaceAssignmentView,
};
use crate::report::Report;
use crate::state::{
    diagnostics_view,
    AccountFieldView,
    Diagnostic,
    DiagnosticView,
    NormalizedAccountField,
    NormalizedAccountStruct,
    StorageStruct,
    StorageStructView,
};
use crate::text::{dec_rep_signed, i64_to_decimal, str_eq};

verus! {

/// The evaluated `space` annotation of a field, when the field carries
/// one as text: `None` when there is no textual annotation or its text
/// does not evaluate.
pub open spec fn extract_space_spec(f: AccountFieldView) -> Option<int> {
    match f.text_attribute_spec("space"@) {
        Some(txt) => eval_chars(txt),
        None => None::<int>,
    }
}

/// The finding raised when the declared space differs from the
/// expected size: it reports the expected size and the evaluated
/// declared value rendered in decimal.
pub open spec fn space_mismatch_view(f: AccountFieldView, expected: int, value: int) -> FindingView {
    FindingView::WrongSpaceAssignment(
        WrongSpaceAssignmentView {
            rule: RuleCode::WrongSpaceAssignment,
            line: f.line,
            account: f.name,
            expected: expected,
            actual: dec_rep_signed(value),
        },
    )
}

/// Findings of one field (with evaluated space `value`) against every
/// storage struct whose name equals the field's storage type argument.
pub open spec fn space_findings_vs_storages(
    f: AccountFieldView,
    stores: Seq<StorageStructView>,
    value: int,
) -> Seq<FindingView>
    decreases stores.len(),
{
    if stores.len() == 0 {
        Seq::<FindingView>::empty()
    } else {
        space_findings_vs_storages(f, stores.drop_last(), value) + {
            let st = stores.last();
            if st.name == f.generic_args[1] {
                match expected_size_spec(st) {
                    Some(exp) => if exp == value {
                        Seq::<FindingView>::empty()
                    } else {
                        seq![space_mismatch_view(f, exp, value)]
                    },
                    None => Seq::<FindingView>::empty(),
                }
            } else {
                Seq::<FindingView>::empty()
            }
        }
    }
}

/// Diagnostics of one field against the storage structs: one per
/// matching storage struct that cannot be sized.
pub open spec fn space_diags_vs_storages(
    f: AccountFieldView,
    stores: Seq<StorageStructView>,
) -> Seq<DiagnosticView>
    decreases stores.len(),
{
    if stores.len() == 0 {
        Seq::<DiagnosticView>::empty()
    } else {
        space_diags_vs_storages(f, stores.drop_last()) + {
            let st = stores.last();
            if st.name == f.generic_args[1] && expected_size_spec(st) is None {
                seq![DiagnosticView::UnsizedStorageStruct { storage: st.name, line: f.line }]
            } else {
                Seq::<DiagnosticView>::empty()
            }
        }
    }
}

/// Findings of one field: nothing unless the field carries a textual
/// `space` annotation that evaluates and names a storage type argument.
pub open spec fn space_findings_of_field(
    f: AccountFieldView,
    stores: Seq<StorageStructView>,
) -> Seq<FindingView> {
    match extract_space_spec(f) {
        Some(value) => if f.generic_args.len() >= 2 {
            space_findings_vs_storages(f, stores, value)
        } else {
            Seq::<FindingView>::empty()
        },
        None => Seq::<FindingView>::empty(),
    }
}

/// Diagnostics of one field: an annotation that does not evaluate, a
/// missing storage type argument, or unsized matching storage structs.
pub open spec fn space_diags_of_field(
    f: AccountFieldView,
    stores: Seq<StorageStructView>,
) -> Seq<DiagnosticView> {
    match f.text_attribute_spec("space"@) {
        Some(txt) => match eval_chars(txt) {
            Some(value) => if f.generic_args.len() >= 2 {
                space_diags_vs_storages(f, stores)
            } else {
                seq![DiagnosticView::MissingStorageTypeArgument { account: f.name, line: f.line }]
            },
            None => seq![
                DiagnosticView::UnparsableSpaceExpression { account: f.name, line: f.line },
            ],
        },
        None => Seq::<DiagnosticView>::empty(),
    }
}

/// Findings of one context struct, in field order.
pub open spec fn space_findings(
    fields: Seq<AccountFieldView>,
    stores: Seq<StorageStructView>,
) -> Seq<FindingView>
    decreases fields.len(),
{
    if fields.len() == 0 {
        Seq::<FindingView>::empty()
    } else {
        space_findings(fields.drop_last(), stores) + space_findings_of_field(
            fields.last(),
            stores,
        )
    }
}

/// Diagnostics of one context struct, in field order.
pub open spec fn space_diags(
    fields: Seq<AccountFieldView>,
    stores: Seq<StorageStructView>,
) -> Seq<DiagnosticView>
    decreases fields.len(),
{
    if fields.len() == 0 {
        Seq::<DiagnosticView>::empty()
    } else {
        space_diags(fields.drop_last(), stores) + space_diags_of_field(fields.last(), stores)
    }
}

/// The evaluated space annotation of a field; see [`extract_space_spec`].
pub fn extract_space(f: &NormalizedAccountField) -> (r: Option<i64>)
    ensures
        match r {
            Some(v) => extract_space_spec(f@) == Some(v as int),
            None => extract_space_spec(f@) is None,
        },
{
    match f.has_str_attribute("space") {
        Some(txt) => evaluate_expression(txt),
        None => None,
    }
}

/// Check every `space`-annotated field of one context struct against
/// the storage structs it names; see [`space_findings`] and
/// [`space_diags`].
pub fn rules_wrong_space_assignment(
    s: &NormalizedAccountStruct,
    v: &Vec<StorageStruct>,
    r: &mut Report,
)
    ensures
        findings_view(final(r).findings@) == findings_view(old(r).findings@) + space_findings(
            s@.fields,
            v@.map_values(|x: StorageStruct| x@),
        ),
        diagnostics_view(final(r).diagnostics@) == diagnostics_view(old(r).diagnostics@)
            + space_diags(s@.fields, v@.map_values(|x: StorageStruct| x@)),
        final(r).file_info == old(r).file_info,
        final(r).file_path == old(r).file_path,
{
    let ghost sv = v@.map_values(|x: StorageStruct| x@);
    let n = s.fields.len();
    let mut i: usize = 0;
    proof {
        assert(findings_view(r.findings@) =~= findings_view(old(r).findings@) + space_findings(
            s@.fields.take(0),
            sv,
        ));
        assert(diagnostics_view(r.diagnostics@) =~= diagnostics_view(old(r).diagnostics@)
            + space_diags(s@.fields.take(0), sv));
    }
    while i < n
        invariant
            0 <= i <= n,
            n == s.fields@.len(),
            s@.fields.len() == n,
            sv == v@.map_values(|x: StorageStruct| x@),
            findings_view(r.findings@) == findings_view(old(r).findings@) + space_findings(
                s@.fields.take(i as int),
                sv,
            ),
            diagnostics_view(r.diagnostics@) == diagnostics_view(old(r).diagnostics@)
                + space_diags(s@.fields.take(i as int), sv),
            r.file_info == old(r).file_info,
            r.file_path == old(r).file_path,
        decreases n - i,
    {
        let field: &NormalizedAccountField = &s.fields[i];
        proof {
            assert(s@.fields[i as int] == field@);
            assert(s@.fields.take(i as int + 1).drop_last() =~= s@.fields.take(i as int));
            assert(s@.fields.take(i as int + 1).last() == s@.fields[i as int]);
        }
        match field.has_str_attribute("space") {
            None => {
            },
            Some(txt) => {
                match evaluate_expression(txt) {
                    None => {
                        let ghost prior = r.diagnostics@;
                        r.note(
                            Diagnostic::UnparsableSpaceExpression {
                                account: field.name.clone(),
                                line: field.line,
                            },
                        );
                        proof {
                            assert(diagnostics_view(r.diagnostics@) =~= diagnostics_view(
                                prior,
                            ).push(
                                DiagnosticView::UnparsableSpaceExpression {
                                    account: field@.name,
                                    line: field@.line,
                                },
                            ));
                        }
                    },
                    Some(value) => {
                        if field.generic_args.len() < 2 {
                            let ghost prior = r.diagnostics@;
                            r.note(
                                Diagnostic::MissingStorageTypeArgument {
                                    account: field.name.clone(),
                                    line: field.line,
                                },
                            );
                            proof {
                                assert(field@.generic_args.len() < 2);
                                assert(diagnostics_view(r.diagnostics@) =~= diagnostics_view(
                                    prior,
                                ).push(
                                    DiagnosticView::MissingStorageTypeArgument {
                                        account: field@.name,
                                        line: field@.line,
                                    },
                                ));
                            }
                        } else {
                            let target: &String = &field.generic_args[1];
                            proof {
                                assert(field@.generic_args.len() >= 2);
                                assert(field@.generic_args[1] == target@);
                            }
                            let ns = v.len();
                            let mut j: usize = 0;
                            proof {
                                assert(findings_view(r.findings@) =~= findings_view(
                                    old(r).findings@,
                                ) + space_findings(s@.fields.take(i as int), sv)
                                    + space_findings_vs_storages(field@, sv.take(0), value as int));
                                assert(diagnostics_view(r.diagnostics@) =~= diagnostics_view(
                                    old(r).diagnostics@,
                                ) + space_diags(s@.fields.take(i as int), sv)
                                    + space_diags_vs_storages(field@, sv.take(0)));
                            }
                            while j < ns
                                invariant
                                    0 <= j <= ns,
                                    ns == v@.len(),
                                    0 <= i < n,
                                    n == s.fields@.len(),
                                    s@.fields.len() == n,
                                    sv == v@.map_values(|x: StorageStruct| x@),
                                    field@ == s@.fields[i as int],
                                    field@.generic_args.len() >= 2,
                                    field@.generic_args[1] == target@,
                                    extract_space_spec(field@) == Some(value as int),
                                    findings_view(r.findings@) == findings_view(old(r).findings@)
                                        + space_findings(s@.fields.take(i as int), sv)
                                        + space_findings_vs_storages(
                                        field@,
                                        sv.take(j as int),
                                        value as int,
                                    ),
                                    diagnostics_view(r.diagnostics@) == diagnostics_view(
                                        old(r).diagnostics@,
                                    ) + space_diags(s@.fields.take(i as int), sv)
                                        + space_diags_vs_storages(field@, sv.take(j as int)),
                                    r.file_info == old(r).file_info,
                                    r.file_path == old(r).file_path,
                                decreases ns - j,
                            {
                                let st: &StorageStruct = &v[j];
                                proof {
                                    assert(sv[j as int] == st@);
                                    assert(sv.take(j as int + 1).drop_last() =~= sv.take(j as int));
                                    assert(sv.take(j as int + 1).last() == sv[j as int]);
                                }
                                if str_eq(st.name.as_str(), target.as_str()) {
                                    match extract_types_from_storage_struct(st) {
                                        None => {
                                            let ghost prior = r.diagnostics@;
                                            r.note(
                                                Diagnostic::UnsizedStorageStruct {
                                                    storage: st.name.clone(),
                                                    line: field.line,
                                                },
                                            );
                                            proof {
                                                assert(diagnostics_view(r.diagnostics@)
                                                    =~= diagnostics_view(prior).push(
                                                    DiagnosticView::UnsizedStorageStruct {
                                                        storage: st@.name,
                                                        line: field@.line,
                                                    },
                                                ));
                                            }
                                        },
                                        Some(exp) => {
                                            let matches_value = value >= 0 && exp as u64
                                                == value as u64;
                                            if !matches_value {
                                                let ghost prior = r.findings@;
                                                r.add(
                                                    Finding::WrongSpaceAssignment(
                                                        WrongSpaceAssignmentFinding {
                                                            rule: RuleCode::WrongSpaceAssignment,
                                                            account: field.name.clone(),
                                                            line: field.line,
                                                            expected: exp,
                                                            actual: i64_to_decimal(value),
                                                        },
                                                    ),
                                                );
                                                proof {
                                                    assert(findings_view(r.findings@)
                                                        =~= findings_view(prior).push(
                                                        space_mismatch_view(
                                                            field@,
                                                            exp as int,
                                                            value as int,
                                                        ),
                                                    ));
                                                }
                                            }
                                        },
                                    }
                                }
                                j = j + 1;
                            }
                            proof {
                                assert(sv.take(ns as int) =~= sv);
                            }
                        }
                    },
                }
            },
        }
        i = i + 1;
    }
    proof {
        assert(s@.fields.take(n as int) =~= s@.fields);
    }
}

} // verus!
