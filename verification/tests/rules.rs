//! Scenario tests of the five rules.

use anchor_sentry::knowledge_base::{Finding, RuleCode};
use anchor_sentry::report::Report;
use anchor_sentry::rules::rule_division_by_zero::rules_division_by_variable;
use anchor_sentry::rules::rule_init_if_needed::rules_missing_init_if_needed;
use anchor_sentry::rules::rule_missing_account_verification::rules_missing_signer_check;
use anchor_sentry::rules::rule_missing_fn_arg::rules_fn_missing_instruction_args;
use anchor_sentry::rules::rule_wrong_space_assignment::{
    extract_space, rules_wrong_space_assignment,
};
use anchor_sentry::state::{
    AccountInstructions, AttributeValue, Diagnostic, FnArgs, NormalizedAccountField,
    NormalizedAccountStruct, NormalizedFunctionArgs, StorageStruct,
};
use anchor_sentry::syntax::{ExprTree, FnDecl, Item, SourceFile};

fn field(
    context: &str,
    name: &str,
    base_type: &str,
    generic_args: &[&str],
    attributes: &[(&str, AttributeValue)],
    line: usize,
) -> NormalizedAccountField {
    NormalizedAccountField {
        context: context.to_string(),
        name: name.to_string(),
        base_type: base_type.to_string(),
        generic_args: generic_args.iter().map(|s| s.to_string()).collect(),
        attributes: attributes
            .iter()
            .map(|(k, v)| (k.to_string(), v.clone()))
            .collect(),
        line,
    }
}

fn ctx_struct(name: &str, fields: Vec<NormalizedAccountField>) -> NormalizedAccountStruct {
    NormalizedAccountStruct {
        name: name.to_string(),
        fields,
        line: 1,
    }
}

fn bool_attr(k: &str) -> (&str, AttributeValue) {
    (k, AttributeValue::Bool(true))
}

fn text_attr<'a>(k: &'a str, v: &str) -> (&'a str, AttributeValue) {
    (k, AttributeValue::Text(v.to_string()))
}

#[test]
fn unsafe_init_of_associated_account_is_flagged() {
    let f = field(
        "OpenEscrow",
        "vault_ata",
        "Account",
        &["'info", "TokenAccount"],
        &[text_attr("associated_token::mint", "m"), bool_attr("init")],
        12,
    );
    let s = ctx_struct("OpenEscrow", vec![f]);
    let mut r = Report::default();
    rules_missing_init_if_needed(&s, &mut r);
    assert_eq!(r.findings.len(), 1);
    match &r.findings[0] {
        Finding::MissingInitIfNeeded(x) => {
            assert_eq!(x.rule, RuleCode::MissingInitIfNeeded);
            assert_eq!(x.account, "vault_ata");
            assert_eq!(x.context, "OpenEscrow");
            assert_eq!(x.line, 12);
        }
        other => panic!("unexpected finding: {:?}", other),
    }
}

#[test]
fn idempotent_init_of_associated_account_is_not_flagged() {
    let f = field(
        "OpenEscrow",
        "vault_ata",
        "Account",
        &["'info", "TokenAccount"],
        &[
            text_attr("associated_token::mint", "m"),
            bool_attr("init_if_needed"),
        ],
        12,
    );
    let s = ctx_struct("OpenEscrow", vec![f]);
    let mut r = Report::default();
    rules_missing_init_if_needed(&s, &mut r);
    assert_eq!(r.findings.len(), 0);
}

#[test]
fn matching_space_yields_no_finding() {
    let f = field(
        "InitVault",
        "vault",
        "Account",
        &["'info", "VaultAccount"],
        &[bool_attr("init"), text_attr("space", "8+8+8+32")],
        5,
    );
    let s = ctx_struct("InitVault", vec![f]);
    let stores = vec![StorageStruct {
        name: "VaultAccount".to_string(),
        field_types: vec!["u64".to_string(), "u64".to_string(), "Pubkey".to_string()],
    }];
    let mut r = Report::default();
    rules_wrong_space_assignment(&s, &stores, &mut r);
    assert_eq!(r.findings.len(), 0);
    assert_eq!(r.diagnostics.len(), 0);
}

#[test]
fn mismatched_space_yields_one_finding() {
    let f = field(
        "InitVault",
        "vault",
        "Account",
        &["'info", "VaultAccount"],
        &[bool_attr("init"), text_attr("space", "40")],
        5,
    );
    let s = ctx_struct("InitVault", vec![f]);
    let stores = vec![StorageStruct {
        name: "VaultAccount".to_string(),
        field_types: vec!["u64".to_string(), "u64".to_string(), "Pubkey".to_string()],
    }];
    let mut r = Report::default();
    rules_wrong_space_assignment(&s, &stores, &mut r);
    assert_eq!(r.findings.len(), 1);
    match &r.findings[0] {
        Finding::WrongSpaceAssignment(x) => {
            assert_eq!(x.rule, RuleCode::WrongSpaceAssignment);
            assert_eq!(x.account, "vault");
            assert_eq!(x.line, 5);
            assert_eq!(x.expected, 56);
            assert_eq!(x.actual, "40");
        }
        other => panic!("unexpected finding: {:?}", other),
    }
}

#[test]
fn unparsable_space_is_a_diagnostic_not_a_crash() {
    let f = field(
        "InitVault",
        "vault",
        "Account",
        &["'info", "VaultAccount"],
        &[text_attr("space", "8 +")],
        5,
    );
    let s = ctx_struct("InitVault", vec![f]);
    let mut r = Report::default();
    rules_wrong_space_assignment(&s, &Vec::new(), &mut r);
    assert_eq!(r.findings.len(), 0);
    assert_eq!(
        r.diagnostics,
        vec![Diagnostic::UnparsableSpaceExpression {
            account: "vault".to_string(),
            line: 5,
        }]
    );
}

#[test]
fn space_without_storage_type_argument_is_a_diagnostic() {
    let f = field(
        "InitVault",
        "vault",
        "Signer",
        &["'info"],
        &[text_attr("space", "48")],
        6,
    );
    let s = ctx_struct("InitVault", vec![f]);
    let mut r = Report::default();
    rules_wrong_space_assignment(&s, &Vec::new(), &mut r);
    assert_eq!(r.findings.len(), 0);
    assert_eq!(
        r.diagnostics,
        vec![Diagnostic::MissingStorageTypeArgument {
            account: "vault".to_string(),
            line: 6,
        }]
    );
}

#[test]
fn unsized_storage_struct_is_a_diagnostic() {
    let f = field(
        "InitVault",
        "vault",
        "Account",
        &["'info", "Record"],
        &[text_attr("space", "48")],
        7,
    );
    let s = ctx_struct("InitVault", vec![f]);
    let stores = vec![StorageStruct {
        name: "Record".to_string(),
        field_types: vec!["u64".to_string(), "String".to_string()],
    }];
    let mut r = Report::default();
    rules_wrong_space_assignment(&s, &stores, &mut r);
    assert_eq!(r.findings.len(), 0);
    assert_eq!(
        r.diagnostics,
        vec![Diagnostic::UnsizedStorageStruct {
            storage: "Record".to_string(),
            line: 7,
        }]
    );
}

#[test]
fn extract_space_evaluates_the_annotation() {
    let f = field(
        "C",
        "a",
        "Account",
        &[],
        &[text_attr("space", "8 + 32")],
        1,
    );
    assert_eq!(extract_space(&f), Some(40));
    let g = field("C", "a", "Account", &[], &[bool_attr("init")], 1);
    assert_eq!(extract_space(&g), None);
}

#[test]
fn missing_instruction_argument_is_flagged_per_pair() {
    let ctxs = vec![AccountInstructions {
        ctx_name: "C".to_string(),
        args: vec![FnArgs {
            name: "seed".to_string(),
            ty: "u64".to_string(),
        }],
    }];
    let funcs = vec![NormalizedFunctionArgs {
        name: "handler".to_string(),
        context: "C".to_string(),
        args: Vec::new(),
        line: 20,
    }];
    let mut r = Report::default();
    rules_fn_missing_instruction_args(&ctxs, &funcs, &mut r);
    assert_eq!(r.findings.len(), 1);
    match &r.findings[0] {
        Finding::MissingRequiredInstructionArgument(x) => {
            assert_eq!(x.rule, RuleCode::MissingRequiredInstructionArgument);
            assert_eq!(x.fn_name, "handler");
            assert_eq!(x.line, 20);
            assert_eq!(x.required_arg_name, "seed");
            assert_eq!(x.required_arg_type, "u64");
        }
        other => panic!("unexpected finding: {:?}", other),
    }
}

#[test]
fn present_instruction_argument_is_not_flagged() {
    let ctxs = vec![AccountInstructions {
        ctx_name: "C".to_string(),
        args: vec![FnArgs {
            name: "seed".to_string(),
            ty: "u64".to_string(),
        }],
    }];
    let funcs = vec![NormalizedFunctionArgs {
        name: "handler".to_string(),
        context: "C".to_string(),
        args: vec![FnArgs {
            name: "seed".to_string(),
            ty: "u64".to_string(),
        }],
        line: 20,
    }];
    let mut r = Report::default();
    rules_fn_missing_instruction_args(&ctxs, &funcs, &mut r);
    assert_eq!(r.findings.len(), 0);
}

#[test]
fn argument_must_match_by_name_and_type() {
    let ctxs = vec![AccountInstructions {
        ctx_name: "C".to_string(),
        args: vec![FnArgs {
            name: "seed".to_string(),
            ty: "u64".to_string(),
        }],
    }];
    let funcs = vec![NormalizedFunctionArgs {
        name: "handler".to_string(),
        context: "C".to_string(),
        args: vec![FnArgs {
            name: "seed".to_string(),
            ty: "u32".to_string(),
        }],
        line: 20,
    }];
    let mut r = Report::default();
    rules_fn_missing_instruction_args(&ctxs, &funcs, &mut r);
    assert_eq!(r.findings.len(), 1);
}

#[test]
fn unbound_function_is_not_checked() {
    let ctxs = vec![AccountInstructions {
        ctx_name: "C".to_string(),
        args: vec![FnArgs {
            name: "seed".to_string(),
            ty: "u64".to_string(),
        }],
    }];
    let funcs = vec![NormalizedFunctionArgs {
        name: "other".to_string(),
        context: "D".to_string(),
        args: Vec::new(),
        line: 9,
    }];
    let mut r = Report::default();
    rules_fn_missing_instruction_args(&ctxs, &funcs, &mut r);
    assert_eq!(r.findings.len(), 0);
}

fn file_with_body(body: Vec<ExprTree>) -> SourceFile {
    SourceFile {
        items: vec![Item::Function(FnDecl {
            name: "f".to_string(),
            params: Vec::new(),
            body,
            line: 2,
        })],
    }
}

#[test]
fn division_by_bare_identifier_is_flagged() {
    let ast = file_with_body(vec![ExprTree::Div(
        3,
        Box::new(ExprTree::Ident("a".to_string())),
        Box::new(ExprTree::Ident("b".to_string())),
    )]);
    let mut r = Report::default();
    rules_division_by_variable(&ast, &mut r);
    assert_eq!(r.findings.len(), 1);
    match &r.findings[0] {
        Finding::PossibleDivisionByZero(x) => {
            assert_eq!(x.rule, RuleCode::PossibleDivisionByZero);
            assert_eq!(x.fn_name, "f");
            assert_eq!(x.divisor, "b");
            assert_eq!(x.line, 3);
        }
        other => panic!("unexpected finding: {:?}", other),
    }
}

#[test]
fn division_by_literal_is_not_flagged() {
    let ast = file_with_body(vec![ExprTree::Div(
        3,
        Box::new(ExprTree::Ident("a".to_string())),
        Box::new(ExprTree::Node(Vec::new())),
    )]);
    let mut r = Report::default();
    rules_division_by_variable(&ast, &mut r);
    assert_eq!(r.findings.len(), 0);
}

#[test]
fn division_by_compound_expression_is_not_flagged() {
    let ast = file_with_body(vec![ExprTree::Div(
        3,
        Box::new(ExprTree::Ident("a".to_string())),
        Box::new(ExprTree::Node(vec![
            ExprTree::Ident("b".to_string()),
            ExprTree::Ident("c".to_string()),
        ])),
    )]);
    let mut r = Report::default();
    rules_division_by_variable(&ast, &mut r);
    assert_eq!(r.findings.len(), 0);
}

#[test]
fn nested_division_sites_are_found_with_innermost_function_name() {
    let inner = ExprTree::Func(
        "g".to_string(),
        vec![ExprTree::Div(
            8,
            Box::new(ExprTree::Ident("x".to_string())),
            Box::new(ExprTree::Ident("y".to_string())),
        )],
    );
    let ast = file_with_body(vec![
        inner,
        ExprTree::Div(
            9,
            Box::new(ExprTree::Ident("a".to_string())),
            Box::new(ExprTree::Ident("b".to_string())),
        ),
    ]);
    let mut r = Report::default();
    rules_division_by_variable(&ast, &mut r);
    assert_eq!(r.findings.len(), 2);
    match (&r.findings[0], &r.findings[1]) {
        (Finding::PossibleDivisionByZero(x), Finding::PossibleDivisionByZero(y)) => {
            assert_eq!(x.fn_name, "g");
            assert_eq!(x.divisor, "y");
            assert_eq!(y.fn_name, "f");
            assert_eq!(y.divisor, "b");
        }
        other => panic!("unexpected findings: {:?}", other),
    }
}

#[test]
fn unconstrained_raw_account_is_flagged() {
    let f = field("Claim", "authority", "UncheckedAccount", &["'info"], &[], 15);
    let s = ctx_struct("Claim", vec![f]);
    let mut r = Report::default();
    rules_missing_signer_check(&s, &mut r);
    assert_eq!(r.findings.len(), 1);
    match &r.findings[0] {
        Finding::PossibleMissingAccountVerification(x) => {
            assert_eq!(x.rule, RuleCode::MissingAccountVerification);
            assert_eq!(x.account_name, "authority");
            assert_eq!(x.field_type, "UncheckedAccount");
            assert_eq!(x.line, 15);
        }
        other => panic!("unexpected finding: {:?}", other),
    }
}

#[test]
fn signer_annotation_suppresses_raw_account_finding() {
    let f = field(
        "Claim",
        "authority",
        "AccountInfo",
        &["'info"],
        &[bool_attr("signer")],
        15,
    );
    let s = ctx_struct("Claim", vec![f]);
    let mut r = Report::default();
    rules_missing_signer_check(&s, &mut r);
    assert_eq!(r.findings.len(), 0);
}

#[test]
fn constraint_annotation_suppresses_raw_account_finding() {
    let f = field(
        "Claim",
        "authority",
        "AccountInfo",
        &["'info"],
        &[bool_attr("constraint")],
        15,
    );
    let s = ctx_struct("Claim", vec![f]);
    let mut r = Report::default();
    rules_missing_signer_check(&s, &mut r);
    assert_eq!(r.findings.len(), 0);
}

#[test]
fn typed_account_is_not_a_raw_account() {
    let f = field("Claim", "vault", "Account", &["'info", "Vault"], &[], 15);
    let s = ctx_struct("Claim", vec![f]);
    let mut r = Report::default();
    rules_missing_signer_check(&s, &mut r);
    assert_eq!(r.findings.len(), 0);
}
