//! End-to-end tests of one analysis run, and of the text utilities the
//! pipeline is built on.

use anchor_sentry::run_analysis;
use anchor_sentry::knowledge_base::Finding;
use anchor_sentry::syntax::{
    Attr, ExprTree, FieldDecl, FnDecl, GenericArg, Item, ModDecl, Param, PathType, SourceFile,
    StructDecl,
};
use anchor_sentry::text::{
    i64_to_decimal, split_top_level, str_contains, str_ends_with, str_eq, str_starts_with,
    str_trim,
};

fn attr(path: &str, text: &str, arg_text: &str) -> Attr {
    Attr {
        path: path.to_string(),
        text: text.to_string(),
        arg_text: arg_text.to_string(),
    }
}

fn simple_type(ident: &str, args: Vec<GenericArg>) -> PathType {
    PathType {
        first_ident: ident.to_string(),
        first_args: args.clone(),
        last_ident: ident.to_string(),
        last_args: args,
    }
}

/// A small program with one finding per rule: an unsafely initialized
/// associated account that also declares too little space, a handler
/// missing its declared seed argument, a division by a variable, and
/// an unconstrained raw account.
fn sample_program() -> SourceFile {
    let storage = StructDecl {
        name: "VaultAccount".to_string(),
        attrs: vec![attr("account", "# [account]", "")],
        fields: vec![
            FieldDecl {
                name: "balance".to_string(),
                ty: Some(simple_type("u64", Vec::new())),
                attrs: Vec::new(),
                line: 11,
            },
            FieldDecl {
                name: "owner".to_string(),
                ty: Some(simple_type("Pubkey", Vec::new())),
                attrs: Vec::new(),
                line: 12,
            },
        ],
        line: 10,
    };
    let context = StructDecl {
        name: "InitVault".to_string(),
        attrs: vec![
            attr("derive", "# [derive (Accounts)]", "Accounts"),
            attr("instruction", "# [instruction (seed : u64)]", "seed : u64"),
        ],
        fields: vec![
            FieldDecl {
                name: "vault_ata".to_string(),
                ty: Some(simple_type(
                    "Account",
                    vec![
                        GenericArg::Lifetime("info".to_string()),
                        GenericArg::TypeName("VaultAccount".to_string()),
                    ],
                )),
                attrs: vec![attr(
                    "account",
                    "# [account (init , associated_token :: mint = m , space = 40)]",
                    "init , associated_token :: mint = m , space = 40",
                )],
                line: 21,
            },
            FieldDecl {
                name: "authority".to_string(),
                ty: Some(simple_type(
                    "UncheckedAccount",
                    vec![GenericArg::Lifetime("info".to_string())],
                )),
                attrs: Vec::new(),
                line: 22,
            },
        ],
        line: 20,
    };
    let handler = FnDecl {
        name: "init_vault".to_string(),
        params: vec![Param::Typed {
            name: "ctx".to_string(),
            ty: simple_type(
                "Context",
                vec![GenericArg::TypeName("InitVault".to_string())],
            ),
        }],
        body: vec![ExprTree::Div(
            33,
            Box::new(ExprTree::Ident("total".to_string())),
            Box::new(ExprTree::Ident("share".to_string())),
        )],
        line: 31,
    };
    SourceFile {
        items: vec![
            Item::Struct(storage),
            Item::Struct(context),
            Item::Module(ModDecl {
                name: "program".to_string(),
                items: vec![Item::Function(handler)],
            }),
        ],
    }
}

#[test]
fn analysis_raises_one_finding_per_rule() {
    let report = run_analysis(&sample_program());
    assert_eq!(report.findings.len(), 5);
    assert!(matches!(&report.findings[0], Finding::MissingInitIfNeeded(x)
        if x.account == "vault_ata" && x.context == "InitVault" && x.line == 21));
    assert!(matches!(&report.findings[1], Finding::WrongSpaceAssignment(x)
        if x.account == "vault_ata" && x.expected == 48 && x.actual == "40"));
    assert!(matches!(&report.findings[2], Finding::PossibleMissingAccountVerification(x)
        if x.account_name == "authority" && x.field_type == "UncheckedAccount"));
    assert!(matches!(&report.findings[3], Finding::MissingRequiredInstructionArgument(x)
        if x.fn_name == "init_vault" && x.required_arg_name == "seed"
            && x.required_arg_type == "u64"));
    assert!(matches!(&report.findings[4], Finding::PossibleDivisionByZero(x)
        if x.fn_name == "init_vault" && x.divisor == "share" && x.line == 33));
    assert_eq!(report.diagnostics.len(), 0);
}

#[test]
fn analysis_is_deterministic_on_identical_input() {
    let first = run_analysis(&sample_program());
    let second = run_analysis(&sample_program());
    assert_eq!(first.findings, second.findings);
    assert_eq!(first.diagnostics, second.diagnostics);
    let sorted_first = first.sorted_findings();
    let sorted_second = second.sorted_findings();
    assert_eq!(sorted_first, sorted_second);
}

#[test]
fn sorted_analysis_findings_go_high_medium_low() {
    let report = run_analysis(&sample_program());
    let sorted = report.sorted_findings();
    assert!(matches!(&sorted[0], Finding::MissingInitIfNeeded(_)));
    assert!(matches!(&sorted[1], Finding::WrongSpaceAssignment(_)));
    assert!(matches!(&sorted[2], Finding::MissingRequiredInstructionArgument(_)));
    assert!(matches!(&sorted[3], Finding::PossibleMissingAccountVerification(_)));
    assert!(matches!(&sorted[4], Finding::PossibleDivisionByZero(_)));
}

#[test]
fn empty_file_yields_no_findings() {
    let report = run_analysis(&SourceFile { items: Vec::new() });
    assert_eq!(report.findings.len(), 0);
    assert_eq!(report.diagnostics.len(), 0);
}

#[test]
fn string_utilities_behave_as_specified() {
    assert!(str_eq("abc", "abc"));
    assert!(!str_eq("abc", "abd"));
    assert!(!str_eq("abc", "ab"));
    assert!(str_contains("associated_token::mint", "associated_token"));
    assert!(!str_contains("token", "associated"));
    assert!(str_contains("abc", ""));
    assert!(str_starts_with("# [account (init)]", "# [account ("));
    assert!(!str_starts_with("# [doc]", "# [account ("));
    assert!(str_ends_with("init)]", ")]"));
    assert!(!str_ends_with("init", ")]"));
    assert_eq!(str_trim("  a b  "), "a b");
    assert_eq!(str_trim("\t\r\n"), "");
}

#[test]
fn split_respects_nesting_and_quotes() {
    assert_eq!(split_top_level("a,b,c"), vec!["a", "b", "c"]);
    assert_eq!(split_top_level("a"), vec!["a"]);
    assert_eq!(split_top_level(""), vec![""]);
    assert_eq!(split_top_level("f(a,b),c"), vec!["f(a,b)", "c"]);
    assert_eq!(split_top_level("[a,b],c"), vec!["[a,b]", "c"]);
    assert_eq!(split_top_level("{a,b},c"), vec!["{a,b}", "c"]);
    assert_eq!(split_top_level("\"a,b\",c"), vec!["\"a,b\"", "c"]);
    assert_eq!(split_top_level("a,,b"), vec!["a", "", "b"]);
}

#[test]
fn renders_decimal_values() {
    assert_eq!(i64_to_decimal(0), "0");
    assert_eq!(i64_to_decimal(56), "56");
    assert_eq!(i64_to_decimal(1000), "1000");
    assert_eq!(i64_to_decimal(40), "40");
    assert_eq!(i64_to_decimal(-8), "-8");
    assert_eq!(i64_to_decimal(i64::MIN), "-9223372036854775808");
    assert_eq!(i64_to_decimal(i64::MAX), "9223372036854775807");
}
