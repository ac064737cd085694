//! Tests of the normalizer: classification, annotation parsing, the
//! instruction marker, and handler signatures.

use anchor_sentry::normalize::{
    account_struct_has_instruction, extract_fn_args, extract_instruction_args,
    is_anchor_account_struct, is_anchor_storage_struct, normalize_program, normalize_struct,
    normalize_struct_field,
};
use anchor_sentry::state::{AttributeValue, Diagnostic};
use anchor_sentry::syntax::{
    Attr, FieldDecl, FnDecl, GenericArg, Item, ModDecl, Param, PathType, SourceFile, StructDecl,
};

fn attr(path: &str, text: &str, arg_text: &str) -> Attr {
    Attr {
        path: path.to_string(),
        text: text.to_string(),
        arg_text: arg_text.to_string(),
    }
}

fn simple_type(ident: &str, args: Vec<GenericArg>) -> PathType {
    PathType {
        first_ident: ident.to_string(),
        first_args: args.clone(),
        last_ident: ident.to_string(),
        last_args: args,
    }
}

fn field(name: &str, ty: Option<PathType>, attrs: Vec<Attr>, line: usize) -> FieldDecl {
    FieldDecl {
        name: name.to_string(),
        ty,
        attrs,
        line,
    }
}

fn struct_decl(name: &str, attrs: Vec<Attr>, fields: Vec<FieldDecl>, line: usize) -> StructDecl {
    StructDecl {
        name: name.to_string(),
        attrs,
        fields,
        line,
    }
}

fn derive_accounts() -> Attr {
    attr("derive", "# [derive (Accounts)]", "Accounts")
}

#[test]
fn classifies_account_context_structs() {
    let s = struct_decl("OpenEscrow", vec![derive_accounts()], Vec::new(), 1);
    assert!(is_anchor_account_struct(&s));

    let plain = struct_decl("Plain", Vec::new(), Vec::new(), 1);
    assert!(!is_anchor_account_struct(&plain));

    let other_derive = struct_decl(
        "Data",
        vec![attr("derive", "# [derive (Clone)]", "Clone")],
        Vec::new(),
        1,
    );
    assert!(!is_anchor_account_struct(&other_derive));
}

#[test]
fn classifies_storage_structs() {
    let s = struct_decl("Vault", vec![attr("account", "# [account]", "")], Vec::new(), 1);
    assert!(is_anchor_storage_struct(&s));
    let plain = struct_decl("Plain", vec![derive_accounts()], Vec::new(), 1);
    assert!(!is_anchor_storage_struct(&plain));
}

#[test]
fn recognizes_instruction_markers() {
    let s = struct_decl(
        "C",
        vec![attr("instruction", "# [instruction (seed : u64)]", "seed : u64")],
        Vec::new(),
        1,
    );
    assert!(account_struct_has_instruction(&s));
}

#[test]
fn parses_bare_and_valued_annotations() {
    let f = field(
        "vault",
        Some(simple_type("Account", Vec::new())),
        vec![attr(
            "account",
            "# [account (init , payer = user , space = 8 + 4)]",
            "init , payer = user , space = 8 + 4",
        )],
        3,
    );
    let s = struct_decl("C", vec![derive_accounts()], vec![f], 1);
    let fields = normalize_struct_field(&s);
    assert_eq!(fields.len(), 1);
    let nf = &fields[0];
    assert!(nf.has_bool_attribute("init"));
    assert_eq!(nf.has_str_attribute("payer"), Some("user"));
    assert_eq!(nf.has_str_attribute("space"), Some("8 + 4"));
    assert!(nf.contains_attr("payer"));
    assert!(!nf.has_bool_attribute("payer"));
    assert_eq!(nf.has_str_attribute("init"), None);
}

#[test]
fn bracketed_content_keeps_its_commas() {
    let f = field(
        "pda",
        Some(simple_type("Account", Vec::new())),
        vec![attr(
            "account",
            "# [account (seeds = [a , b] , bump)]",
            "seeds = [a , b] , bump",
        )],
        3,
    );
    let s = struct_decl("C", vec![derive_accounts()], vec![f], 1);
    let fields = normalize_struct_field(&s);
    let nf = &fields[0];
    assert_eq!(nf.has_str_attribute("seeds"), Some("[a , b]"));
    assert!(nf.has_bool_attribute("bump"));
}

#[test]
fn repeated_keys_overwrite_earlier_values() {
    let f = field(
        "vault",
        Some(simple_type("Account", Vec::new())),
        vec![attr(
            "account",
            "# [account (space = 8 , space = 16)]",
            "space = 8 , space = 16",
        )],
        3,
    );
    let s = struct_decl("C", vec![derive_accounts()], vec![f], 1);
    let fields = normalize_struct_field(&s);
    assert_eq!(fields[0].has_str_attribute("space"), Some("16"));
    assert_eq!(fields[0].attributes.len(), 1);
}

#[test]
fn constraint_with_a_value_is_not_a_boolean_annotation() {
    let f = field(
        "auth",
        Some(simple_type("UncheckedAccount", Vec::new())),
        vec![attr(
            "account",
            "# [account (constraint = a == b)]",
            "constraint = a == b",
        )],
        3,
    );
    let s = struct_decl("C", vec![derive_accounts()], vec![f], 1);
    let fields = normalize_struct_field(&s);
    assert!(!fields[0].has_bool_attribute("constraint"));
    assert_eq!(fields[0].has_str_attribute("constraint"), Some("a == b"));
}

#[test]
fn non_annotation_attributes_are_ignored() {
    let f = field(
        "vault",
        Some(simple_type("Account", Vec::new())),
        vec![attr("doc", "# [doc = \"note\"]", "")],
        3,
    );
    let s = struct_decl("C", vec![derive_accounts()], vec![f], 1);
    let fields = normalize_struct_field(&s);
    assert_eq!(fields[0].attributes.len(), 0);
}

#[test]
fn normalizes_field_types_and_generics() {
    let ty = simple_type(
        "Account",
        vec![
            GenericArg::Lifetime("info".to_string()),
            GenericArg::TypeName("TokenAccount".to_string()),
        ],
    );
    let f = field("vault", Some(ty), Vec::new(), 4);
    let s = struct_decl("C", vec![derive_accounts()], vec![f], 2);
    let normalized = normalize_struct(&s);
    assert_eq!(normalized.name, "C");
    assert_eq!(normalized.line, 2);
    let nf = &normalized.fields[0];
    assert_eq!(nf.context, "C");
    assert_eq!(nf.name, "vault");
    assert_eq!(nf.base_type, "Account");
    assert_eq!(nf.generic_args, vec!["'info".to_string(), "TokenAccount".to_string()]);
    assert_eq!(nf.line, 4);
}

#[test]
fn field_without_path_type_keeps_empty_base_type() {
    let f = field("raw", None, Vec::new(), 4);
    let s = struct_decl("C", vec![derive_accounts()], vec![f], 2);
    let normalized = normalize_struct(&s);
    assert_eq!(normalized.fields[0].base_type, "");
    assert_eq!(normalized.fields[0].generic_args.len(), 0);
}

#[test]
fn reads_instruction_argument_pairs() {
    let s = struct_decl(
        "C",
        vec![attr(
            "instruction",
            "# [instruction (seed : u64 , id : String)]",
            "seed : u64 , id : String",
        )],
        Vec::new(),
        1,
    );
    let ctxs = extract_instruction_args(&s);
    assert_eq!(ctxs.len(), 1);
    assert_eq!(ctxs[0].ctx_name, "C");
    assert_eq!(ctxs[0].args.len(), 2);
    assert_eq!(ctxs[0].args[0].name, "seed");
    assert_eq!(ctxs[0].args[0].ty, "u64");
    assert_eq!(ctxs[0].args[1].name, "id");
    assert_eq!(ctxs[0].args[1].ty, "String");
}

#[test]
fn skips_blank_and_malformed_instruction_pieces() {
    let s = struct_decl(
        "C",
        vec![attr(
            "instruction",
            "# [instruction (seed : u64 , , noname , a : b : c , : u8)]",
            "seed : u64 , , noname , a : b : c , : u8",
        )],
        Vec::new(),
        1,
    );
    let ctxs = extract_instruction_args(&s);
    assert_eq!(ctxs.len(), 1);
    assert_eq!(ctxs[0].args.len(), 1);
    assert_eq!(ctxs[0].args[0].name, "seed");
}

fn typed_param(name: &str, ty: PathType) -> Param {
    Param::Typed {
        name: name.to_string(),
        ty,
    }
}

#[test]
fn reads_handler_signatures() {
    let ctx_ty = simple_type(
        "Context",
        vec![GenericArg::TypeName("OpenEscrow".to_string())],
    );
    let f = FnDecl {
        name: "open_escrow".to_string(),
        params: vec![
            typed_param("ctx", ctx_ty),
            typed_param("seed", simple_type("u64", Vec::new())),
        ],
        body: Vec::new(),
        line: 10,
    };
    let mut diags: Vec<Diagnostic> = Vec::new();
    let sig = extract_fn_args(&f, &mut diags);
    assert_eq!(sig.name, "open_escrow");
    assert_eq!(sig.context, "OpenEscrow");
    assert_eq!(sig.line, 10);
    assert_eq!(sig.args.len(), 1);
    assert_eq!(sig.args[0].name, "seed");
    assert_eq!(sig.args[0].ty, "u64");
    assert_eq!(diags.len(), 0);
}

#[test]
fn unreadable_parameter_is_skipped_with_a_diagnostic() {
    let f = FnDecl {
        name: "odd".to_string(),
        params: vec![Param::Opaque],
        body: Vec::new(),
        line: 11,
    };
    let mut diags: Vec<Diagnostic> = Vec::new();
    let sig = extract_fn_args(&f, &mut diags);
    assert_eq!(sig.args.len(), 0);
    assert_eq!(
        diags,
        vec![Diagnostic::UnclassifiedParameter {
            function: "odd".to_string(),
            line: 11,
        }]
    );
}

#[test]
fn context_without_type_argument_leaves_context_empty() {
    let ctx_ty = simple_type(
        "Context",
        vec![GenericArg::Lifetime("info".to_string())],
    );
    let f = FnDecl {
        name: "h".to_string(),
        params: vec![typed_param("ctx", ctx_ty)],
        body: Vec::new(),
        line: 1,
    };
    let mut diags: Vec<Diagnostic> = Vec::new();
    let sig = extract_fn_args(&f, &mut diags);
    assert_eq!(sig.context, "");
    assert_eq!(sig.args.len(), 0);
}

#[test]
fn normalizes_a_whole_program() {
    let storage = struct_decl(
        "VaultAccount",
        vec![attr("account", "# [account]", "")],
        vec![
            field("balance", Some(simple_type("u64", Vec::new())), Vec::new(), 21),
            field("owner", Some(simple_type("Pubkey", Vec::new())), Vec::new(), 22),
        ],
        20,
    );
    let context = struct_decl(
        "InitVault",
        vec![
            derive_accounts(),
            attr("instruction", "# [instruction (seed : u64)]", "seed : u64"),
        ],
        vec![field(
            "vault",
            Some(simple_type(
                "Account",
                vec![
                    GenericArg::Lifetime("info".to_string()),
                    GenericArg::TypeName("VaultAccount".to_string()),
                ],
            )),
            vec![attr(
                "account",
                "# [account (init , space = 8 + 8 + 32)]",
                "init , space = 8 + 8 + 32",
            )],
            31,
        )],
        30,
    );
    let handler = FnDecl {
        name: "init_vault".to_string(),
        params: vec![typed_param(
            "ctx",
            simple_type(
                "Context",
                vec![GenericArg::TypeName("InitVault".to_string())],
            ),
        )],
        body: Vec::new(),
        line: 41,
    };
    let ast = SourceFile {
        items: vec![
            Item::Struct(storage),
            Item::Struct(context),
            Item::Module(ModDecl {
                name: "program".to_string(),
                items: vec![Item::Function(handler)],
            }),
        ],
    };
    let mut diags: Vec<Diagnostic> = Vec::new();
    let (accounts, storages, ctxs, funcs) = normalize_program(&ast, &mut diags);
    assert_eq!(accounts.len(), 1);
    assert_eq!(accounts[0].name, "InitVault");
    assert!(accounts[0].fields[0].has_bool_attribute("init"));
    assert_eq!(storages.len(), 1);
    assert_eq!(storages[0].name, "VaultAccount");
    assert_eq!(storages[0].field_types, vec!["u64".to_string(), "Pubkey".to_string()]);
    assert_eq!(ctxs.len(), 1);
    assert_eq!(ctxs[0].ctx_name, "InitVault");
    assert_eq!(funcs.len(), 1);
    assert_eq!(funcs[0].name, "init_vault");
    assert_eq!(funcs[0].context, "InitVault");
    assert_eq!(diags.len(), 0);
}

#[test]
fn a_struct_may_be_context_and_storage_at_once() {
    let both = struct_decl(
        "Dual",
        vec![derive_accounts(), attr("account", "# [account]", "")],
        Vec::new(),
        1,
    );
    let ast = SourceFile {
        items: vec![Item::Struct(both)],
    };
    let mut diags: Vec<Diagnostic> = Vec::new();
    let (accounts, storages, _, _) = normalize_program(&ast, &mut diags);
    assert_eq!(accounts.len(), 1);
    assert_eq!(storages.len(), 1);
}

#[test]
fn attribute_value_distinguishes_bool_and_text() {
    assert_ne!(
        AttributeValue::Bool(true),
        AttributeValue::Text("true".to_string())
    );
}
