//! Tests of the size evaluator: expression evaluation, the primitive
//! size table, and expected storage sizes.

use anchor_sentry::eval::{
    anchor_type_size, evaluate_expression, extract_types_from_storage_struct,
};
use anchor_sentry::state::StorageStruct;

fn storage(name: &str, field_types: &[&str]) -> StorageStruct {
    StorageStruct {
        name: name.to_string(),
        field_types: field_types.iter().map(|t| t.to_string()).collect(),
    }
}

#[test]
fn evaluates_sums() {
    assert_eq!(evaluate_expression("8 + 32 + 8"), Some(48));
    assert_eq!(evaluate_expression("8+8+8+32"), Some(56));
    assert_eq!(evaluate_expression("40"), Some(40));
    assert_eq!(evaluate_expression("  7  "), Some(7));
}

#[test]
fn evaluates_with_precedence() {
    assert_eq!(evaluate_expression("2+3*4"), Some(14));
    assert_eq!(evaluate_expression("2*3+4"), Some(10));
    assert_eq!(evaluate_expression("(2+3)*4"), Some(20));
    assert_eq!(evaluate_expression("2*(3+4)"), Some(14));
    assert_eq!(evaluate_expression("10-3-2"), Some(5));
    assert_eq!(evaluate_expression("100/10/2"), Some(5));
}

#[test]
fn evaluates_truncating_division() {
    assert_eq!(evaluate_expression("10/4"), Some(2));
    assert_eq!(evaluate_expression("(8-16)/3"), Some(-2));
    assert_eq!(evaluate_expression("16/(8-16)"), Some(-2));
}

#[test]
fn rejects_division_by_zero() {
    assert_eq!(evaluate_expression("8/0"), None);
    assert_eq!(evaluate_expression("8/(4-4)"), None);
}

#[test]
fn rejects_malformed_expressions() {
    assert_eq!(evaluate_expression(""), None);
    assert_eq!(evaluate_expression("   "), None);
    assert_eq!(evaluate_expression("abc"), None);
    assert_eq!(evaluate_expression("1 2"), None);
    assert_eq!(evaluate_expression("8 +"), None);
    assert_eq!(evaluate_expression("+ 8"), None);
    assert_eq!(evaluate_expression("(8"), None);
    assert_eq!(evaluate_expression("8)"), None);
    assert_eq!(evaluate_expression("(1)(2)"), None);
    assert_eq!(evaluate_expression("1.5"), None);
    assert_eq!(evaluate_expression("-3"), None);
}

#[test]
fn rejects_overflow() {
    assert_eq!(evaluate_expression("9223372036854775807"), Some(i64::MAX));
    assert_eq!(evaluate_expression("9223372036854775808"), None);
    assert_eq!(evaluate_expression("9223372036854775807 + 1"), None);
}

#[test]
fn sizes_primitive_types() {
    assert_eq!(anchor_type_size("u8"), Some(1));
    assert_eq!(anchor_type_size("i8"), Some(1));
    assert_eq!(anchor_type_size("bool"), Some(1));
    assert_eq!(anchor_type_size("u16"), Some(2));
    assert_eq!(anchor_type_size("i16"), Some(2));
    assert_eq!(anchor_type_size("u32"), Some(4));
    assert_eq!(anchor_type_size("i32"), Some(4));
    assert_eq!(anchor_type_size("u64"), Some(8));
    assert_eq!(anchor_type_size("i64"), Some(8));
    assert_eq!(anchor_type_size("u128"), Some(16));
    assert_eq!(anchor_type_size("i128"), Some(16));
    assert_eq!(anchor_type_size("Pubkey"), Some(32));
    assert_eq!(anchor_type_size("String"), None);
    assert_eq!(anchor_type_size("Vec"), None);
    assert_eq!(anchor_type_size(""), None);
}

#[test]
fn sizes_storage_structs() {
    let vault = storage("VaultAccount", &["u64", "u64", "Pubkey"]);
    assert_eq!(extract_types_from_storage_struct(&vault), Some(56));

    let empty = storage("Empty", &[]);
    assert_eq!(extract_types_from_storage_struct(&empty), Some(8));

    let unsized_record = storage("Record", &["u64", "String"]);
    assert_eq!(extract_types_from_storage_struct(&unsized_record), None);
}
