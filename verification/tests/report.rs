//! Tests of the report: severity-stable ordering, the catalogue, and
//! the line counter.

use anchor_sentry::knowledge_base::{
    finding_severity, rule_metadata, Finding, MissingInitIfNeededFinding,
    MissingRequiredInstructionArgumentFinding, PossibleDivisionByZeroFinding, RuleCode, Severity,
};
use anchor_sentry::report::{count_source_lines, FileInfo, Report};

fn high(line: usize) -> Finding {
    Finding::MissingInitIfNeeded(MissingInitIfNeededFinding {
        rule: RuleCode::MissingInitIfNeeded,
        line,
        account: "a".to_string(),
        context: "C".to_string(),
    })
}

fn medium(line: usize) -> Finding {
    Finding::MissingRequiredInstructionArgument(MissingRequiredInstructionArgumentFinding {
        rule: RuleCode::MissingRequiredInstructionArgument,
        line,
        fn_name: "f".to_string(),
        required_arg_name: "seed".to_string(),
        required_arg_type: "u64".to_string(),
    })
}

fn low(line: usize) -> Finding {
    Finding::PossibleDivisionByZero(PossibleDivisionByZeroFinding {
        rule: RuleCode::PossibleDivisionByZero,
        line,
        fn_name: "f".to_string(),
        divisor: "b".to_string(),
    })
}

#[test]
fn findings_sort_by_severity_with_ties_in_discovery_order() {
    let mut r = Report::default();
    r.add(low(1));
    r.add(medium(2));
    r.add(high(3));
    r.add(medium(4));
    let sorted = r.sorted_findings();
    assert_eq!(sorted, vec![high(3), medium(2), medium(4), low(1)]);
}

#[test]
fn sorting_does_not_change_the_report() {
    let mut r = Report::default();
    r.add(medium(2));
    r.add(high(3));
    let _ = r.sorted_findings();
    assert_eq!(r.findings, vec![medium(2), high(3)]);
}

#[test]
fn severity_ranks_order_high_medium_low() {
    assert!(Severity::High.rank() < Severity::Medium.rank());
    assert!(Severity::Medium.rank() < Severity::Low.rank());
}

#[test]
fn catalogue_codes_and_severities_are_fixed() {
    let h = rule_metadata(RuleCode::MissingInitIfNeeded);
    assert_eq!(h.code, "H-001");
    assert_eq!(h.severity, Severity::High);
    let m1 = rule_metadata(RuleCode::WrongSpaceAssignment);
    assert_eq!(m1.code, "M-001");
    assert_eq!(m1.severity, Severity::Medium);
    let m2 = rule_metadata(RuleCode::MissingRequiredInstructionArgument);
    assert_eq!(m2.code, "M-002");
    assert_eq!(m2.severity, Severity::Medium);
    let l1 = rule_metadata(RuleCode::PossibleDivisionByZero);
    assert_eq!(l1.code, "L-001");
    assert_eq!(l1.severity, Severity::Low);
    let l2 = rule_metadata(RuleCode::MissingAccountVerification);
    assert_eq!(l2.code, "L-002");
    assert_eq!(l2.severity, Severity::Low);
}

#[test]
fn finding_severity_follows_the_stored_code() {
    assert_eq!(finding_severity(&high(1)), Severity::High);
    assert_eq!(finding_severity(&medium(1)), Severity::Medium);
    assert_eq!(finding_severity(&low(1)), Severity::Low);
}

#[test]
fn file_info_starts_at_zero() {
    let info = FileInfo::new();
    assert_eq!(info.comments_count, 0);
    assert_eq!(info.blank_spaces_count, 0);
    assert_eq!(info.lines_of_code, 0);
}

#[test]
fn counts_code_comment_and_blank_lines() {
    let text = "// header\n\nlet x = 1;\nlet y = 2;\n";
    let info = count_source_lines(text);
    assert_eq!(info.comments_count, 1);
    assert_eq!(info.blank_spaces_count, 1);
    assert_eq!(info.lines_of_code, 2);
}

#[test]
fn counts_block_comments_across_lines() {
    let text = "/* one\ntwo\nthree */\ncode();\n/* inline */\ncode();";
    let info = count_source_lines(text);
    assert_eq!(info.comments_count, 4);
    assert_eq!(info.blank_spaces_count, 0);
    assert_eq!(info.lines_of_code, 2);
}

#[test]
fn counts_doc_comments_as_comments() {
    let text = "/// doc\n//! inner\ncode();";
    let info = count_source_lines(text);
    assert_eq!(info.comments_count, 2);
    assert_eq!(info.lines_of_code, 1);
}

#[test]
fn counts_windows_line_endings() {
    let text = "// c\r\n\r\ncode();\r\n";
    let info = count_source_lines(text);
    assert_eq!(info.comments_count, 1);
    assert_eq!(info.blank_spaces_count, 1);
    assert_eq!(info.lines_of_code, 1);
}

#[test]
fn counts_empty_input_as_nothing() {
    let info = count_source_lines("");
    assert_eq!(info.comments_count, 0);
    assert_eq!(info.blank_spaces_count, 0);
    assert_eq!(info.lines_of_code, 0);
}

#[test]
fn load_file_info_fills_statistics() {
    let mut r = Report::default();
    r.load_file_info("// a\ncode();\n", "program.rs".to_string());
    let info = r.file_info.expect("statistics present");
    assert_eq!(info.comments_count, 1);
    assert_eq!(info.lines_of_code, 1);
    assert_eq!(r.file_path, Some("program.rs".to_string()));
    assert_eq!(r.findings.len(), 0);
}
