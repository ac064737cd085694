//! The rule engine: five independent rules, each a function from the
//! domain model to findings appended to the report.

pub mod rule_division_by_zero;
pub mod rule_init_if_needed;
pub mod rule_missing_account_verification;
pub mod rule_missing_fn_arg;
pub mod rule_wrong_space_assignment;
