//! The fixed rule catalogue and the finding types.
//!
//! Each rule has one immutable [`RuleMetadata`] record, addressed by its
//! stable [`RuleCode`].  Findings carry their rule's code rather than a
//! copy of the metadata text; renderers look the metadata up through
//! [`rule_metadata`].

use vstd::prelude::*;

verus! {

/// Review priority of a rule.  `High` is reported before `Medium`,
/// `Medium` before `Low`.
#[derive(Debug, Clone, Copy, PartialEq, Eq, Structural)]
pub enum Severity {
    High,
    Medium,
    Low,
}

impl Severity {
    /// Numeric rank of a severity; smaller ranks are reported first.
    pub open spec fn spec_rank(self) -> int {
        match self {
            Severity::High => 0,
            Severity::Medium => 1,
            Severity::Low => 2,
        }
    }

    /// Executable form of [`Severity::spec_rank`].
    pub fn rank(self) -> (r: u8)
        ensures
            r as int == self.spec_rank(),
    {
        match self {
            Severity::High => 0,
            Severity::Medium => 1,
            Severity::Low => 2,
        }
    }
}

/// Stable identity of one rule of the catalogue.
#[derive(Debug, Clone, Copy, PartialEq, Eq, Structural)]
pub enum RuleCode {
    MissingInitIfNeeded,
    WrongSpaceAssignment,
    MissingRequiredInstructionArgument,
    PossibleDivisionByZero,
    MissingAccountVerification,
}

/// The severity assigned to each rule of the catalogue.
pub open spec fn code_severity(c: RuleCode) -> Severity {
    match c {
        RuleCode::MissingInitIfNeeded => Severity::High,
        RuleCode::WrongSpaceAssignment => Severity::Medium,
        RuleCode::MissingRequiredInstructionArgument => Severity::Medium,
        RuleCode::PossibleDivisionByZero => Severity::Low,
        RuleCode::MissingAccountVerification => Severity::Low,
    }
}

/// The printable label of each rule code.
pub open spec fn code_label(c: RuleCode) -> Seq<char> {
    match c {
        RuleCode::MissingInitIfNeeded => "H-001"@,
        RuleCode::WrongSpaceAssignment => "M-001"@,
        RuleCode::MissingRequiredInstructionArgument => "M-002"@,
        RuleCode::PossibleDivisionByZero => "L-001"@,
        RuleCode::MissingAccountVerification => "L-002"@,
    }
}

/// One immutable catalogue entry describing a rule.
pub struct RuleMetadata {
    pub code: String,
    pub title: String,
    pub description: String,
    pub severity: Severity,
    pub recommendation: String,
    pub additional_links: Option<String>,
}

/// The catalogue entry for `c`.  The returned record is the same on
/// every call: the catalogue is fixed configuration data.
pub fn rule_metadata(c: RuleCode) -> (r: RuleMetadata)
    ensures
        r.code@ == code_label(c),
        r.severity == code_severity(c),
{
    match c {
        RuleCode::MissingInitIfNeeded => RuleMetadata {
            code: "H-001".to_owned(),
            title: "Use init_if_needed Instead of init".to_owned(),
            description:
                "When initializing an Associated Token Account (ATA), using `init` will unconditionally \
                 fail if the ATA already exists. This introduces fragility in programs, since ATAs are \
                 often created by wallets, prior interactions, or other programs. A failed ATA creation \
                 results in a panic and causes the entire transaction to revert. Using `init_if_needed` \
                 ensures the instruction is idempotent and safe, regardless of the ATA's existence state. \
                 This pattern aligns with modern Solana security expectations and significantly reduces \
                 user-triggered transaction failures.".to_owned(),
            severity: Severity::High,
            recommendation:
                "Replace `init` with `init_if_needed` for ATA initialization. This ensures safe, \
                 idempotent behavior even when an ATA already exists. Always prefer `init_if_needed` \
                 unless you have a strict requirement that the account must be newly created.".to_owned(),
            additional_links: Some(
                "https://www.anchor-lang.com/docs/references/account-constraints#accountinit_if_needed\n\
                 https://medium.com/@calc1f4r/init-vs-init-if-needed-a-deep-dive-d33fe59e4de5\n\
                 https://rareskills.io/post/init-if-needed-anchor".to_owned(),
            ),
        },
        RuleCode::WrongSpaceAssignment => RuleMetadata {
            code: "M-001".to_owned(),
            title: "Incorrect Space Assignment".to_owned(),
            description:
                "A mismatch between a struct's declared `space` value and its actual serialized size \
                 leads to account truncation or unsafe overwrites. If `space` is too small, random data \
                 corruption or panic conditions may occur when Anchor attempts to serialize state. If too \
                 large, excessive rent is charged. Accurate space calculation is essential for safe and \
                 predictable on-chain storage behavior.".to_owned(),
            severity: Severity::Medium,
            recommendation:
                "Recalculate the exact byte-length of the struct and update the `space` attribute to \
                 reflect the correct size. Ensure that every field is included in the calculation and \
                 account for all padding, discriminators, and aggregate data types.".to_owned(),
            additional_links: Some(
                "https://www.anchor-lang.com/docs/references/space\n\
                 https://rareskills.io/post/solana-initialize-account\n\
                 https://www.sec3.dev/blog/all-about-anchor-account-size".to_owned(),
            ),
        },
        RuleCode::MissingRequiredInstructionArgument => RuleMetadata {
            code: "M-002".to_owned(),
            title: "Missing Required Argument in Instruction".to_owned(),
            description:
                "The context struct declares one or more `#[instruction(...)]` arguments that the \
                 function must receive, but the function signature omits them. This creates \
                 inconsistencies between expected and actual instruction parameters, potentially \
                 leading to logic bugs, incorrect PDA derivations, or unintended behavior when \
                 serializing input data. A function that does not accept all of its declared \
                 instruction parameters cannot rely on deterministic inputs.".to_owned(),
            severity: Severity::Medium,
            recommendation:
                "Ensure the function signature includes all arguments declared inside \
                 `#[instruction(...)]`. The context definition and function parameters must match \
                 exactly so callers provide the expected values.".to_owned(),
            additional_links: Some(
                "https://www.quicknode.com/guides/solana-development/anchor/how-to-use-constraints-in-anchor#utilizing-instruction-data-in-constraints\n\
                 https://solana.stackexchange.com/questions/5946/what-is-anchor-instruction-macro".to_owned(),
            ),
        },
        RuleCode::PossibleDivisionByZero => RuleMetadata {
            code: "L-001".to_owned(),
            title: "Possible Division by Zero".to_owned(),
            description:
                "This code performs a division using a runtime-controlled variable. If the \
                 divisor evaluates to zero, the program will panic and revert the entire transaction. \
                 Division involving user-provided values, account data, or unvalidated computations \
                 requires explicit zero-checks. On-chain financial logic such as fee splits, reward \
                 calculations, or escrow payments frequently exhibit this weakness when insufficient \
                 input validation is applied.".to_owned(),
            severity: Severity::Low,
            recommendation:
                "Before performing the division, add a strict check ensuring the divisor is non-zero. \
                 Reject or sanitize invalid inputs. For performance and safety, perform this validation \
                 as early as possible in the function logic, and document expected input constraints.".to_owned(),
            additional_links: Some(
                "https://exvul.com/rust-smart-contract-security-guide-in-solana/\n\
                 https://rareskills.io/post/rust-arithmetic-operators\n\
                 https://www.helius.dev/blog/solana-arithmetic".to_owned(),
            ),
        },
        RuleCode::MissingAccountVerification => RuleMetadata {
            code: "L-002".to_owned(),
            title: "Unconstrained account may require additional validation".to_owned(),
            description:
                "AccountInfo or UncheckedAccount fields represent raw accounts with no automatic \
                 deserialization or built-in security checks. When such fields appear without explicit \
                 constraints, the program may unintentionally accept arbitrary accounts provided by the \
                 caller. While some program logic may perform manual validation, the absence of explicit \
                 constraints at the account-validation layer increases risk and complicates audits.".to_owned(),
            severity: Severity::Low,
            recommendation:
                "Review this account field to determine whether a signer constraint or additional \
                 validation is required. If the account represents an authority or must be controlled by \
                 a specific party, explicitly annotate it with #[account(constraint = ...)], or other \
                 relevant constraints. If the field is intentionally unconstrained, consider documenting \
                 its expected behavior to reduce ambiguity for auditors.".to_owned(),
            additional_links: Some(
                "https://www.anchor-lang.com/docs/references/account-constraints\n\
                 https://solana.com/pt/developers/courses/program-security/signer-auth".to_owned(),
            ),
        },
    }
}

/// Finding of the unsafe associated-account creation rule.
#[derive(Debug, PartialEq)]
pub struct MissingInitIfNeededFinding {
    pub rule: RuleCode,
    pub line: usize,
    pub account: String,
    pub context: String,
}

/// Finding of the storage size mismatch rule.
#[derive(Debug, PartialEq)]
pub struct WrongSpaceAssignmentFinding {
    pub rule: RuleCode,
    pub line: usize,
    pub account: String,
    pub expected: usize,
    pub actual: String,
}

/// Finding of the missing required instruction argument rule.
#[derive(Debug, PartialEq)]
pub struct MissingRequiredInstructionArgumentFinding {
    pub rule: RuleCode,
    pub line: usize,
    pub fn_name: String,
    pub required_arg_name: String,
    pub required_arg_type: String,
}

/// Finding of the possible division by zero rule.
#[derive(Debug, PartialEq)]
pub struct PossibleDivisionByZeroFinding {
    pub rule: RuleCode,
    pub line: usize,
    pub fn_name: String,
    pub divisor: String,
}

/// Finding of the unconstrained raw account rule.
#[derive(Debug, PartialEq)]
pub struct PossibleMissingAccountVerificationFinding {
    pub rule: RuleCode,
    pub line: usize,
    pub account_name: String,
    pub field_type: String,
}

/// Unified finding type so the report can store all findings.
#[derive(Debug, PartialEq)]
pub enum Finding {
    MissingInitIfNeeded(MissingInitIfNeededFinding),
    WrongSpaceAssignment(WrongSpaceAssignmentFinding),
    MissingRequiredInstructionArgument(MissingRequiredInstructionArgumentFinding),
    PossibleDivisionByZero(PossibleDivisionByZeroFinding),
    PossibleMissingAccountVerification(PossibleMissingAccountVerificationFinding),
}

/// Mathematical view of a [`MissingInitIfNeededFinding`].
#[verifier::ext_equal]
pub struct MissingInitIfNeededView {
    pub rule: RuleCode,
    pub line: int,
    pub account: Seq<char>,
    pub context: Seq<char>,
}

/// Mathematical view of a [`WrongSpaceAssignmentFinding`].
#[verifier::ext_equal]
pub struct WrongSpaceAssignmentView {
    pub rule: RuleCode,
    pub line: int,
    pub account: Seq<char>,
    pub expected: int,
    pub actual: Seq<char>,
}

/// Mathematical view of a [`MissingRequiredInstructionArgumentFinding`].
#[verifier::ext_equal]
pub struct MissingRequiredInstructionArgumentView {
    pub rule: RuleCode,
    pub line: int,
    pub fn_name: Seq<char>,
    pub required_arg_name: Seq<char>,
    pub required_arg_type: Seq<char>,
}

/// Mathematical view of a [`PossibleDivisionByZeroFinding`].
#[verifier::ext_equal]
pub struct PossibleDivisionByZeroView {
    pub rule: RuleCode,
    pub line: int,
    pub fn_name: Seq<char>,
    pub divisor: Seq<char>,
}

/// Mathematical view of a [`PossibleMissingAccountVerificationFinding`].
#[verifier::ext_equal]
pub struct PossibleMissingAccountVerificationView {
    pub rule: RuleCode,
    pub line: int,
    pub account_name: Seq<char>,
    pub field_type: Seq<char>,
}

/// Mathematical view of a [`Finding`].
#[verifier::ext_equal]
pub enum FindingView {
    MissingInitIfNeeded(MissingInitIfNeededView),
    WrongSpaceAssignment(WrongSpaceAssignmentView),
    MissingRequiredInstructionArgument(MissingRequiredInstructionArgumentView),
    PossibleDivisionByZero(PossibleDivisionByZeroView),
    PossibleMissingAccountVerification(PossibleMissingAccountVerificationView),
}

impl View for Finding {
    type V = FindingView;

    open spec fn view(&self) -> FindingView {
        match self {
            Finding::MissingInitIfNeeded(x) => FindingView::MissingInitIfNeeded(
                MissingInitIfNeededView {
                    rule: x.rule,
                    line: x.line as int,
                    account: x.account@,
                    context: x.context@,
                },
            ),
            Finding::WrongSpaceAssignment(x) => FindingView::WrongSpaceAssignment(
                WrongSpaceAssignmentView {
                    rule: x.rule,
                    line: x.line as int,
                    account: x.account@,
                    expected: x.expected as int,
                    actual: x.actual@,
                },
            ),
            Finding::MissingRequiredInstructionArgument(x) => {
                FindingView::MissingRequiredInstructionArgument(
                    MissingRequiredInstructionArgumentView {
                        rule: x.rule,
                        line: x.line as int,
                        fn_name: x.fn_name@,
                        required_arg_name: x.required_arg_name@,
                        required_arg_type: x.required_arg_type@,
                    },
                )
            },
            Finding::PossibleDivisionByZero(x) => FindingView::PossibleDivisionByZero(
                PossibleDivisionByZeroView {
                    rule: x.rule,
                    line: x.line as int,
                    fn_name: x.fn_name@,
                    divisor: x.divisor@,
                },
            ),
            Finding::PossibleMissingAccountVerification(x) => {
                FindingView::PossibleMissingAccountVerification(
                    PossibleMissingAccountVerificationView {
                        rule: x.rule,
                        line: x.line as int,
                        account_name: x.account_name@,
                        field_type: x.field_type@,
                    },
                )
            },
        }
    }
}

/// View of a list of findings.
pub open spec fn findings_view(fs: Seq<Finding>) -> Seq<FindingView> {
    fs.map_values(|f: Finding| f@)
}

impl Clone for MissingInitIfNeededFinding {
    /// Field-for-field copy.
    fn clone(&self) -> (r: Self)
        ensures
            r == *self,
    {
        MissingInitIfNeededFinding {
            rule: self.rule,
            line: self.line,
            account: self.account.clone(),
            context: self.context.clone(),
        }
    }
}

impl Clone for WrongSpaceAssignmentFinding {
    /// Field-for-field copy.
    fn clone(&self) -> (r: Self)
        ensures
            r == *self,
    {
        WrongSpaceAssignmentFinding {
            rule: self.rule,
            line: self.line,
            account: self.account.clone(),
            expected: self.expected,
            actual: self.actual.clone(),
        }
    }
}

impl Clone for MissingRequiredInstructionArgumentFinding {
    /// Field-for-field copy.
    fn clone(&self) -> (r: Self)
        ensures
            r == *self,
    {
        MissingRequiredInstructionArgumentFinding {
            rule: self.rule,
            line: self.line,
            fn_name: self.fn_name.clone(),
            required_arg_name: self.required_arg_name.clone(),
            required_arg_type: self.required_arg_type.clone(),
        }
    }
}

impl Clone for PossibleDivisionByZeroFinding {
    /// Field-for-field copy.
    fn clone(&self) -> (r: Self)
        ensures
            r == *self,
    {
        PossibleDivisionByZeroFinding {
            rule: self.rule,
            line: self.line,
            fn_name: self.fn_name.clone(),
            divisor: self.divisor.clone(),
        }
    }
}

impl Clone for PossibleMissingAccountVerificationFinding {
    /// Field-for-field copy.
    fn clone(&self) -> (r: Self)
        ensures
            r == *self,
    {
        PossibleMissingAccountVerificationFinding {
            rule: self.rule,
            line: self.line,
            account_name: self.account_name.clone(),
            field_type: self.field_type.clone(),
        }
    }
}

impl Clone for Finding {
    /// Field-for-field copy.
    fn clone(&self) -> (r: Self)
        ensures
            r == *self,
    {
        match self {
            Finding::MissingInitIfNeeded(x) => Finding::MissingInitIfNeeded(x.clone()),
            Finding::WrongSpaceAssignment(x) => Finding::WrongSpaceAssignment(x.clone()),
            Finding::MissingRequiredInstructionArgument(x) => {
                Finding::MissingRequiredInstructionArgument(x.clone())
            },
            Finding::PossibleDivisionByZero(x) => Finding::PossibleDivisionByZero(x.clone()),
            Finding::PossibleMissingAccountVerification(x) => {
                Finding::PossibleMissingAccountVerification(x.clone())
            },
        }
    }
}

/// The rule code stored in a finding's view.
pub open spec fn finding_view_code(f: FindingView) -> RuleCode {
    match f {
        FindingView::MissingInitIfNeeded(x) => x.rule,
        FindingView::WrongSpaceAssignment(x) => x.rule,
        FindingView::MissingRequiredInstructionArgument(x) => x.rule,
        FindingView::PossibleDivisionByZero(x) => x.rule,
        FindingView::PossibleMissingAccountVerification(x) => x.rule,
    }
}

/// The severity a finding's view is reported under.
pub open spec fn finding_view_severity(f: FindingView) -> Severity {
    code_severity(finding_view_code(f))
}

/// The rule code stored in a finding.
pub open spec fn finding_code(f: Finding) -> RuleCode {
    match f {
        Finding::MissingInitIfNeeded(x) => x.rule,
        Finding::WrongSpaceAssignment(x) => x.rule,
        Finding::MissingRequiredInstructionArgument(x) => x.rule,
        Finding::PossibleDivisionByZero(x) => x.rule,
        Finding::PossibleMissingAccountVerification(x) => x.rule,
    }
}

/// The severity a finding is reported under: the catalogue severity of
/// the rule it carries.
pub open spec fn finding_severity_spec(f: Finding) -> Severity {
    code_severity(finding_code(f))
}

/// Severity of a finding; executable form of [`finding_severity_spec`].
pub fn finding_severity(f: &Finding) -> (s: Severity)
    ensures
        s == finding_severity_spec(*f),
{
    let c = match f {
        Finding::MissingInitIfNeeded(x) => x.rule,
        Finding::WrongSpaceAssignment(x) => x.rule,
        Finding::MissingRequiredInstructionArgument(x) => x.rule,
        Finding::PossibleDivisionByZero(x) => x.rule,
        Finding::PossibleMissingAccountVerification(x) => x.rule,
    };
    match c {
        RuleCode::MissingInitIfNeeded => Severity::High,
        RuleCode::WrongSpaceAssignment => Severity::Medium,
        RuleCode::MissingRequiredInstructionArgument => Severity::Medium,
        RuleCode::PossibleDivisionByZero => Severity::Low,
        RuleCode::MissingAccountVerification => Severity::Low,
    }
}

} // verus!
