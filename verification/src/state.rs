//! The typed domain model the normalizer produces and the rules consume,
//! together with its mathematical views.
//!
//! Every executable type here has a view made of `Seq<char>`, `int` and
//! spec datatypes; all contracts of the analyzer are stated over those
//! views.

use vstd::prelude::*;
use crate::text::{contains_sub, str_contains, str_eq};

verus! {

/// Parsed value of one field annotation: a bare key is `Bool(true)`,
/// a `key = value` pair keeps the right-hand side as text.
#[derive(Debug, Clone, PartialEq)]
pub enum AttributeValue {
    Bool(bool),
    Text(String),
}

/// Mathematical view of an [`AttributeValue`].
#[verifier::ext_equal]
pub enum AttrValueView {
    Bool(bool),
    Text(Seq<char>),
}

impl View for AttributeValue {
    type V = AttrValueView;

    open spec fn view(&self) -> AttrValueView {
        match self {
            AttributeValue::Bool(b) => AttrValueView::Bool(*b),
            AttributeValue::Text(t) => AttrValueView::Text(t@),
        }
    }
}

/// View of an attribute association list: key text paired with the
/// parsed value.
pub open spec fn attrs_view(attrs: Seq<(String, AttributeValue)>) -> Seq<
    (Seq<char>, AttrValueView),
> {
    attrs.map_values(|p: (String, AttributeValue)| (p.0@, p.1@))
}

/// View of a list of strings.
pub open spec fn strings_view(ss: Seq<String>) -> Seq<Seq<char>> {
    ss.map_values(|s: String| s@)
}

/// First value bound to `key` in the association list `attrs`.
/// The normalizer keeps keys unique, so the first match is the match.
pub open spec fn attr_lookup(
    attrs: Seq<(Seq<char>, AttrValueView)>,
    key: Seq<char>,
) -> Option<AttrValueView>
    decreases attrs.len(),
{
    if attrs.len() == 0 {
        None::<AttrValueView>
    } else if attrs[0].0 == key {
        Some(attrs[0].1)
    } else {
        attr_lookup(attrs.drop_first(), key)
    }
}

/// Text bound to `key`, if the binding exists and is textual.
pub open spec fn text_lookup(
    attrs: Seq<(Seq<char>, AttrValueView)>,
    key: Seq<char>,
) -> Option<Seq<char>> {
    match attr_lookup(attrs, key) {
        Some(AttrValueView::Text(t)) => Some(t),
        _ => None,
    }
}

/// `attrs` with `key` bound to `value`: the first entry with that key
/// is replaced, else the binding is appended.  A repeated key within
/// one annotation block therefore overwrites the earlier value.
pub open spec fn attr_insert_spec(
    attrs: Seq<(Seq<char>, AttrValueView)>,
    key: Seq<char>,
    value: AttrValueView,
) -> Seq<(Seq<char>, AttrValueView)>
    decreases attrs.len(),
{
    if attrs.len() == 0 {
        seq![(key, value)]
    } else if attrs[0].0 == key {
        seq![(key, value)] + attrs.drop_first()
    } else {
        seq![attrs[0]] + attr_insert_spec(attrs.drop_first(), key, value)
    }
}

proof fn lemma_attr_insert_at(
    attrs: Seq<(Seq<char>, AttrValueView)>,
    key: Seq<char>,
    value: AttrValueView,
    i: int,
)
    requires
        0 <= i < attrs.len(),
        forall|j: int| 0 <= j < i ==> attrs[j].0 != key,
        attrs[i].0 == key,
    ensures
        attr_insert_spec(attrs, key, value) == attrs.update(i, (key, value)),
    decreases i,
{
    if i == 0 {
        assert(seq![(key, value)] + attrs.drop_first() =~= attrs.update(0, (key, value)));
    } else {
        lemma_attr_insert_at(attrs.drop_first(), key, value, i - 1);
        assert(seq![attrs[0]] + attrs.drop_first().update(i - 1, (key, value)) =~= attrs.update(
            i,
            (key, value),
        ));
    }
}

proof fn lemma_attr_insert_missing(
    attrs: Seq<(Seq<char>, AttrValueView)>,
    key: Seq<char>,
    value: AttrValueView,
)
    requires
        forall|j: int| 0 <= j < attrs.len() ==> attrs[j].0 != key,
    ensures
        attr_insert_spec(attrs, key, value) == attrs.push((key, value)),
    decreases attrs.len(),
{
    if attrs.len() == 0 {
        assert(attr_insert_spec(attrs, key, value) =~= attrs.push((key, value)));
    } else {
        lemma_attr_insert_missing(attrs.drop_first(), key, value);
        assert(seq![attrs[0]] + attrs.drop_first().push((key, value)) =~= attrs.push(
            (key, value),
        ));
    }
}

/// No two entries of the association list bind the same key text.
pub open spec fn unique_keys(attrs: Seq<(Seq<char>, AttrValueView)>) -> bool {
    forall|i: int, j: int| 0 <= i < j < attrs.len() ==> attrs[i].0 != attrs[j].0
}

proof fn lemma_attr_insert_keys(
    attrs: Seq<(Seq<char>, AttrValueView)>,
    key: Seq<char>,
    value: AttrValueView,
)
    ensures
        forall|i: int|
            0 <= i < attr_insert_spec(attrs, key, value).len() ==> (#[trigger] attr_insert_spec(
                attrs,
                key,
                value,
            )[i].0 == key || exists|j: int|
                0 <= j < attrs.len() && attrs[j].0 == attr_insert_spec(attrs, key, value)[i].0),
    decreases attrs.len(),
{
    if attrs.len() > 0 && attrs[0].0 != key {
        lemma_attr_insert_keys(attrs.drop_first(), key, value);
        assert forall|i: int|
            0 <= i < attr_insert_spec(attrs, key, value).len() implies (#[trigger] attr_insert_spec(
            attrs,
            key,
            value,
        )[i].0 == key || exists|j: int|
            0 <= j < attrs.len() && attrs[j].0 == attr_insert_spec(attrs, key, value)[i].0) by {
            if i > 0 {
                let tail = attr_insert_spec(attrs.drop_first(), key, value);
                assert(attr_insert_spec(attrs, key, value)[i] == tail[i - 1]);
                if tail[i - 1].0 != key {
                    let j = choose|j: int|
                        0 <= j < attrs.drop_first().len() && attrs.drop_first()[j].0 == tail[i
                            - 1].0;
                    assert(attrs[j + 1].0 == attr_insert_spec(attrs, key, value)[i].0);
                }
            }
        }
    }
}

/// Law: binding a key keeps the keys of the annotation map unique;
/// a repeated key overwrites rather than duplicates.
pub proof fn lemma_attr_insert_unique(
    attrs: Seq<(Seq<char>, AttrValueView)>,
    key: Seq<char>,
    value: AttrValueView,
)
    requires
        unique_keys(attrs),
    ensures
        unique_keys(attr_insert_spec(attrs, key, value)),
    decreases attrs.len(),
{
    if attrs.len() == 0 {
    } else if attrs[0].0 == key {
        assert forall|i: int, j: int|
            0 <= i < j < attr_insert_spec(attrs, key, value).len() implies attr_insert_spec(
            attrs,
            key,
            value,
        )[i].0 != attr_insert_spec(attrs, key, value)[j].0 by {
            assert(attr_insert_spec(attrs, key, value)[j] == attrs[j]);
            if i > 0 {
                assert(attr_insert_spec(attrs, key, value)[i] == attrs[i]);
            }
        }
    } else {
        lemma_attr_insert_unique(attrs.drop_first(), key, value);
        lemma_attr_insert_keys(attrs.drop_first(), key, value);
        let out = attr_insert_spec(attrs, key, value);
        let tail = attr_insert_spec(attrs.drop_first(), key, value);
        assert forall|i: int, j: int| 0 <= i < j < out.len() implies out[i].0 != out[j].0 by {
            if i == 0 {
                assert(out[j] == tail[j - 1]);
                if tail[j - 1].0 != key {
                    let k = choose|k: int|
                        0 <= k < attrs.drop_first().len() && attrs.drop_first()[k].0 == tail[j
                            - 1].0;
                    assert(attrs[k + 1].0 == tail[j - 1].0);
                }
            } else {
                assert(out[i] == tail[i - 1]);
                assert(out[j] == tail[j - 1]);
            }
        }
    }
}

/// Bind `key` to `value` in `attrs`; see [`attr_insert_spec`].
pub fn attr_insert(attrs: &mut Vec<(String, AttributeValue)>, key: String, value: AttributeValue)
    ensures
        attrs_view(final(attrs)@) == attr_insert_spec(attrs_view(old(attrs)@), key@, value@),
{
    let n = attrs.len();
    let mut i: usize = 0;
    while i < n
        invariant
            0 <= i <= n,
            attrs@ == old(attrs)@,
            n == attrs@.len(),
            forall|j: int| 0 <= j < i ==> attrs_view(attrs@)[j].0 != key@,
        decreases n - i,
    {
        let entry: &(String, AttributeValue) = &attrs[i];
        if str_eq(entry.0.as_str(), key.as_str()) {
            proof {
                lemma_attr_insert_at(attrs_view(attrs@), key@, value@, i as int);
            }
            let ghost prior = attrs_view(attrs@);
            attrs.set(i, (key, value));
            proof {
                assert(attrs_view(attrs@) =~= prior.update(i as int, (key@, value@)));
            }
            return ;
        }
        i = i + 1;
    }
    proof {
        lemma_attr_insert_missing(attrs_view(attrs@), key@, value@);
    }
    let ghost prior = attrs_view(attrs@);
    attrs.push((key, value));
    proof {
        assert(attrs_view(attrs@) =~= prior.push((key@, value@)));
    }
}

fn attr_find<'a>(attrs: &'a Vec<(String, AttributeValue)>, key: &str) -> (r: Option<
    &'a AttributeValue,
>)
    ensures
        match r {
            Some(v) => attr_lookup(attrs_view(attrs@), key@) == Some(v@),
            None => attr_lookup(attrs_view(attrs@), key@) is None,
        },
{
    let n = attrs.len();
    let mut i: usize = 0;
    proof {
        assert(attrs_view(attrs@).skip(0) =~= attrs_view(attrs@));
    }
    while i < n
        invariant
            0 <= i <= n,
            n == attrs@.len(),
            attr_lookup(attrs_view(attrs@), key@) == attr_lookup(
                attrs_view(attrs@).skip(i as int),
                key@,
            ),
        decreases n - i,
    {
        let entry: &(String, AttributeValue) = &attrs[i];
        proof {
            assert(attrs_view(attrs@).skip(i as int)[0] == attrs_view(attrs@)[i as int]);
            assert(attrs_view(attrs@).skip(i as int).drop_first() =~= attrs_view(attrs@).skip(
                i as int + 1,
            ));
        }
        if str_eq(entry.0.as_str(), key) {
            return Some(&entry.1);
        }
        i = i + 1;
    }
    None
}

/// One field of an account-context struct, as the normalizer sees it.
#[derive(Debug, Clone, PartialEq)]
pub struct NormalizedAccountField {
    /// Name of the context struct that owns the field.
    pub context: String,
    /// Field name.
    pub name: String,
    /// Outer name of the field's type, e.g. `Account` or `Signer`.
    pub base_type: String,
    /// Generic arguments of the outer type, order preserved; lifetimes
    /// keep their leading apostrophe.
    pub generic_args: Vec<String>,
    /// Parsed annotations, unique keys, later bindings overwrite earlier.
    pub attributes: Vec<(String, AttributeValue)>,
    /// Source line of the field.
    pub line: usize,
}

/// Mathematical view of a [`NormalizedAccountField`].
#[verifier::ext_equal]
pub struct AccountFieldView {
    pub context: Seq<char>,
    pub name: Seq<char>,
    pub base_type: Seq<char>,
    pub generic_args: Seq<Seq<char>>,
    pub attributes: Seq<(Seq<char>, AttrValueView)>,
    pub line: int,
}

impl View for NormalizedAccountField {
    type V = AccountFieldView;

    open spec fn view(&self) -> AccountFieldView {
        AccountFieldView {
            context: self.context@,
            name: self.name@,
            base_type: self.base_type@,
            generic_args: strings_view(self.generic_args@),
            attributes: attrs_view(self.attributes@),
            line: self.line as int,
        }
    }
}

impl AccountFieldView {
    /// Some annotation key has `key` as a substring.
    pub open spec fn contains_attr_spec(self, key: Seq<char>) -> bool {
        exists|i: int| 0 <= i < self.attributes.len() && contains_sub(self.attributes[i].0, key)
    }

    /// `key` is bound to the boolean value `true`.
    pub open spec fn has_bool_attribute_spec(self, key: Seq<char>) -> bool {
        attr_lookup(self.attributes, key) == Some(AttrValueView::Bool(true))
    }

    /// Text bound to `key`, if the binding exists and is textual.
    pub open spec fn text_attribute_spec(self, key: Seq<char>) -> Option<Seq<char>> {
        text_lookup(self.attributes, key)
    }
}

impl NormalizedAccountField {
    /// Substring lookup over annotation keys; see
    /// [`AccountFieldView::contains_attr_spec`].
    pub fn contains_attr(&self, key: &str) -> (r: bool)
        ensures
            r == self@.contains_attr_spec(key@),
    {
        let n = self.attributes.len();
        let mut i: usize = 0;
        while i < n
            invariant
                0 <= i <= n,
                n == self.attributes@.len(),
                forall|j: int| 0 <= j < i ==> !contains_sub(attrs_view(self.attributes@)[j].0, key@),
            decreases n - i,
        {
            let entry: &(String, AttributeValue) = &self.attributes[i];
            proof {
                assert(attrs_view(self.attributes@)[i as int].0 == entry.0@);
            }
            if str_contains(entry.0.as_str(), key) {
                proof {
                    assert(contains_sub(self@.attributes[i as int].0, key@));
                }
                return true;
            }
            i = i + 1;
        }
        false
    }

    /// Exact-key boolean lookup; see
    /// [`AccountFieldView::has_bool_attribute_spec`].
    pub fn has_bool_attribute(&self, key: &str) -> (r: bool)
        ensures
            r == self@.has_bool_attribute_spec(key@),
    {
        match attr_find(&self.attributes, key) {
            Some(AttributeValue::Bool(b)) => *b,
            _ => false,
        }
    }

    /// Exact-key text lookup; see
    /// [`AccountFieldView::text_attribute_spec`].
    pub fn has_str_attribute(&self, key: &str) -> (r: Option<&str>)
        ensures
            match self@.text_attribute_spec(key@) {
                Some(t) => r matches Some(x) && x@ == t,
                None => r is None,
            },
    {
        match attr_find(&self.attributes, key) {
            Some(AttributeValue::Text(t)) => Some(t.as_str()),
            _ => None,
        }
    }
}

/// One account-context struct: the accounts one handler operates on.
#[derive(Debug, Clone, PartialEq)]
pub struct NormalizedAccountStruct {
    pub name: String,
    pub fields: Vec<NormalizedAccountField>,
    pub line: usize,
}

/// Mathematical view of a [`NormalizedAccountStruct`].
#[verifier::ext_equal]
pub struct AccountStructView {
    pub name: Seq<char>,
    pub fields: Seq<AccountFieldView>,
    pub line: int,
}

impl View for NormalizedAccountStruct {
    type V = AccountStructView;

    open spec fn view(&self) -> AccountStructView {
        AccountStructView {
            name: self.name@,
            fields: self.fields@.map_values(|f: NormalizedAccountField| f@),
            line: self.line as int,
        }
    }
}

/// One persisted storage record type; field type order matters because
/// the expected size is a running sum.
#[derive(Debug, Clone, PartialEq)]
pub struct StorageStruct {
    pub name: String,
    pub field_types: Vec<String>,
}

/// Mathematical view of a [`StorageStruct`].
#[verifier::ext_equal]
pub struct StorageStructView {
    pub name: Seq<char>,
    pub field_types: Seq<Seq<char>>,
}

impl View for StorageStruct {
    type V = StorageStructView;

    open spec fn view(&self) -> StorageStructView {
        StorageStructView { name: self.name@, field_types: strings_view(self.field_types@) }
    }
}

/// One named, typed argument.
#[derive(Debug, Clone, PartialEq)]
pub struct FnArgs {
    pub name: String,
    pub ty: String,
}

/// Mathematical view of a [`FnArgs`].
#[verifier::ext_equal]
pub struct FnArgsView {
    pub name: Seq<char>,
    pub ty: Seq<char>,
}

impl View for FnArgs {
    type V = FnArgsView;

    open spec fn view(&self) -> FnArgsView {
        FnArgsView { name: self.name@, ty: self.ty@ }
    }
}

/// View of a list of arguments.
pub open spec fn fn_args_view(args: Seq<FnArgs>) -> Seq<FnArgsView> {
    args.map_values(|a: FnArgs| a@)
}

/// Arguments an instruction-annotated context declares; its handlers
/// must accept them all.
#[derive(Debug, Clone, PartialEq)]
pub struct AccountInstructions {
    pub ctx_name: String,
    pub args: Vec<FnArgs>,
}

/// Mathematical view of an [`AccountInstructions`].
#[verifier::ext_equal]
pub struct AccountInstructionsView {
    pub ctx_name: Seq<char>,
    pub args: Seq<FnArgsView>,
}

impl View for AccountInstructions {
    type V = AccountInstructionsView;

    open spec fn view(&self) -> AccountInstructionsView {
        AccountInstructionsView { ctx_name: self.ctx_name@, args: fn_args_view(self.args@) }
    }
}

/// One handler signature: its name, the context it is bound to (empty
/// if none was declared), and its plain arguments.
#[derive(Debug, Clone, PartialEq)]
pub struct NormalizedFunctionArgs {
    pub name: String,
    pub context: String,
    pub args: Vec<FnArgs>,
    pub line: usize,
}

/// Mathematical view of a [`NormalizedFunctionArgs`].
#[verifier::ext_equal]
pub struct FunctionArgsView {
    pub name: Seq<char>,
    pub context: Seq<char>,
    pub args: Seq<FnArgsView>,
    pub line: int,
}

impl View for NormalizedFunctionArgs {
    type V = FunctionArgsView;

    open spec fn view(&self) -> FunctionArgsView {
        FunctionArgsView {
            name: self.name@,
            context: self.context@,
            args: fn_args_view(self.args@),
            line: self.line as int,
        }
    }
}

/// One site where a function divides by a bare identifier.
#[derive(Debug, Clone, PartialEq)]
pub struct PossibleDivisionByZeroFindingCheckerInstance {
    pub function_name: String,
    pub divisor: String,
    pub line: usize,
}

/// Mathematical view of a division site.
#[verifier::ext_equal]
pub struct DivisionSiteView {
    pub function_name: Seq<char>,
    pub divisor: Seq<char>,
    pub line: int,
}

impl View for PossibleDivisionByZeroFindingCheckerInstance {
    type V = DivisionSiteView;

    open spec fn view(&self) -> DivisionSiteView {
        DivisionSiteView {
            function_name: self.function_name@,
            divisor: self.divisor@,
            line: self.line as int,
        }
    }
}

/// A soft failure: an entity that could not be classified or sized was
/// skipped for one rule; the rest of the analysis continues.
#[derive(Debug, Clone, PartialEq)]
pub enum Diagnostic {
    /// A handler parameter whose pattern or type could not be read.
    UnclassifiedParameter { function: String, line: usize },
    /// A field with a space annotation but no storage type argument.
    MissingStorageTypeArgument { account: String, line: usize },
    /// A space annotation whose text is not a constant integer expression.
    UnparsableSpaceExpression { account: String, line: usize },
    /// A storage struct with a field type of unknown size.
    UnsizedStorageStruct { storage: String, line: usize },
}

/// Mathematical view of a [`Diagnostic`].
#[verifier::ext_equal]
pub enum DiagnosticView {
    UnclassifiedParameter { function: Seq<char>, line: int },
    MissingStorageTypeArgument { account: Seq<char>, line: int },
    UnparsableSpaceExpression { account: Seq<char>, line: int },
    UnsizedStorageStruct { storage: Seq<char>, line: int },
}

/// View of a list of diagnostics.
pub open spec fn diagnostics_view(ds: Seq<Diagnostic>) -> Seq<DiagnosticView> {
    ds.map_values(|d: Diagnostic| d@)
}

impl View for Diagnostic {
    type V = DiagnosticView;

    open spec fn view(&self) -> DiagnosticView {
        match self {
            Diagnostic::UnclassifiedParameter { function, line } => {
                DiagnosticView::UnclassifiedParameter { function: function@, line: *line as int }
            },
            Diagnostic::MissingStorageTypeArgument { account, line } => {
                DiagnosticView::MissingStorageTypeArgument { account: account@, line: *line as int }
            },
            Diagnostic::UnparsableSpaceExpression { account, line } => {
                DiagnosticView::UnparsableSpaceExpression { account: account@, line: *line as int }
            },
            Diagnostic::UnsizedStorageStruct { storage, line } => {
                DiagnosticView::UnsizedStorageStruct { storage: storage@, line: *line as int }
            },
        }
    }
}

} // verus!
