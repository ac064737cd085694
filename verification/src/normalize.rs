//! The normalizer: classify raw syntax items and build the typed
//! domain model.
//!
//! Annotation blocks are recognized by their two rendered markers,
//! stripped of the marker and the trailing close token, trimmed, split
//! at top-level commas (a depth-tracking tokenizer, so bracketed
//! content keeps its commas), and each piece is split at its first `=`:
//! `key = value` binds the key to the right-hand text, a bare key binds
//! the boolean `true`.  A repeated key overwrites the earlier value.

use vstd::prelude::*;
use crate::state::{
    attr_insert,
    attr_insert_spec,
    attrs_view,
    diagnostics_view,
    fn_args_view,
    lemma_attr_insert_unique,
    strings_view,
    unique_keys,
    AccountFieldView,
    AccountInstructions,
    AccountInstructionsView,
    AccountStructView,
    AttrValueView,
    AttributeValue,
    Diagnostic,
    DiagnosticView,
    FnArgs,
    FnArgsView,
    FunctionArgsView,
    NormalizedAccountField,
    NormalizedAccountStruct,
    NormalizedFunctionArgs,
    StorageStruct,
    StorageStructView,
};
use crate::syntax::{Attr, FieldDecl, FnDecl, GenericArg, Item, Param, SourceFile, StructDecl};
use crate::text::{
    contains_sub,
    has_prefix,
    has_suffix,
    split_top_level,
    split_top_spec,
    str_contains,
    str_ends_with,
    str_eq,
    str_starts_with,
    str_trim,
    trim_spec,
};

verus! {

/// Some attribute's path is exactly `p`.
pub open spec fn has_attr_path(attrs: Seq<Attr>, p: Seq<char>) -> bool {
    exists|i: int| 0 <= i < attrs.len() && attrs[i].path@ == p
}

/// Some attribute's rendered text contains `needle`.
pub open spec fn has_attr_text_containing(attrs: Seq<Attr>, needle: Seq<char>) -> bool {
    exists|i: int| 0 <= i < attrs.len() && contains_sub(attrs[i].text@, needle)
}

fn find_attr_path(attrs: &Vec<Attr>, p: &str) -> (r: bool)
    ensures
        r == has_attr_path(attrs@, p@),
{
    let n = attrs.len();
    let mut i: usize = 0;
    while i < n
        invariant
            0 <= i <= n,
            n == attrs@.len(),
            forall|j: int| 0 <= j < i ==> attrs@[j].path@ != p@,
        decreases n - i,
    {
        let a: &Attr = &attrs[i];
        if str_eq(a.path.as_str(), p) {
            return true;
        }
        i = i + 1;
    }
    false
}

fn find_attr_text_containing(attrs: &Vec<Attr>, needle: &str) -> (r: bool)
    ensures
        r == has_attr_text_containing(attrs@, needle@),
{
    let n = attrs.len();
    let mut i: usize = 0;
    while i < n
        invariant
            0 <= i <= n,
            n == attrs@.len(),
            forall|j: int| 0 <= j < i ==> !contains_sub(attrs@[j].text@, needle@),
        decreases n - i,
    {
        let a: &Attr = &attrs[i];
        if str_contains(a.text.as_str(), needle) {
            return true;
        }
        i = i + 1;
    }
    false
}

/// An account-context struct: it carries a derive attribute and some
/// attribute's text mentions the accounts marker.
pub open spec fn is_account_struct_spec(s: StructDecl) -> bool {
    has_attr_path(s.attrs@, "derive"@) && has_attr_text_containing(s.attrs@, "Accounts"@)
}

/// A storage struct: it carries the persistence marker.
pub open spec fn is_storage_struct_spec(s: StructDecl) -> bool {
    has_attr_path(s.attrs@, "account"@)
}

/// An instruction-annotated struct: it carries the instruction marker.
pub open spec fn has_instruction_spec(s: StructDecl) -> bool {
    has_attr_path(s.attrs@, "instruction"@)
}

/// Classify a struct as an account-context struct; see
/// [`is_account_struct_spec`].
pub fn is_anchor_account_struct(s: &StructDecl) -> (r: bool)
    ensures
        r == is_account_struct_spec(*s),
{
    find_attr_path(&s.attrs, "derive") && find_attr_text_containing(&s.attrs, "Accounts")
}

/// Classify a struct as a storage struct; see [`is_storage_struct_spec`].
pub fn is_anchor_storage_struct(s: &StructDecl) -> (r: bool)
    ensures
        r == is_storage_struct_spec(*s),
{
    find_attr_path(&s.attrs, "account")
}

/// Does the struct declare instruction arguments; see
/// [`has_instruction_spec`].
pub fn account_struct_has_instruction(s: &StructDecl) -> (r: bool)
    ensures
        r == has_instruction_spec(*s),
{
    find_attr_path(&s.attrs, "instruction")
}

/// The first of the two annotation-block markers that prefixes `t`,
/// with the text after the marker and before one trailing close token.
pub open spec fn annotation_body(t: Seq<char>) -> Option<Seq<char>> {
    if has_prefix(t, "# [accounts ("@) {
        Some(strip_close(t.subrange("# [accounts ("@.len() as int, t.len() as int)))
    } else if has_prefix(t, "# [account ("@) {
        Some(strip_close(t.subrange("# [account ("@.len() as int, t.len() as int)))
    } else {
        None::<Seq<char>>
    }
}

/// `body` with one trailing close token removed, when it has one.
pub open spec fn strip_close(body: Seq<char>) -> Seq<char> {
    if has_suffix(body, ")]"@) {
        body.subrange(0, body.len() - 2)
    } else {
        body
    }
}

/// Index of the first `=` at or after position `i`, or the length of
/// `s` when there is none.
pub open spec fn first_eq(s: Seq<char>, i: int) -> int
    decreases s.len() - i,
{
    if i < 0 || i >= s.len() {
        s.len() as int
    } else if s[i] == '=' {
        i
    } else {
        first_eq(s, i + 1)
    }
}

proof fn lemma_first_eq_range(s: Seq<char>, i: int)
    requires
        0 <= i <= s.len(),
    ensures
        i <= first_eq(s, i) <= s.len(),
    decreases s.len() - i,
{
    if i < s.len() && s[i] != '=' {
        lemma_first_eq_range(s, i + 1);
    }
}

/// One comma piece parsed to a binding: split at the first `=` when
/// there is one (key and textual value, both trimmed), else the whole
/// trimmed piece bound to the boolean `true`.
pub open spec fn parse_piece(piece: Seq<char>) -> (Seq<char>, AttrValueView) {
    let i = first_eq(piece, 0);
    if i >= piece.len() {
        (trim_spec(piece), AttrValueView::Bool(true))
    } else {
        (
            trim_spec(piece.subrange(0, i)),
            AttrValueView::Text(trim_spec(piece.subrange(i + 1, piece.len() as int))),
        )
    }
}

/// Bind every piece in order, later bindings overwriting earlier ones.
pub open spec fn insert_pieces(
    attrs: Seq<(Seq<char>, AttrValueView)>,
    pieces: Seq<Seq<char>>,
) -> Seq<(Seq<char>, AttrValueView)>
    decreases pieces.len(),
{
    if pieces.len() == 0 {
        attrs
    } else {
        insert_pieces(
            attr_insert_spec(attrs, parse_piece(pieces[0]).0, parse_piece(pieces[0]).1),
            pieces.drop_first(),
        )
    }
}

/// Apply one attribute's text: an annotation block is stripped,
/// trimmed, split at top-level commas, and its pieces bound; any other
/// attribute changes nothing.
pub open spec fn apply_attr(
    attrs: Seq<(Seq<char>, AttrValueView)>,
    t: Seq<char>,
) -> Seq<(Seq<char>, AttrValueView)> {
    match annotation_body(t) {
        Some(body) => insert_pieces(attrs, split_top_spec(trim_spec(body))),
        None => attrs,
    }
}

/// The annotations of a field: its attributes applied in order,
/// starting from no bindings.
pub open spec fn annotations_from(
    acc: Seq<(Seq<char>, AttrValueView)>,
    attrs: Seq<Attr>,
) -> Seq<(Seq<char>, AttrValueView)>
    decreases attrs.len(),
{
    if attrs.len() == 0 {
        acc
    } else {
        annotations_from(apply_attr(acc, attrs[0].text@), attrs.drop_first())
    }
}

/// The parsed annotation map of one field.
pub open spec fn field_annotations(attrs: Seq<Attr>) -> Seq<(Seq<char>, AttrValueView)> {
    annotations_from(Seq::<(Seq<char>, AttrValueView)>::empty(), attrs)
}

proof fn lemma_insert_pieces_unique(
    acc: Seq<(Seq<char>, AttrValueView)>,
    pieces: Seq<Seq<char>>,
)
    requires
        unique_keys(acc),
    ensures
        unique_keys(insert_pieces(acc, pieces)),
    decreases pieces.len(),
{
    if pieces.len() > 0 {
        lemma_attr_insert_unique(acc, parse_piece(pieces[0]).0, parse_piece(pieces[0]).1);
        lemma_insert_pieces_unique(
            attr_insert_spec(acc, parse_piece(pieces[0]).0, parse_piece(pieces[0]).1),
            pieces.drop_first(),
        );
    }
}

proof fn lemma_annotations_from_unique(acc: Seq<(Seq<char>, AttrValueView)>, attrs: Seq<Attr>)
    requires
        unique_keys(acc),
    ensures
        unique_keys(annotations_from(acc, attrs)),
    decreases attrs.len(),
{
    if attrs.len() > 0 {
        match annotation_body(attrs[0].text@) {
            Some(body) => {
                lemma_insert_pieces_unique(acc, split_top_spec(trim_spec(body)));
            },
            None => {
            },
        }
        lemma_annotations_from_unique(apply_attr(acc, attrs[0].text@), attrs.drop_first());
    }
}

/// Law: the parsed annotation map of a field has unique keys: a
/// repeated key within one annotation block overwrites the earlier
/// binding rather than adding a second one.
pub proof fn lemma_field_annotations_unique(attrs: Seq<Attr>)
    ensures
        unique_keys(field_annotations(attrs)),
{
    lemma_annotations_from_unique(Seq::<(Seq<char>, AttrValueView)>::empty(), attrs);
}

fn find_first_eq(s: &str) -> (r: usize)
    ensures
        r as int == first_eq(s@, 0),
        r <= s@.len(),
{
    let n = s.unicode_len();
    let mut i: usize = 0;
    while i < n
        invariant
            0 <= i <= n,
            n == s@.len(),
            first_eq(s@, 0) == first_eq(s@, i as int),
        decreases n - i,
    {
        if s.get_char(i) == '=' {
            return i;
        }
        i = i + 1;
    }
    n
}

fn insert_piece(attrs: &mut Vec<(String, AttributeValue)>, piece: &str)
    ensures
        attrs_view(final(attrs)@) == attr_insert_spec(
            attrs_view(old(attrs)@),
            parse_piece(piece@).0,
            parse_piece(piece@).1,
        ),
{
    let n = piece.unicode_len();
    let i = find_first_eq(piece);
    if i >= n {
        let key = str_trim(piece).to_owned();
        attr_insert(attrs, key, AttributeValue::Bool(true));
    } else {
        proof {
            lemma_first_eq_range(piece@, 0);
        }
        let key = str_trim(piece.substring_char(0, i)).to_owned();
        let value = str_trim(piece.substring_char(i + 1, n)).to_owned();
        proof {
            assert(key@ == trim_spec(piece@.subrange(0, i as int)));
            assert(value@ == trim_spec(piece@.subrange(i as int + 1, piece@.len() as int)));
        }
        attr_insert(attrs, key, AttributeValue::Text(value));
    }
}

fn apply_annotation_attr(attrs: &mut Vec<(String, AttributeValue)>, text: &str)
    ensures
        attrs_view(final(attrs)@) == apply_attr(attrs_view(old(attrs)@), text@),
{
    let n = text.unicode_len();
    let body: &str;
    if str_starts_with(text, "# [accounts (") {
        let mlen = "# [accounts (".unicode_len();
        body = text.substring_char(mlen, n);
        proof {
            assert(body@ == text@.subrange("# [accounts ("@.len() as int, text@.len() as int));
        }
    } else if str_starts_with(text, "# [account (") {
        let mlen = "# [account (".unicode_len();
        body = text.substring_char(mlen, n);
        proof {
            assert(body@ == text@.subrange("# [account ("@.len() as int, text@.len() as int));
        }
    } else {
        return ;
    }
    let blen = body.unicode_len();
    proof {
        reveal_strlit(")]");
    }
    let stripped: &str = if str_ends_with(body, ")]") {
        body.substring_char(0, blen - 2)
    } else {
        body
    };
    proof {
        assert(stripped@ == strip_close(body@));
    }
    let trimmed = str_trim(stripped);
    let pieces = split_top_level(trimmed);
    let ghost pview = pieces.deep_view();
    let np = pieces.len();
    let mut k: usize = 0;
    proof {
        assert(pview.skip(0) =~= pview);
    }
    while k < np
        invariant
            0 <= k <= np,
            np == pieces@.len(),
            pview == pieces.deep_view(),
            insert_pieces(attrs_view(attrs@), pview.skip(k as int)) == insert_pieces(
                attrs_view(old(attrs)@),
                pview,
            ),
        decreases np - k,
    {
        let piece: &String = &pieces[k];
        proof {
            assert(pview.skip(k as int)[0] == pview[k as int]);
            assert(pview[k as int] == piece@);
            assert(pview.skip(k as int).drop_first() =~= pview.skip(k as int + 1));
        }
        insert_piece(attrs, piece.as_str());
        k = k + 1;
    }
    proof {
        assert(pview.skip(np as int) =~= Seq::<Seq<char>>::empty());
        assert(attrs_view(attrs@) == insert_pieces(attrs_view(attrs@), pview.skip(np as int)));
    }
}

/// The rendered generic arguments of a segment: a lifetime keeps a
/// leading apostrophe, a path type argument contributes its last
/// segment's identifier, anything else is dropped.
pub open spec fn generic_args_spec(args: Seq<GenericArg>) -> Seq<Seq<char>>
    decreases args.len(),
{
    if args.len() == 0 {
        Seq::<Seq<char>>::empty()
    } else {
        generic_args_spec(args.drop_last()) + (match args.last() {
            GenericArg::Lifetime(l) => seq![seq!['\''] + l@],
            GenericArg::TypeName(t) => seq![t@],
            GenericArg::Other => Seq::<Seq<char>>::empty(),
        })
    }
}

fn render_generic_args(args: &Vec<GenericArg>) -> (r: Vec<String>)
    ensures
        strings_view(r@) == generic_args_spec(args@),
{
    let n = args.len();
    let mut out: Vec<String> = Vec::new();
    proof {
        assert(args@.take(0) =~= Seq::<GenericArg>::empty());
        assert(strings_view(out@) =~= generic_args_spec(args@.take(0)));
    }
    let mut i: usize = 0;
    while i < n
        invariant
            0 <= i <= n,
            n == args@.len(),
            strings_view(out@) == generic_args_spec(args@.take(i as int)),
        decreases n - i,
    {
        let a: &GenericArg = &args[i];
        proof {
            assert(args@.take(i as int + 1).drop_last() =~= args@.take(i as int));
            assert(args@.take(i as int + 1).last() == args@[i as int]);
        }
        let ghost prior = out@;
        match a {
            GenericArg::Lifetime(l) => {
                let tick: &str = "'";
                proof {
                    reveal_strlit("'");
                }
                let rendered = tick.to_owned().concat(l.as_str());
                proof {
                    assert(rendered@ =~= seq!['\''] + l@);
                }
                out.push(rendered);
                proof {
                    assert(strings_view(out@) =~= strings_view(prior).push(seq!['\''] + l@));
                }
            },
            GenericArg::TypeName(t) => {
                out.push(t.clone());
                proof {
                    assert(strings_view(out@) =~= strings_view(prior).push(t@));
                }
            },
            GenericArg::Other => {
            },
        }
        i = i + 1;
    }
    proof {
        assert(args@.take(n as int) =~= args@);
    }
    out
}

/// The normalized form of one field of context `ctx`: a field without
/// a plain path type keeps an empty outer type name and no generic
/// arguments.
pub open spec fn normal_field_spec(ctx: Seq<char>, f: FieldDecl) -> AccountFieldView {
    AccountFieldView {
        context: ctx,
        name: f.name@,
        base_type: match f.ty {
            Some(t) => t.first_ident@,
            None => Seq::<char>::empty(),
        },
        generic_args: match f.ty {
            Some(t) => generic_args_spec(t.first_args@),
            None => Seq::<Seq<char>>::empty(),
        },
        attributes: field_annotations(f.attrs@),
        line: f.line as int,
    }
}

/// The normalized fields of one struct, in declaration order.
pub open spec fn normal_fields_spec(ctx: Seq<char>, fields: Seq<FieldDecl>) -> Seq<
    AccountFieldView,
> {
    fields.map_values(|f: FieldDecl| normal_field_spec(ctx, f))
}

/// Normalize every field of one account-context struct; see
/// [`normal_fields_spec`].
pub fn normalize_struct_field(s: &StructDecl) -> (r: Vec<NormalizedAccountField>)
    ensures
        r@.map_values(|f: NormalizedAccountField| f@) == normal_fields_spec(s.name@, s.fields@),
{
    let n = s.fields.len();
    let mut out: Vec<NormalizedAccountField> = Vec::new();
    let mut i: usize = 0;
    proof {
        assert(out@.map_values(|f: NormalizedAccountField| f@) =~= normal_fields_spec(
            s.name@,
            s.fields@.take(0),
        ));
    }
    while i < n
        invariant
            0 <= i <= n,
            n == s.fields@.len(),
            out@.map_values(|f: NormalizedAccountField| f@) == normal_fields_spec(
                s.name@,
                s.fields@.take(i as int),
            ),
        decreases n - i,
    {
        let field: &FieldDecl = &s.fields[i];
        let mut base_type: String = String::new();
        let mut generic_args: Vec<String> = Vec::new();
        match &field.ty {
            Some(t) => {
                base_type = t.first_ident.clone();
                generic_args = render_generic_args(&t.first_args);
            },
            None => {
            },
        }
        let mut attributes: Vec<(String, AttributeValue)> = Vec::new();
        let na = field.attrs.len();
        let mut k: usize = 0;
        proof {
            assert(attrs_view(attributes@) =~= Seq::<(Seq<char>, AttrValueView)>::empty());
            assert(field.attrs@.skip(0) =~= field.attrs@);
        }
        while k < na
            invariant
                0 <= k <= na,
                na == field.attrs@.len(),
                annotations_from(attrs_view(attributes@), field.attrs@.skip(k as int))
                    == field_annotations(field.attrs@),
            decreases na - k,
        {
            let a: &Attr = &field.attrs[k];
            proof {
                assert(field.attrs@.skip(k as int)[0] == field.attrs@[k as int]);
                assert(field.attrs@.skip(k as int).drop_first() =~= field.attrs@.skip(
                    k as int + 1,
                ));
            }
            apply_annotation_attr(&mut attributes, a.text.as_str());
            k = k + 1;
        }
        proof {
            assert(field.attrs@.skip(na as int) =~= Seq::<Attr>::empty());
            assert(attrs_view(attributes@) == field_annotations(field.attrs@));
        }
        let normalized = NormalizedAccountField {
            context: s.name.clone(),
            name: field.name.clone(),
            base_type,
            generic_args,
            attributes,
            line: field.line,
        };
        proof {
            assert(normalized@ =~~= normal_field_spec(s.name@, s.fields@[i as int]));
        }
        let ghost prior = out@;
        out.push(normalized);
        proof {
            assert(out@.map_values(|f: NormalizedAccountField| f@) =~= prior.map_values(
                |f: NormalizedAccountField| f@,
            ).push(normal_field_spec(s.name@, s.fields@[i as int])));
            assert(normal_fields_spec(s.name@, s.fields@.take(i as int + 1)) =~= normal_fields_spec(
                s.name@,
                s.fields@.take(i as int),
            ).push(normal_field_spec(s.name@, s.fields@[i as int])));
        }
        i = i + 1;
    }
    proof {
        assert(s.fields@.take(n as int) =~= s.fields@);
    }
    out
}

/// The normalized form of one account-context struct.
pub open spec fn normal_struct_spec(s: StructDecl) -> AccountStructView {
    AccountStructView {
        name: s.name@,
        fields: normal_fields_spec(s.name@, s.fields@),
        line: s.line as int,
    }
}

/// Normalize one account-context struct; see [`normal_struct_spec`].
pub fn normalize_struct(s: &StructDecl) -> (r: NormalizedAccountStruct)
    ensures
        r@ == normal_struct_spec(*s),
{
    let normalized_fields = normalize_struct_field(s);
    let r = NormalizedAccountStruct {
        name: s.name.clone(),
        fields: normalized_fields,
        line: s.line,
    };
    proof {
        assert(r@.fields == normal_fields_spec(s.name@, s.fields@));
    }
    r
}

/// Index of the first `:` at or after position `i`, or the length of
/// `s` when there is none.
pub open spec fn first_colon(s: Seq<char>, i: int) -> int
    decreases s.len() - i,
{
    if i < 0 || i >= s.len() {
        s.len() as int
    } else if s[i] == ':' {
        i
    } else {
        first_colon(s, i + 1)
    }
}

proof fn lemma_first_colon_range(s: Seq<char>, i: int)
    requires
        0 <= i <= s.len(),
    ensures
        i <= first_colon(s, i) <= s.len(),
    decreases s.len() - i,
{
    if i < s.len() && s[i] != ':' {
        lemma_first_colon_range(s, i + 1);
    }
}

/// One comma piece of an instruction argument list, parsed as a
/// `name : type` pair.  A blank piece, a piece without exactly one
/// colon, and a piece with an empty name or type are skipped.
pub open spec fn parse_instruction_piece(piece: Seq<char>) -> Option<FnArgsView> {
    let t = trim_spec(piece);
    if t.len() == 0 {
        None::<FnArgsView>
    } else {
        let i = first_colon(t, 0);
        if i >= t.len() {
            None::<FnArgsView>
        } else if first_colon(t, i + 1) < t.len() {
            None::<FnArgsView>
        } else {
            let name = trim_spec(t.subrange(0, i));
            let ty = trim_spec(t.subrange(i + 1, t.len() as int));
            if name.len() > 0 && ty.len() > 0 {
                Some(FnArgsView { name, ty })
            } else {
                None::<FnArgsView>
            }
        }
    }
}

/// The parsed pairs of a piece list, in order, skipped pieces dropped.
pub open spec fn collect_instruction_args(pieces: Seq<Seq<char>>) -> Seq<FnArgsView>
    decreases pieces.len(),
{
    if pieces.len() == 0 {
        Seq::<FnArgsView>::empty()
    } else {
        collect_instruction_args(pieces.drop_last()) + (match parse_instruction_piece(
            pieces.last(),
        ) {
            Some(a) => seq![a],
            None => Seq::<FnArgsView>::empty(),
        })
    }
}

/// The declared arguments read from an instruction marker's argument
/// text: top-level comma pieces, each a `name : type` pair.
pub open spec fn instruction_args_spec(raw: Seq<char>) -> Seq<FnArgsView> {
    collect_instruction_args(split_top_spec(raw))
}

fn find_first_colon(s: &str, from: usize) -> (r: usize)
    requires
        from <= s@.len(),
    ensures
        r as int == first_colon(s@, from as int),
        from <= r <= s@.len(),
{
    let n = s.unicode_len();
    let mut i: usize = from;
    while i < n
        invariant
            from <= i <= n,
            n == s@.len(),
            first_colon(s@, from as int) == first_colon(s@, i as int),
        decreases n - i,
    {
        if s.get_char(i) == ':' {
            return i;
        }
        i = i + 1;
    }
    n
}

fn parse_instruction_args(raw: &str) -> (r: Vec<FnArgs>)
    ensures
        fn_args_view(r@) == instruction_args_spec(raw@),
{
    let pieces = split_top_level(raw);
    let ghost pview = pieces.deep_view();
    let np = pieces.len();
    let mut out: Vec<FnArgs> = Vec::new();
    let mut k: usize = 0;
    proof {
        assert(pview.take(0) =~= Seq::<Seq<char>>::empty());
        assert(fn_args_view(out@) =~= collect_instruction_args(pview.take(0)));
    }
    while k < np
        invariant
            0 <= k <= np,
            np == pieces@.len(),
            pview == pieces.deep_view(),
            fn_args_view(out@) == collect_instruction_args(pview.take(k as int)),
        decreases np - k,
    {
        let piece: &String = &pieces[k];
        proof {
            assert(pview[k as int] == piece@);
            assert(pview.take(k as int + 1).drop_last() =~= pview.take(k as int));
            assert(pview.take(k as int + 1).last() == pview[k as int]);
        }
        let t = str_trim(piece.as_str());
        let tn = t.unicode_len();
        if tn > 0 {
            let i = find_first_colon(t, 0);
            if i < tn {
                let j = find_first_colon(t, i + 1);
                if j >= tn {
                    let name = str_trim(t.substring_char(0, i)).to_owned();
                    let ty = str_trim(t.substring_char(i + 1, tn)).to_owned();
                    proof {
                        assert(name@ == trim_spec(t@.subrange(0, i as int)));
                        assert(ty@ == trim_spec(t@.subrange(i as int + 1, t@.len() as int)));
                    }
                    if name.unicode_len() > 0 && ty.unicode_len() > 0 {
                        let ghost prior = out@;
                        out.push(FnArgs { name, ty });
                        proof {
                            assert(fn_args_view(out@) =~~= fn_args_view(prior).push(
                                parse_instruction_piece(piece@).unwrap(),
                            ));
                        }
                    }
                }
            }
        }
        k = k + 1;
    }
    proof {
        assert(pview.take(np as int) =~= pview);
    }
    out
}

/// The instruction contexts a struct declares: one per instruction
/// marker it carries, in attribute order, each naming the struct and
/// listing the parsed argument pairs.
pub open spec fn instruction_ctxs_spec(s: StructDecl) -> Seq<AccountInstructionsView>
    decreases s.attrs@.len(),
{
    instruction_ctxs_from(s.name@, s.attrs@)
}

/// Helper of [`instruction_ctxs_spec`]: fold over the attributes.
pub open spec fn instruction_ctxs_from(name: Seq<char>, attrs: Seq<Attr>) -> Seq<
    AccountInstructionsView,
>
    decreases attrs.len(),
{
    if attrs.len() == 0 {
        Seq::<AccountInstructionsView>::empty()
    } else {
        instruction_ctxs_from(name, attrs.drop_last()) + (if attrs.last().path@
            == "instruction"@ {
            seq![
                AccountInstructionsView {
                    ctx_name: name,
                    args: instruction_args_spec(attrs.last().arg_text@),
                },
            ]
        } else {
            Seq::<AccountInstructionsView>::empty()
        })
    }
}

/// Read every instruction marker of a struct; see
/// [`instruction_ctxs_spec`].
pub fn extract_instruction_args(s: &StructDecl) -> (r: Vec<AccountInstructions>)
    ensures
        r@.map_values(|c: AccountInstructions| c@) == instruction_ctxs_spec(*s),
{
    let n = s.attrs.len();
    let mut out: Vec<AccountInstructions> = Vec::new();
    let mut i: usize = 0;
    proof {
        assert(s.attrs@.take(0) =~= Seq::<Attr>::empty());
        assert(out@.map_values(|c: AccountInstructions| c@) =~= instruction_ctxs_from(
            s.name@,
            s.attrs@.take(0),
        ));
    }
    while i < n
        invariant
            0 <= i <= n,
            n == s.attrs@.len(),
            out@.map_values(|c: AccountInstructions| c@) == instruction_ctxs_from(
                s.name@,
                s.attrs@.take(i as int),
            ),
        decreases n - i,
    {
        let a: &Attr = &s.attrs[i];
        proof {
            assert(s.attrs@.take(i as int + 1).drop_last() =~= s.attrs@.take(i as int));
            assert(s.attrs@.take(i as int + 1).last() == s.attrs@[i as int]);
        }
        if str_eq(a.path.as_str(), "instruction") {
            let args = parse_instruction_args(a.arg_text.as_str());
            let entry = AccountInstructions { ctx_name: s.name.clone(), args };
            proof {
                assert(entry@ =~~= AccountInstructionsView {
                    ctx_name: s.name@,
                    args: instruction_args_spec(a.arg_text@),
                });
            }
            let ghost prior = out@;
            out.push(entry);
            proof {
                assert(out@.map_values(|c: AccountInstructions| c@) =~= prior.map_values(
                    |c: AccountInstructions| c@,
                ).push(entry@));
            }
        }
        i = i + 1;
    }
    proof {
        assert(s.attrs@.take(n as int) =~= s.attrs@);
    }
    out
}

/// Result of scanning a handler's parameters: the bound execution
/// context (empty when none was declared), the plain arguments, and
/// the diagnostics of skipped parameters.
#[verifier::ext_equal]
pub struct FnExtract {
    pub context: Seq<char>,
    pub args: Seq<FnArgsView>,
    pub diags: Seq<DiagnosticView>,
}

/// Scan the parameters left to right.  A parameter of the execution
/// context wrapper binds the context from its first generic argument
/// when that is a type, and never joins the arguments; a plain typed
/// parameter contributes its name and outer type name; a parameter
/// that cannot be read is skipped with a diagnostic.
pub open spec fn extract_params(
    params: Seq<Param>,
    fname: Seq<char>,
    fline: int,
    ctx: Seq<char>,
    args: Seq<FnArgsView>,
    diags: Seq<DiagnosticView>,
) -> FnExtract
    decreases params.len(),
{
    if params.len() == 0 {
        FnExtract { context: ctx, args, diags }
    } else {
        match params[0] {
            Param::Opaque => extract_params(
                params.drop_first(),
                fname,
                fline,
                ctx,
                args,
                diags.push(DiagnosticView::UnclassifiedParameter { function: fname, line: fline }),
            ),
            Param::Typed { name, ty } => {
                if ty.last_ident@ == "Context"@ {
                    let newctx = if ty.last_args@.len() > 0 {
                        match ty.last_args@[0] {
                            GenericArg::TypeName(t) => t@,
                            _ => ctx,
                        }
                    } else {
                        ctx
                    };
                    extract_params(params.drop_first(), fname, fline, newctx, args, diags)
                } else {
                    extract_params(
                        params.drop_first(),
                        fname,
                        fline,
                        ctx,
                        args.push(FnArgsView { name: name@, ty: ty.last_ident@ }),
                        diags,
                    )
                }
            },
        }
    }
}

/// The scan of a whole handler, started with no bound context.
pub open spec fn extract_fn_args_spec(f: FnDecl) -> FnExtract {
    extract_params(
        f.params@,
        f.name@,
        f.line as int,
        Seq::<char>::empty(),
        Seq::<FnArgsView>::empty(),
        Seq::<DiagnosticView>::empty(),
    )
}

/// Read one handler signature; see [`extract_fn_args_spec`].  Skipped
/// parameters are recorded in `diags`.
pub fn extract_fn_args(fn_item: &FnDecl, diags: &mut Vec<Diagnostic>) -> (r:
    NormalizedFunctionArgs)
    ensures
        r@.name == fn_item.name@,
        r@.line == fn_item.line as int,
        r@.context == extract_fn_args_spec(*fn_item).context,
        r@.args == extract_fn_args_spec(*fn_item).args,
        diagnostics_view(final(diags)@) == diagnostics_view(old(diags)@) + extract_fn_args_spec(
            *fn_item,
        ).diags,
{
    let mut context: String = String::new();
    let mut args: Vec<FnArgs> = Vec::new();
    let ghost goal = extract_fn_args_spec(*fn_item);
    let ghost mut added = Seq::<DiagnosticView>::empty();
    let n = fn_item.params.len();
    let mut i: usize = 0;
    proof {
        assert(fn_item.params@.skip(0) =~= fn_item.params@);
        assert(fn_args_view(args@) =~= Seq::<FnArgsView>::empty());
    }
    while i < n
        invariant
            0 <= i <= n,
            n == fn_item.params@.len(),
            goal == extract_fn_args_spec(*fn_item),
            extract_params(
                fn_item.params@.skip(i as int),
                fn_item.name@,
                fn_item.line as int,
                context@,
                fn_args_view(args@),
                added,
            ) == goal,
            diagnostics_view(diags@) == diagnostics_view(old(diags)@) + added,
        decreases n - i,
    {
        let p: &Param = &fn_item.params[i];
        proof {
            assert(fn_item.params@.skip(i as int)[0] == fn_item.params@[i as int]);
            assert(fn_item.params@.skip(i as int).drop_first() =~= fn_item.params@.skip(
                i as int + 1,
            ));
        }
        match p {
            Param::Opaque => {
                let ghost dprior = diagnostics_view(diags@);
                diags.push(
                    Diagnostic::UnclassifiedParameter {
                        function: fn_item.name.clone(),
                        line: fn_item.line,
                    },
                );
                proof {
                    let dv = DiagnosticView::UnclassifiedParameter {
                        function: fn_item.name@,
                        line: fn_item.line as int,
                    };
                    assert(diagnostics_view(diags@) =~= dprior.push(dv));
                    added = added.push(dv);
                    assert(diagnostics_view(diags@) =~= diagnostics_view(old(diags)@) + added);
                }
            },
            Param::Typed { name, ty } => {
                if str_eq(ty.last_ident.as_str(), "Context") {
                    if ty.last_args.len() > 0 {
                        let first_arg: &GenericArg = &ty.last_args[0];
                        match first_arg {
                            GenericArg::TypeName(t) => {
                                context = t.clone();
                            },
                            _ => {
                            },
                        }
                    }
                } else {
                    let ghost aprior = fn_args_view(args@);
                    args.push(FnArgs { name: name.clone(), ty: ty.last_ident.clone() });
                    proof {
                        assert(fn_args_view(args@) =~= aprior.push(
                            FnArgsView { name: name@, ty: ty.last_ident@ },
                        ));
                    }
                }
            },
        }
        i = i + 1;
    }
    proof {
        assert(fn_item.params@.skip(n as int) =~= Seq::<Param>::empty());
    }
    let r = NormalizedFunctionArgs {
        name: fn_item.name.clone(),
        context,
        args,
        line: fn_item.line,
    };
    r
}

/// The storage field type names of a struct: each field's last path
/// segment identifier, an empty name for a field without a plain path
/// type (no primitive size is defined for it, so such a struct is
/// excluded from size comparison).
pub open spec fn storage_field_types_spec(fields: Seq<FieldDecl>) -> Seq<Seq<char>> {
    fields.map_values(
        |f: FieldDecl|
            match f.ty {
                Some(t) => t.last_ident@,
                None => Seq::<char>::empty(),
            },
    )
}

/// The storage view of one struct.
pub open spec fn storage_struct_spec(s: StructDecl) -> StorageStructView {
    StorageStructView { name: s.name@, field_types: storage_field_types_spec(s.fields@) }
}

fn storage_field_types(s: &StructDecl) -> (r: Vec<String>)
    ensures
        strings_view(r@) == storage_field_types_spec(s.fields@),
{
    let n = s.fields.len();
    let mut out: Vec<String> = Vec::new();
    let mut i: usize = 0;
    proof {
        assert(strings_view(out@) =~= storage_field_types_spec(s.fields@.take(0)));
    }
    while i < n
        invariant
            0 <= i <= n,
            n == s.fields@.len(),
            strings_view(out@) == storage_field_types_spec(s.fields@.take(i as int)),
        decreases n - i,
    {
        let field: &FieldDecl = &s.fields[i];
        let ghost prior = out@;
        match &field.ty {
            Some(t) => {
                out.push(t.last_ident.clone());
            },
            None => {
                out.push(String::new());
            },
        }
        proof {
            assert(strings_view(out@) =~= strings_view(prior).push(
                match s.fields@[i as int].ty {
                    Some(t) => t.last_ident@,
                    None => Seq::<char>::empty(),
                },
            ));
            assert(storage_field_types_spec(s.fields@.take(i as int + 1)) =~= storage_field_types_spec(
                s.fields@.take(i as int),
            ).push(
                match s.fields@[i as int].ty {
                    Some(t) => t.last_ident@,
                    None => Seq::<char>::empty(),
                },
            ));
        }
        i = i + 1;
    }
    proof {
        assert(s.fields@.take(n as int) =~= s.fields@);
    }
    out
}

/// The normalized account-context structs among the top-level items.
pub open spec fn account_structs_spec(items: Seq<Item>) -> Seq<AccountStructView>
    decreases items.len(),
{
    if items.len() == 0 {
        Seq::<AccountStructView>::empty()
    } else {
        account_structs_spec(items.drop_last()) + (match items.last() {
            Item::Struct(s) => if is_account_struct_spec(s) {
                seq![normal_struct_spec(s)]
            } else {
                Seq::<AccountStructView>::empty()
            },
            _ => Seq::<AccountStructView>::empty(),
        })
    }
}

/// The storage structs among the top-level items.
pub open spec fn storage_structs_spec(items: Seq<Item>) -> Seq<StorageStructView>
    decreases items.len(),
{
    if items.len() == 0 {
        Seq::<StorageStructView>::empty()
    } else {
        storage_structs_spec(items.drop_last()) + (match items.last() {
            Item::Struct(s) => if is_storage_struct_spec(s) {
                seq![storage_struct_spec(s)]
            } else {
                Seq::<StorageStructView>::empty()
            },
            _ => Seq::<StorageStructView>::empty(),
        })
    }
}

/// The instruction contexts declared by the top-level structs.
pub open spec fn instruction_ctxs_of_items(items: Seq<Item>) -> Seq<AccountInstructionsView>
    decreases items.len(),
{
    if items.len() == 0 {
        Seq::<AccountInstructionsView>::empty()
    } else {
        instruction_ctxs_of_items(items.drop_last()) + (match items.last() {
            Item::Struct(s) => if has_instruction_spec(s) {
                instruction_ctxs_spec(s)
            } else {
                Seq::<AccountInstructionsView>::empty()
            },
            _ => Seq::<AccountInstructionsView>::empty(),
        })
    }
}

/// The handler signatures of the functions directly inside one module.
pub open spec fn functions_of_module(mitems: Seq<Item>) -> Seq<FunctionArgsView>
    decreases mitems.len(),
{
    if mitems.len() == 0 {
        Seq::<FunctionArgsView>::empty()
    } else {
        functions_of_module(mitems.drop_last()) + (match mitems.last() {
            Item::Function(f) => seq![
                FunctionArgsView {
                    name: f.name@,
                    context: extract_fn_args_spec(f).context,
                    args: extract_fn_args_spec(f).args,
                    line: f.line as int,
                },
            ],
            _ => Seq::<FunctionArgsView>::empty(),
        })
    }
}

/// The skipped-parameter diagnostics of the functions of one module.
pub open spec fn module_diags_spec(mitems: Seq<Item>) -> Seq<DiagnosticView>
    decreases mitems.len(),
{
    if mitems.len() == 0 {
        Seq::<DiagnosticView>::empty()
    } else {
        module_diags_spec(mitems.drop_last()) + (match mitems.last() {
            Item::Function(f) => extract_fn_args_spec(f).diags,
            _ => Seq::<DiagnosticView>::empty(),
        })
    }
}

/// The handler signatures of every top-level module, in source order.
pub open spec fn functions_spec(items: Seq<Item>) -> Seq<FunctionArgsView>
    decreases items.len(),
{
    if items.len() == 0 {
        Seq::<FunctionArgsView>::empty()
    } else {
        functions_spec(items.drop_last()) + (match items.last() {
            Item::Module(m) => functions_of_module(m.items@),
            _ => Seq::<FunctionArgsView>::empty(),
        })
    }
}

/// The diagnostics of normalizing every top-level module.
pub open spec fn program_diags_spec(items: Seq<Item>) -> Seq<DiagnosticView>
    decreases items.len(),
{
    if items.len() == 0 {
        Seq::<DiagnosticView>::empty()
    } else {
        program_diags_spec(items.drop_last()) + (match items.last() {
            Item::Module(m) => module_diags_spec(m.items@),
            _ => Seq::<DiagnosticView>::empty(),
        })
    }
}

/// Normalize a whole source file: classify every top-level struct,
/// read every instruction marker, and read every handler signature
/// directly inside a top-level module.  Skipped parameters are
/// recorded in `diags`.
pub fn normalize_program(ast: &SourceFile, diags: &mut Vec<Diagnostic>) -> (r: (
    Vec<NormalizedAccountStruct>,
    Vec<StorageStruct>,
    Vec<AccountInstructions>,
    Vec<NormalizedFunctionArgs>,
))
    ensures
        r.0@.map_values(|x: NormalizedAccountStruct| x@) == account_structs_spec(ast.items@),
        r.1@.map_values(|x: StorageStruct| x@) == storage_structs_spec(ast.items@),
        r.2@.map_values(|x: AccountInstructions| x@) == instruction_ctxs_of_items(ast.items@),
        r.3@.map_values(|x: NormalizedFunctionArgs| x@) == functions_spec(ast.items@),
        diagnostics_view(final(diags)@) == diagnostics_view(old(diags)@) + program_diags_spec(
            ast.items@,
        ),
{
    let mut account_structs: Vec<NormalizedAccountStruct> = Vec::new();
    let mut storage_structs: Vec<StorageStruct> = Vec::new();
    let mut accounts_with_instructions: Vec<AccountInstructions> = Vec::new();
    let mut functions_args: Vec<NormalizedFunctionArgs> = Vec::new();
    let n = ast.items.len();
    let mut i: usize = 0;
    proof {
        assert(ast.items@.take(0) =~= Seq::<Item>::empty());
        assert(account_structs@.map_values(|x: NormalizedAccountStruct| x@)
            =~= account_structs_spec(ast.items@.take(0)));
        assert(storage_structs@.map_values(|x: StorageStruct| x@) =~= storage_structs_spec(
            ast.items@.take(0),
        ));
        assert(accounts_with_instructions@.map_values(|x: AccountInstructions| x@)
            =~= instruction_ctxs_of_items(ast.items@.take(0)));
        assert(functions_args@.map_values(|x: NormalizedFunctionArgs| x@) =~= functions_spec(
            ast.items@.take(0),
        ));
        assert(diagnostics_view(diags@) =~= diagnostics_view(old(diags)@) + program_diags_spec(
            ast.items@.take(0),
        ));
    }
    while i < n
        invariant
            0 <= i <= n,
            n == ast.items@.len(),
            account_structs@.map_values(|x: NormalizedAccountStruct| x@) == account_structs_spec(
                ast.items@.take(i as int),
            ),
            storage_structs@.map_values(|x: StorageStruct| x@) == storage_structs_spec(
                ast.items@.take(i as int),
            ),
            accounts_with_instructions@.map_values(|x: AccountInstructions| x@)
                == instruction_ctxs_of_items(ast.items@.take(i as int)),
            functions_args@.map_values(|x: NormalizedFunctionArgs| x@) == functions_spec(
                ast.items@.take(i as int),
            ),
            diagnostics_view(diags@) == diagnostics_view(old(diags)@) + program_diags_spec(
                ast.items@.take(i as int),
            ),
        decreases n - i,
    {
        let item: &Item = &ast.items[i];
        proof {
            assert(ast.items@.take(i as int + 1).drop_last() =~= ast.items@.take(i as int));
            assert(ast.items@.take(i as int + 1).last() == ast.items@[i as int]);
        }
        match item {
            Item::Struct(s) => {
                if is_anchor_account_struct(s) {
                    let normalized = normalize_struct(s);
                    let ghost prior = account_structs@;
                    account_structs.push(normalized);
                    proof {
                        assert(account_structs@.map_values(|x: NormalizedAccountStruct| x@)
                            =~= prior.map_values(|x: NormalizedAccountStruct| x@).push(
                            normal_struct_spec(*s),
                        ));
                    }
                }
                if account_struct_has_instruction(s) {
                    let more = extract_instruction_args(s);
                    let ghost prior = accounts_with_instructions@.map_values(
                        |x: AccountInstructions| x@,
                    );
                    let mut more_mut = more;
                    accounts_with_instructions.append(&mut more_mut);
                    proof {
                        assert(accounts_with_instructions@.map_values(|x: AccountInstructions| x@)
                            =~= prior + instruction_ctxs_spec(*s));
                    }
                }
                if is_anchor_storage_struct(s) {
                    let field_types = storage_field_types(s);
                    let entry = StorageStruct { name: s.name.clone(), field_types };
                    proof {
                        assert(entry@ =~~= storage_struct_spec(*s));
                    }
                    let ghost prior = storage_structs@;
                    storage_structs.push(entry);
                    proof {
                        assert(storage_structs@.map_values(|x: StorageStruct| x@)
                            =~= prior.map_values(|x: StorageStruct| x@).push(
                            storage_struct_spec(*s),
                        ));
                    }
                }
            },
            Item::Module(m) => {
                let nm = m.items.len();
                let mut k: usize = 0;
                proof {
                    assert(m.items@.take(0) =~= Seq::<Item>::empty());
                    assert(functions_args@.map_values(|x: NormalizedFunctionArgs| x@)
                        =~= functions_spec(ast.items@.take(i as int)) + functions_of_module(
                        m.items@.take(0),
                    ));
                    assert(diagnostics_view(diags@) =~= diagnostics_view(old(diags)@)
                        + program_diags_spec(ast.items@.take(i as int)) + module_diags_spec(
                        m.items@.take(0),
                    ));
                }
                while k < nm
                    invariant
                        0 <= k <= nm,
                        nm == m.items@.len(),
                        0 <= i < n,
                        n == ast.items@.len(),
                        account_structs@.map_values(|x: NormalizedAccountStruct| x@)
                            == account_structs_spec(ast.items@.take(i as int)),
                        storage_structs@.map_values(|x: StorageStruct| x@) == storage_structs_spec(
                            ast.items@.take(i as int),
                        ),
                        accounts_with_instructions@.map_values(|x: AccountInstructions| x@)
                            == instruction_ctxs_of_items(ast.items@.take(i as int)),
                        functions_args@.map_values(|x: NormalizedFunctionArgs| x@)
                            == functions_spec(ast.items@.take(i as int)) + functions_of_module(
                            m.items@.take(k as int),
                        ),
                        diagnostics_view(diags@) == diagnostics_view(old(diags)@)
                            + program_diags_spec(ast.items@.take(i as int)) + module_diags_spec(
                            m.items@.take(k as int),
                        ),
                    decreases nm - k,
                {
                    let inner: &Item = &m.items[k];
                    proof {
                        assert(m.items@.take(k as int + 1).drop_last() =~= m.items@.take(k as int));
                        assert(m.items@.take(k as int + 1).last() == m.items@[k as int]);
                    }
                    match inner {
                        Item::Function(func) => {
                            let extracted = extract_fn_args(func, diags);
                            let ghost prior = functions_args@.map_values(
                                |x: NormalizedFunctionArgs| x@,
                            );
                            functions_args.push(extracted);
                            proof {
                                assert(functions_args@.map_values(|x: NormalizedFunctionArgs| x@)
                                    =~~= prior.push(
                                    FunctionArgsView {
                                        name: func.name@,
                                        context: extract_fn_args_spec(*func).context,
                                        args: extract_fn_args_spec(*func).args,
                                        line: func.line as int,
                                    },
                                ));
                            }
                        },
                        _ => {
                        },
                    }
                    k = k + 1;
                }
                proof {
                    assert(m.items@.take(nm as int) =~= m.items@);
                }
            },
            _ => {
            },
        }
        i = i + 1;
    }
    proof {
        assert(ast.items@.take(n as int) =~= ast.items@);
    }
    (account_structs, storage_structs, accounts_with_instructions, functions_args)
}

} // verus!
