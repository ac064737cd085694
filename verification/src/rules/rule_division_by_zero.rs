//! Possible division by zero: walk every function body's expression
//! tree, tracking the innermost enclosing function's name.  A binary
//! division whose right operand is syntactically a single bare
//! identifier is recorded; literal and compound divisors are deliberate
//! non-matches, trading recall for a very low false-positive cost.

use vstd::prelude::*;
use crate::knowledge_base::{
    findings_view,
    Finding,
    FindingView,
    PossibleDivisionByZeroFinding,
    PossibleDivisionByZeroView,
    RuleCode,
};
use crate::report::Report;
use crate::state::{DivisionSiteView, PossibleDivisionByZeroFindingCheckerInstance};
use crate::syntax::{ExprTree, Item, SourceFile};

verus! {

/// View of a list of division sites.
pub open spec fn sites_view(s: Seq<PossibleDivisionByZeroFindingCheckerInstance>) -> Seq<
    DivisionSiteView,
> {
    s.map_values(|x: PossibleDivisionByZeroFindingCheckerInstance| x@)
}

/// Division sites of one expression, inside the function named `cur`.
/// A division records a site first when its right operand is a bare
/// identifier, then yields the sites of its operands; a nested function
/// renames the walk for its own body.
pub open spec fn expr_div_sites(e: ExprTree, cur: Seq<char>) -> Seq<DivisionSiteView>
    decreases e,
{
    match e {
        ExprTree::Ident(_) => Seq::<DivisionSiteView>::empty(),
        ExprTree::Div(line, l, r) => {
            (match *r {
                ExprTree::Ident(name) => seq![
                    DivisionSiteView { function_name: cur, divisor: name@, line: line as int },
                ],
                _ => Seq::<DivisionSiteView>::empty(),
            }) + expr_div_sites(*l, cur) + expr_div_sites(*r, cur)
        },
        ExprTree::Func(name, body) => body_div_sites(body@, name@),
        ExprTree::Node(children) => body_div_sites(children@, cur),
    }
}

/// Division sites of a list of expressions, in source order.
pub open spec fn body_div_sites(es: Seq<ExprTree>, cur: Seq<char>) -> Seq<DivisionSiteView>
    decreases es,
{
    if es.len() == 0 {
        Seq::<DivisionSiteView>::empty()
    } else {
        body_div_sites(es.drop_last(), cur) + expr_div_sites(es.last(), cur)
    }
}

/// Division sites of one item: a function walks its body under its own
/// name, a module walks its items, anything else holds none.
pub open spec fn item_div_sites(it: Item, cur: Seq<char>) -> Seq<DivisionSiteView>
    decreases it,
{
    match it {
        Item::Function(f) => body_div_sites(f.body@, f.name@),
        Item::Module(m) => items_div_sites(m.items@, cur),
        _ => Seq::<DivisionSiteView>::empty(),
    }
}

/// Division sites of a list of items, in source order.
pub open spec fn items_div_sites(items: Seq<Item>, cur: Seq<char>) -> Seq<DivisionSiteView>
    decreases items,
{
    if items.len() == 0 {
        Seq::<DivisionSiteView>::empty()
    } else {
        items_div_sites(items.drop_last(), cur) + item_div_sites(items.last(), cur)
    }
}

/// Division sites of a whole source file, walked with starting
/// function name `cur` (empty outside any function).
pub open spec fn source_div_sites(file: SourceFile, cur: Seq<char>) -> Seq<DivisionSiteView> {
    items_div_sites(file.items@, cur)
}

fn walk_expr(
    e: &ExprTree,
    cur: &String,
    out: &mut Vec<PossibleDivisionByZeroFindingCheckerInstance>,
)
    ensures
        sites_view(final(out)@) == sites_view(old(out)@) + expr_div_sites(*e, cur@),
    decreases *e,
{
    match e {
        ExprTree::Ident(_) => {
        },
        ExprTree::Div(line, l, r) => {
            if let ExprTree::Ident(name) = &**r {
                let ghost prior = out@;
                out.push(
                    PossibleDivisionByZeroFindingCheckerInstance {
                        function_name: cur.clone(),
                        divisor: name.clone(),
                        line: *line,
                    },
                );
                proof {
                    assert(sites_view(out@) =~= sites_view(prior).push(
                        DivisionSiteView {
                            function_name: cur@,
                            divisor: name@,
                            line: *line as int,
                        },
                    ));
                }
            }
            walk_expr(l, cur, out);
            walk_expr(r, cur, out);
            proof {
                assert(sites_view(out@) =~= sites_view(old(out)@) + expr_div_sites(*e, cur@));
            }
        },
        ExprTree::Func(name, body) => {
            walk_exprs(body, name, out);
        },
        ExprTree::Node(children) => {
            walk_exprs(children, cur, out);
        },
    }
}

fn walk_exprs(
    es: &Vec<ExprTree>,
    cur: &String,
    out: &mut Vec<PossibleDivisionByZeroFindingCheckerInstance>,
)
    ensures
        sites_view(final(out)@) == sites_view(old(out)@) + body_div_sites(es@, cur@),
    decreases es@,
{
    let n = es.len();
    let mut i: usize = 0;
    proof {
        assert(body_div_sites(es@.take(0), cur@) =~= Seq::<DivisionSiteView>::empty());
        assert(sites_view(out@) =~= sites_view(out@) + body_div_sites(es@.take(0), cur@));
    }
    while i < n
        invariant
            0 <= i <= n,
            n == es@.len(),
            sites_view(out@) == sites_view(old(out)@) + body_div_sites(es@.take(i as int), cur@),
        decreases n - i,
    {
        proof {
            assert(es@.take(i as int + 1).drop_last() =~= es@.take(i as int));
            assert(es@.take(i as int + 1).last() == es@[i as int]);
        }
        walk_expr(&es[i], cur, out);
        i = i + 1;
    }
    proof {
        assert(es@.take(n as int) =~= es@);
    }
}

fn walk_item(
    it: &Item,
    cur: &String,
    out: &mut Vec<PossibleDivisionByZeroFindingCheckerInstance>,
)
    ensures
        sites_view(final(out)@) == sites_view(old(out)@) + item_div_sites(*it, cur@),
    decreases *it,
{
    match it {
        Item::Function(f) => {
            walk_exprs(&f.body, &f.name, out);
        },
        Item::Module(m) => {
            walk_items(&m.items, cur, out);
        },
        _ => {
        },
    }
}

fn walk_items(
    items: &Vec<Item>,
    cur: &String,
    out: &mut Vec<PossibleDivisionByZeroFindingCheckerInstance>,
)
    ensures
        sites_view(final(out)@) == sites_view(old(out)@) + items_div_sites(items@, cur@),
    decreases items@,
{
    let n = items.len();
    let mut i: usize = 0;
    proof {
        assert(items_div_sites(items@.take(0), cur@) =~= Seq::<DivisionSiteView>::empty());
        assert(sites_view(out@) =~= sites_view(out@) + items_div_sites(items@.take(0), cur@));
    }
    while i < n
        invariant
            0 <= i <= n,
            n == items@.len(),
            sites_view(out@) == sites_view(old(out)@) + items_div_sites(
                items@.take(i as int),
                cur@,
            ),
        decreases n - i,
    {
        proof {
            assert(items@.take(i as int + 1).drop_last() =~= items@.take(i as int));
            assert(items@.take(i as int + 1).last() == items@[i as int]);
        }
        walk_item(&items[i], cur, out);
        i = i + 1;
    }
    proof {
        assert(items@.take(n as int) =~= items@);
    }
}

/// Walker state: the sites collected so far and the name the walk
/// starts under (empty outside any function).
pub struct PossibleDivisionByZeroChecker {
    pub instance: Vec<PossibleDivisionByZeroFindingCheckerInstance>,
    pub current_fn: String,
}

impl PossibleDivisionByZeroChecker {
    /// Walk a whole source file, appending every division site found;
    /// see [`source_div_sites`].
    pub fn visit_source_file(&mut self, file: &SourceFile)
        ensures
            sites_view(final(self).instance@) == sites_view(old(self).instance@)
                + source_div_sites(*file, old(self).current_fn@),
            final(self).current_fn == old(self).current_fn,
    {
        let cur = self.current_fn.clone();
        walk_items(&file.items, &cur, &mut self.instance);
    }
}

/// The finding raised for one recorded division site.
pub open spec fn site_finding_view(s: DivisionSiteView) -> FindingView {
    FindingView::PossibleDivisionByZero(
        PossibleDivisionByZeroView {
            rule: RuleCode::PossibleDivisionByZero,
            line: s.line,
            fn_name: s.function_name,
            divisor: s.divisor,
        },
    )
}

/// One finding per division site of the file, in walk order.
pub open spec fn division_findings(file: SourceFile) -> Seq<FindingView> {
    source_div_sites(file, Seq::<char>::empty()).map_values(
        |s: DivisionSiteView| site_finding_view(s),
    )
}

/// Flag every division by a bare identifier in the file; see
/// [`division_findings`].
pub fn rules_division_by_variable(ast: &SourceFile, r: &mut Report)
    ensures
        findings_view(final(r).findings@) == findings_view(old(r).findings@) + division_findings(
            *ast,
        ),
        final(r).diagnostics@ == old(r).diagnostics@,
        final(r).file_info == old(r).file_info,
        final(r).file_path == old(r).file_path,
{
    let mut checker = PossibleDivisionByZeroChecker {
        instance: Vec::new(),
        current_fn: String::new(),
    };
    checker.visit_source_file(ast);
    let ghost sites = sites_view(checker.instance@);
    proof {
        assert(sites =~= source_div_sites(*ast, Seq::<char>::empty()));
    }
    let n = checker.instance.len();
    let mut i: usize = 0;
    proof {
        assert(findings_view(r.findings@) =~= findings_view(old(r).findings@) + sites.take(
            0,
        ).map_values(|s: DivisionSiteView| site_finding_view(s)));
    }
    while i < n
        invariant
            0 <= i <= n,
            n == checker.instance@.len(),
            sites == sites_view(checker.instance@),
            sites =~= source_div_sites(*ast, Seq::<char>::empty()),
            findings_view(r.findings@) == findings_view(old(r).findings@) + sites.take(
                i as int,
            ).map_values(|s: DivisionSiteView| site_finding_view(s)),
            r.diagnostics@ == old(r).diagnostics@,
            r.file_info == old(r).file_info,
            r.file_path == old(r).file_path,
        decreases n - i,
    {
        let p: &PossibleDivisionByZeroFindingCheckerInstance = &checker.instance[i];
        proof {
            assert(sites[i as int] == p@);
        }
        let ghost prior = r.findings@;
        r.add(
            Finding::PossibleDivisionByZero(
                PossibleDivisionByZeroFinding {
                    rule: RuleCode::PossibleDivisionByZero,
                    fn_name: p.function_name.clone(),
                    line: p.line,
                    divisor: p.divisor.clone(),
                },
            ),
        );
        proof {
            assert(findings_view(r.findings@) =~= findings_view(prior).push(
                site_finding_view(sites[i as int]),
            ));
            assert(sites.take(i as int + 1).map_values(
                |s: DivisionSiteView| site_finding_view(s),
            ) =~= sites.take(i as int).map_values(|s: DivisionSiteView| site_finding_view(s)).push(
                site_finding_view(sites[i as int]),
            ));
        }
        i = i + 1;
    }
    proof {
        assert(sites.take(n as int) =~= sites);
        assert(findings_view(r.findings@) =~= findings_view(old(r).findings@) + division_findings(
            *ast,
        ));
    }
}

} // verus!
