//! Best-effort static reconstruction of the string an expression evaluates
//! to: the message extractor.
//!
//! Extraction is total: a string literal yields its value, a template literal
//! concatenates its fragments with the extraction of each interpolated
//! sub-expression, a binary expression concatenates the extraction of its two
//! operands (the operator is assumed to be string concatenation and is never
//! checked), and every other shape degrades to the `%s` placeholder.
use vstd::prelude::*;

use crate::ast::{Expr, ExprV, expr_view, exprs_view};

verus! {

/// The placeholder that stands in for any sub-expression whose value is not
/// statically known.
pub open spec fn placeholder() -> Seq<char> {
    "%s"@
}

/// The fixed placeholder token as text.
pub fn placeholder_text() -> (r: &'static str)
    ensures
        r@ == placeholder(),
{
    "%s"
}

/// What extraction yields on an expression: the static best-effort
/// reconstruction of its runtime string value.
pub open spec fn extract_spec(e: ExprV) -> Seq<char>
    decreases e,
{
    match e {
        ExprV::Str(s) => s,
        ExprV::Tpl { quasis, exprs } => tpl_extract_from(quasis, exprs, 0),
        ExprV::Bin { left, right } => extract_spec(*left) + extract_spec(*right),
        ExprV::New { .. } => placeholder(),
        ExprV::Call { .. } => placeholder(),
        ExprV::Member { .. } => placeholder(),
        ExprV::Ident(_) => placeholder(),
        ExprV::Object { .. } => placeholder(),
        ExprV::Other => placeholder(),
    }
}

/// The extraction of a template literal from fragment `i` on: each literal
/// fragment in source order, followed by the extraction of the interpolated
/// sub-expression that comes after it, if there is one.
pub open spec fn tpl_extract_from(quasis: Seq<Seq<char>>, exprs: Seq<ExprV>, i: int) -> Seq<char>
    decreases exprs, quasis.len() - i,
{
    if i < 0 || i >= quasis.len() {
        Seq::empty()
    } else if i < exprs.len() {
        quasis[i] + extract_spec(exprs[i]) + tpl_extract_from(quasis, exprs, i + 1)
    } else {
        quasis[i] + tpl_extract_from(quasis, exprs, i + 1)
    }
}

/// Extracts the best-effort static string value of `e`.
pub fn extract(e: &Expr) -> (r: String)
    ensures
        r@ == extract_spec(e@),
    decreases *e,
{
    match e {
        Expr::Str(s) => s.clone(),
        Expr::Tpl { quasis, exprs } => extract_tpl(quasis, exprs, 0),
        Expr::Bin { left, right } => {
            let l = extract(left);
            let r = extract(right);
            l.concat(r.as_str())
        },
        _ => placeholder_text().to_owned(),
    }
}

/// Extracts a template literal from fragment `i` on.
fn extract_tpl(quasis: &Vec<String>, exprs: &Vec<Expr>, i: usize) -> (r: String)
    ensures
        r@ == tpl_extract_from(quasis.deep_view(), exprs_view(exprs@), i as int),
    decreases exprs@, quasis.len() - i,
{
    proof {
        crate::ast::lemma_exprs_view_pointwise(exprs@);
    }
    if i >= quasis.len() {
        String::new()
    } else if i < exprs.len() {
        let mut r = quasis[i].clone();
        let sub = extract(&exprs[i]);
        r.append(sub.as_str());
        let rest = extract_tpl(quasis, exprs, i + 1);
        r.append(rest.as_str());
        r
    } else {
        let mut r = quasis[i].clone();
        let rest = extract_tpl(quasis, exprs, i + 1);
        r.append(rest.as_str());
        r
    }
}

} // verus!
