//! The tree rewriter: finds every error-construction site in an expression
//! tree and wraps it so the constructed error carries its diagnostic code.
//!
//! A construction site is a `new` expression whose callee is the identifier
//! of the built-in error constructor and which has at least one argument.
//! Each site becomes a call to the shallow-merge builtin whose first operand
//! is the construction expression itself, unchanged, and whose second operand
//! is an object literal with exactly one property: the reserved key mapped to
//! the diagnostic code of the extracted message. Everything else about the
//! expression — evaluation order, the arguments, the surrounding shape — is
//! left as it was.
use vstd::prelude::*;

use crate::ast::{Expr, ExprV, Prop, PropV, expr_view, exprs_view, props_view};
use crate::extract::{extract, extract_spec, tpl_extract_from};
use crate::registry::{code_of, register};

verus! {

/// The name of the built-in error constructor.
pub open spec fn error_callee_name() -> Seq<char> {
    "Error"@
}

/// The object whose static method performs a shallow merge of attributes.
pub open spec fn merge_object_name() -> Seq<char> {
    "Object"@
}

/// The shallow-merge method on that object.
pub open spec fn merge_method_name() -> Seq<char> {
    "assign"@
}

/// The reserved property key the diagnostic code is attached under.
pub open spec fn reserved_key() -> Seq<char> {
    "nextjs_internal_error_code"@
}

/// Whether `e` is a construction site: a `new` of the error constructor
/// with at least one argument. Trailing arguments beyond the first are
/// allowed and preserved; only the first is ever inspected.
pub open spec fn is_site(e: ExprV) -> bool {
    &&& e matches ExprV::New { callee, args }
    &&& *callee matches ExprV::Ident(name)
    &&& name == error_callee_name()
    &&& args.len() > 0
}

/// The replacement for a construction site: a call of the shallow-merge
/// builtin on the site itself and a one-property object literal carrying
/// `code` under the reserved key.
pub open spec fn attach_code(site: ExprV, code: Seq<char>) -> ExprV {
    ExprV::Call {
        callee: Box::new(
            ExprV::Member {
                obj: Box::new(ExprV::Ident(merge_object_name())),
                prop: merge_method_name(),
            },
        ),
        args: seq![
            site,
            ExprV::Object {
                props: seq![PropV { key: reserved_key(), value: ExprV::Str(code) }],
            },
        ],
    }
}

/// What rewriting yields on an expression: children first, so that every
/// site in the tree is covered exactly once, then, where the node itself is
/// a site, the wrapper that attaches the code of the message extracted from
/// the site's first argument. A freshly built wrapper is inserted as is and
/// never revisited.
pub open spec fn rewrite_spec(e: ExprV) -> ExprV
    decreases e,
{
    match e {
        ExprV::Str(s) => ExprV::Str(s),
        ExprV::Tpl { quasis, exprs } => ExprV::Tpl { quasis, exprs: rewrite_list(exprs) },
        ExprV::Bin { left, right } => ExprV::Bin {
            left: Box::new(rewrite_spec(*left)),
            right: Box::new(rewrite_spec(*right)),
        },
        ExprV::New { callee, args } => {
            let rewritten = ExprV::New {
                callee: Box::new(rewrite_spec(*callee)),
                args: rewrite_list(args),
            };
            if is_site(e) {
                attach_code(rewritten, code_of(extract_spec(args[0])))
            } else {
                rewritten
            }
        },
        ExprV::Call { callee, args } => ExprV::Call {
            callee: Box::new(rewrite_spec(*callee)),
            args: rewrite_list(args),
        },
        ExprV::Member { obj, prop } => ExprV::Member {
            obj: Box::new(rewrite_spec(*obj)),
            prop,
        },
        ExprV::Ident(name) => ExprV::Ident(name),
        ExprV::Object { props } => ExprV::Object { props: rewrite_props(props) },
        ExprV::Other => ExprV::Other,
    }
}

/// Rewrites a list of expressions, element by element, in order.
pub open spec fn rewrite_list(es: Seq<ExprV>) -> Seq<ExprV>
    decreases es,
{
    if es.len() == 0 {
        Seq::empty()
    } else {
        seq![rewrite_spec(es[0])] + rewrite_list(es.drop_first())
    }
}

/// Rewrites the values of a list of object-literal properties.
pub open spec fn rewrite_props(ps: Seq<PropV>) -> Seq<PropV>
    decreases ps,
{
    if ps.len() == 0 {
        Seq::empty()
    } else {
        seq![PropV { key: ps[0].key, value: rewrite_spec(ps[0].value) }]
            + rewrite_props(ps.drop_first())
    }
}

/// `rewrite_list` maps the list pointwise.
pub proof fn lemma_rewrite_list_pointwise(es: Seq<ExprV>)
    ensures
        rewrite_list(es).len() == es.len(),
        forall|i: int| 0 <= i < es.len() ==> rewrite_list(es)[i] == rewrite_spec(es[i]),
    decreases es,
{
    if es.len() > 0 {
        lemma_rewrite_list_pointwise(es.drop_first());
    }
}

/// `rewrite_props` maps the list pointwise.
pub proof fn lemma_rewrite_props_pointwise(ps: Seq<PropV>)
    ensures
        rewrite_props(ps).len() == ps.len(),
        forall|i: int| 0 <= i < ps.len() ==> rewrite_props(ps)[i]
            == (PropV { key: ps[i].key, value: rewrite_spec(ps[i].value) }),
    decreases ps,
{
    if ps.len() > 0 {
        lemma_rewrite_props_pointwise(ps.drop_first());
    }
}

/// Whether no construction site occurs anywhere in `e`.
pub open spec fn site_free(e: ExprV) -> bool
    decreases e,
{
    &&& !is_site(e)
    &&& match e {
        ExprV::Str(_) => true,
        ExprV::Tpl { exprs, .. } => list_site_free(exprs),
        ExprV::Bin { left, right } => site_free(*left) && site_free(*right),
        ExprV::New { callee, args } => site_free(*callee) && list_site_free(args),
        ExprV::Call { callee, args } => site_free(*callee) && list_site_free(args),
        ExprV::Member { obj, .. } => site_free(*obj),
        ExprV::Ident(_) => true,
        ExprV::Object { props } => props_site_free(props),
        ExprV::Other => true,
    }
}

/// Whether no construction site occurs in any element of `es`.
pub open spec fn list_site_free(es: Seq<ExprV>) -> bool
    decreases es,
{
    if es.len() == 0 {
        true
    } else {
        site_free(es[0]) && list_site_free(es.drop_first())
    }
}

/// Whether no construction site occurs in any property value of `ps`.
pub open spec fn props_site_free(ps: Seq<PropV>) -> bool
    decreases ps,
{
    if ps.len() == 0 {
        true
    } else {
        site_free(ps[0].value) && props_site_free(ps.drop_first())
    }
}

/// Law: an expression that holds no construction site anywhere is never
/// mutated by the rewrite.
pub proof fn lemma_rewrite_site_free_identity(e: ExprV)
    requires
        site_free(e),
    ensures
        rewrite_spec(e) == e,
    decreases e,
{
    match e {
        ExprV::Str(_) => {},
        ExprV::Tpl { quasis, exprs } => {
            lemma_rewrite_list_site_free_identity(exprs);
        },
        ExprV::Bin { left, right } => {
            lemma_rewrite_site_free_identity(*left);
            lemma_rewrite_site_free_identity(*right);
        },
        ExprV::New { callee, args } => {
            lemma_rewrite_site_free_identity(*callee);
            lemma_rewrite_list_site_free_identity(args);
        },
        ExprV::Call { callee, args } => {
            lemma_rewrite_site_free_identity(*callee);
            lemma_rewrite_list_site_free_identity(args);
        },
        ExprV::Member { obj, .. } => {
            lemma_rewrite_site_free_identity(*obj);
        },
        ExprV::Ident(_) => {},
        ExprV::Object { props } => {
            lemma_rewrite_props_site_free_identity(props);
        },
        ExprV::Other => {},
    }
}

/// Law: a list of site-free expressions is rewritten to itself.
pub proof fn lemma_rewrite_list_site_free_identity(es: Seq<ExprV>)
    requires
        list_site_free(es),
    ensures
        rewrite_list(es) == es,
    decreases es,
{
    if es.len() > 0 {
        lemma_rewrite_site_free_identity(es[0]);
        lemma_rewrite_list_site_free_identity(es.drop_first());
        assert(seq![es[0]] + es.drop_first() =~= es);
    }
}

/// Law: a list of properties with site-free values is rewritten to itself.
pub proof fn lemma_rewrite_props_site_free_identity(ps: Seq<PropV>)
    requires
        props_site_free(ps),
    ensures
        rewrite_props(ps) == ps,
    decreases ps,
{
    if ps.len() > 0 {
        lemma_rewrite_site_free_identity(ps[0].value);
        lemma_rewrite_props_site_free_identity(ps.drop_first());
        assert(seq![PropV { key: ps[0].key, value: rewrite_spec(ps[0].value) }] + ps.drop_first()
            =~= ps);
    }
}

/// Law: the rewrite never changes what extraction reads off an expression,
/// so the message of a site is the same whether it is extracted before or
/// after nested sites inside it were rewritten.
pub proof fn lemma_extract_of_rewrite(e: ExprV)
    ensures
        extract_spec(rewrite_spec(e)) == extract_spec(e),
    decreases e,
{
    match e {
        ExprV::Tpl { quasis, exprs } => {
            lemma_tpl_extract_of_rewrite(quasis, exprs, 0);
        },
        ExprV::Bin { left, right } => {
            lemma_extract_of_rewrite(*left);
            lemma_extract_of_rewrite(*right);
        },
        _ => {},
    }
}

/// The extraction of a template literal from fragment `i` on is unchanged
/// by rewriting its interpolated sub-expressions.
proof fn lemma_tpl_extract_of_rewrite(quasis: Seq<Seq<char>>, exprs: Seq<ExprV>, i: int)
    ensures
        tpl_extract_from(quasis, rewrite_list(exprs), i) == tpl_extract_from(quasis, exprs, i),
    decreases exprs, quasis.len() - i,
{
    lemma_rewrite_list_pointwise(exprs);
    if 0 <= i < quasis.len() {
        if i < exprs.len() {
            lemma_extract_of_rewrite(exprs[i]);
        }
        lemma_tpl_extract_of_rewrite(quasis, exprs, i + 1);
    }
}

/// The arguments of a `new` expression; empty for any other shape.
pub open spec fn site_args(e: ExprV) -> Seq<ExprV> {
    match e {
        ExprV::New { args, .. } => args,
        _ => Seq::empty(),
    }
}

/// The message a construction site carries: the extraction of its first
/// argument.
pub open spec fn site_message(e: ExprV) -> Seq<char>
    recommends
        is_site(e),
{
    extract_spec(site_args(e)[0])
}

/// Law: at any construction site the rewrite yields the shallow-merge
/// wrapper: its first operand is the site itself, with nested sites inside
/// its children rewritten in turn, and its reserved field carries the code
/// of the message extracted from the site's original first argument.
pub proof fn lemma_rewrite_site_shape(e: ExprV)
    requires
        is_site(e),
    ensures
        e matches ExprV::New { callee, args } ==> rewrite_spec(e) == attach_code(
            ExprV::New { callee: Box::new(rewrite_spec(*callee)), args: rewrite_list(args) },
            code_of(site_message(e)),
        ),
{
}

/// Law: at a construction site whose arguments hold no nested site, the
/// rewrite is exactly the wrapper: the site itself, preserved unmodified as
/// the first operand, beside an object literal binding the reserved key to
/// the code of the site's extracted message.
pub proof fn lemma_rewrite_at_site(e: ExprV)
    requires
        is_site(e),
        list_site_free(site_args(e)),
    ensures
        rewrite_spec(e) == attach_code(e, code_of(site_message(e))),
{
    match e {
        ExprV::New { callee, args } => {
            lemma_rewrite_site_free_identity(*callee);
            lemma_rewrite_list_site_free_identity(args);
        },
        _ => {},
    }
}

/// Law: an error construction without arguments is no site, and where its
/// callee is the bare constructor identifier it is left entirely unmodified.
pub proof fn lemma_no_argument_construction_untouched(e: ExprV)
    requires
        e == (ExprV::New {
            callee: Box::new(ExprV::Ident(error_callee_name())),
            args: Seq::<ExprV>::empty(),
        }),
    ensures
        !is_site(e),
        rewrite_spec(e) == e,
{
    assert(site_free(ExprV::Ident(error_callee_name())));
    assert(list_site_free(Seq::<ExprV>::empty()));
    assert(site_free(e));
    lemma_rewrite_site_free_identity(e);
}

/// Whether `e` is the identifier of the error constructor.
fn is_error_ident(e: &Expr) -> (r: bool)
    ensures
        r == (e@ matches ExprV::Ident(name) && name == error_callee_name()),
{
    match e {
        Expr::Ident(name) => {
            let target = "Error".to_owned();
            *name == target
        },
        _ => false,
    }
}

/// Builds the wrapper that attaches `code` to a rewritten site.
fn attach_code_exec(site: Expr, code: String) -> (r: Expr)
    ensures
        r@ == attach_code(site@, code@),
{
    let ghost site_v = site@;
    let ghost code_v = code@;
    let mut props: Vec<Prop> = Vec::new();
    props.push(Prop { key: "nextjs_internal_error_code".to_owned(), value: Expr::Str(code) });
    let ghost props_v = props@;
    let mut args: Vec<Expr> = Vec::new();
    args.push(site);
    args.push(Expr::Object { props });
    let ghost args_v = args@;
    let r = Expr::Call {
        callee: Box::new(
            Expr::Member {
                obj: Box::new(Expr::Ident("Object".to_owned())),
                prop: "assign".to_owned(),
            },
        ),
        args,
    };
    proof {
        reveal_with_fuel(expr_view, 4);
        crate::ast::lemma_props_view_pointwise(props_v);
        assert(props_view(props_v) =~= seq![
            PropV { key: reserved_key(), value: ExprV::Str(code_v) },
        ]);
        crate::ast::lemma_exprs_view_pointwise(args_v);
        assert(exprs_view(args_v) =~= seq![
            site_v,
            ExprV::Object { props: props_view(props_v) },
        ]);
    }
    r
}

/// Rewrites every construction site in `e`, nested ones included, exactly
/// once, and leaves every other expression as it was.
pub fn rewrite(e: Expr) -> (r: Expr)
    ensures
        r@ == rewrite_spec(e@),
    decreases e,
{
    match e {
        Expr::Str(s) => Expr::Str(s),
        Expr::Tpl { quasis, exprs } => Expr::Tpl { quasis, exprs: rewrite_vec(exprs) },
        Expr::Bin { left, right } => Expr::Bin {
            left: Box::new(rewrite(*left)),
            right: Box::new(rewrite(*right)),
        },
        Expr::New { callee, args } => {
            let site_code: Option<String> = if is_error_ident(&callee) && args.len() > 0 {
                let message = extract(&args[0]);
                Some(register(message.as_str()))
            } else {
                None
            };
            proof {
                crate::ast::lemma_exprs_view_pointwise(args@);
            }
            let rewritten = Expr::New { callee: Box::new(rewrite(*callee)), args: rewrite_vec(args) };
            match site_code {
                Some(code) => attach_code_exec(rewritten, code),
                None => rewritten,
            }
        },
        Expr::Call { callee, args } => Expr::Call {
            callee: Box::new(rewrite(*callee)),
            args: rewrite_vec(args),
        },
        Expr::Member { obj, prop } => Expr::Member { obj: Box::new(rewrite(*obj)), prop },
        Expr::Ident(name) => Expr::Ident(name),
        Expr::Object { props } => Expr::Object { props: rewrite_props_vec(props) },
        Expr::Other => Expr::Other,
    }
}

/// Rewrites each element of a vector of expressions.
fn rewrite_vec(es: Vec<Expr>) -> (r: Vec<Expr>)
    ensures
        exprs_view(r@) == rewrite_list(exprs_view(es@)),
    decreases es@,
{
    let ghost orig = es@;
    let mut es = es;
    match es.pop() {
        None => {
            proof {
                assert(exprs_view(es@) =~= rewrite_list(exprs_view(orig)));
            }
            es
        },
        Some(last) => {
            let ghost last_g = last;
            let ghost tail = es@;
            let last_r = rewrite(last);
            let ghost last_r_g = last_r;
            let mut front = rewrite_vec(es);
            let ghost front_pre = front@;
            front.push(last_r);
            proof {
                crate::ast::lemma_exprs_view_pointwise(orig);
                crate::ast::lemma_exprs_view_pointwise(tail);
                crate::ast::lemma_exprs_view_pointwise(front_pre);
                crate::ast::lemma_exprs_view_pointwise(front@);
                lemma_rewrite_list_pointwise(exprs_view(orig));
                lemma_rewrite_list_pointwise(exprs_view(tail));
                assert(tail =~= orig.drop_last());
                assert forall|i: int| 0 <= i < front@.len() implies exprs_view(front@)[i]
                    == rewrite_list(exprs_view(orig))[i] by {
                    if i < front@.len() - 1 {
                        assert(front@[i] == front_pre[i]);
                        assert(tail[i] == orig[i]);
                        assert(expr_view(front_pre[i]) == rewrite_list(exprs_view(tail))[i]);
                    } else {
                        assert(front@[i] == last_r_g);
                        assert(last_g == orig[i]);
                        assert(expr_view(last_r_g) == rewrite_spec(expr_view(last_g)));
                    }
                }
                assert(exprs_view(front@) =~= rewrite_list(exprs_view(orig)));
            }
            front
        },
    }
}

/// Rewrites the value of each property of a vector of properties.
fn rewrite_props_vec(ps: Vec<Prop>) -> (r: Vec<Prop>)
    ensures
        props_view(r@) == rewrite_props(props_view(ps@)),
    decreases ps@,
{
    let ghost orig = ps@;
    let mut ps = ps;
    match ps.pop() {
        None => {
            proof {
                assert(props_view(ps@) =~= rewrite_props(props_view(orig)));
            }
            ps
        },
        Some(last) => {
            let ghost last_g = last;
            let ghost tail = ps@;
            let last_r = Prop { key: last.key, value: rewrite(last.value) };
            let ghost last_r_g = last_r;
            let mut front = rewrite_props_vec(ps);
            let ghost front_pre = front@;
            front.push(last_r);
            proof {
                crate::ast::lemma_props_view_pointwise(orig);
                crate::ast::lemma_props_view_pointwise(tail);
                crate::ast::lemma_props_view_pointwise(front_pre);
                crate::ast::lemma_props_view_pointwise(front@);
                lemma_rewrite_props_pointwise(props_view(orig));
                lemma_rewrite_props_pointwise(props_view(tail));
                assert(tail =~= orig.drop_last());
                assert forall|i: int| 0 <= i < front@.len() implies props_view(front@)[i]
                    == rewrite_props(props_view(orig))[i] by {
                    if i < front@.len() - 1 {
                        assert(front@[i] == front_pre[i]);
                        assert(tail[i] == orig[i]);
                        assert(front_pre[i]@ == rewrite_props(props_view(tail))[i]);
                    } else {
                        assert(front@[i] == last_r_g);
                        assert(last_g == orig[i]);
                        assert(expr_view(last_r_g.value) == rewrite_spec(expr_view(last_g.value)));
                    }
                }
                assert(props_view(front@) =~= rewrite_props(props_view(orig)));
            }
            front
        },
    }
}

} // verus!
