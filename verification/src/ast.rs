//! The expression grammar the transform works on.
//!
//! `Expr` is the owned, executable tree; `ExprV` is its mathematical view,
//! with `Seq<char>` for text and `Seq` for child lists. Only the shapes the
//! transform inspects are distinguished; everything else is `Other`, the
//! catch-all for expressions whose value is not statically known.
use vstd::prelude::*;

verus! {

/// An expression node, as the extractor and rewriter see it.
#[derive(Debug, PartialEq, Eq)]
pub enum Expr {
    /// A string literal and its cooked value.
    Str(String),
    /// A template literal: `quasis` are the literal fragments, `exprs` the
    /// interpolated sub-expressions between them. A well-formed template has
    /// exactly one more fragment than sub-expressions.
    Tpl { quasis: Vec<String>, exprs: Vec<Expr> },
    /// A binary expression; the transform assumes string concatenation and
    /// never inspects the operator.
    Bin { left: Box<Expr>, right: Box<Expr> },
    /// A `new` expression.
    New { callee: Box<Expr>, args: Vec<Expr> },
    /// A call expression.
    Call { callee: Box<Expr>, args: Vec<Expr> },
    /// A member access `obj.prop`.
    Member { obj: Box<Expr>, prop: String },
    /// An identifier.
    Ident(String),
    /// An object literal of plain key-value properties.
    Object { props: Vec<Prop> },
    /// Any expression shape the transform does not distinguish.
    Other,
}

/// One key-value property of an object literal.
#[derive(Debug, PartialEq, Eq)]
pub struct Prop {
    pub key: String,
    pub value: Expr,
}

/// The mathematical view of an expression node.
pub enum ExprV {
    Str(Seq<char>),
    Tpl { quasis: Seq<Seq<char>>, exprs: Seq<ExprV> },
    Bin { left: Box<ExprV>, right: Box<ExprV> },
    New { callee: Box<ExprV>, args: Seq<ExprV> },
    Call { callee: Box<ExprV>, args: Seq<ExprV> },
    Member { obj: Box<ExprV>, prop: Seq<char> },
    Ident(Seq<char>),
    Object { props: Seq<PropV> },
    Other,
}

/// The mathematical view of one object-literal property.
pub struct PropV {
    pub key: Seq<char>,
    pub value: ExprV,
}

/// The view of a single expression node.
pub open spec fn expr_view(e: Expr) -> ExprV
    decreases e,
{
    match e {
        Expr::Str(s) => ExprV::Str(s@),
        Expr::Tpl { quasis, exprs } => ExprV::Tpl {
            quasis: quasis.deep_view(),
            exprs: exprs_view(exprs@),
        },
        Expr::Bin { left, right } => ExprV::Bin {
            left: Box::new(expr_view(*left)),
            right: Box::new(expr_view(*right)),
        },
        Expr::New { callee, args } => ExprV::New {
            callee: Box::new(expr_view(*callee)),
            args: exprs_view(args@),
        },
        Expr::Call { callee, args } => ExprV::Call {
            callee: Box::new(expr_view(*callee)),
            args: exprs_view(args@),
        },
        Expr::Member { obj, prop } => ExprV::Member {
            obj: Box::new(expr_view(*obj)),
            prop: prop@,
        },
        Expr::Ident(name) => ExprV::Ident(name@),
        Expr::Object { props } => ExprV::Object { props: props_view(props@) },
        Expr::Other => ExprV::Other,
    }
}

/// The view of a list of expression nodes, element by element.
pub open spec fn exprs_view(es: Seq<Expr>) -> Seq<ExprV>
    decreases es,
{
    if es.len() == 0 {
        Seq::empty()
    } else {
        seq![expr_view(es[0])] + exprs_view(es.drop_first())
    }
}

/// The view of a list of object-literal properties.
pub open spec fn props_view(ps: Seq<Prop>) -> Seq<PropV>
    decreases ps,
{
    if ps.len() == 0 {
        Seq::empty()
    } else {
        seq![PropV { key: ps[0].key@, value: expr_view(ps[0].value) }] + props_view(ps.drop_first())
    }
}

impl View for Expr {
    type V = ExprV;

    open spec fn view(&self) -> ExprV {
        expr_view(*self)
    }
}

impl View for Prop {
    type V = PropV;

    open spec fn view(&self) -> PropV {
        PropV { key: self.key@, value: expr_view(self.value) }
    }
}

/// `exprs_view` maps the list pointwise.
pub proof fn lemma_exprs_view_pointwise(es: Seq<Expr>)
    ensures
        exprs_view(es).len() == es.len(),
        forall|i: int| 0 <= i < es.len() ==> exprs_view(es)[i] == expr_view(es[i]),
    decreases es,
{
    if es.len() > 0 {
        lemma_exprs_view_pointwise(es.drop_first());
    }
}

/// `props_view` maps the list pointwise.
pub proof fn lemma_props_view_pointwise(ps: Seq<Prop>)
    ensures
        props_view(ps).len() == ps.len(),
        forall|i: int| 0 <= i < ps.len() ==> props_view(ps)[i]
            == (PropV { key: ps[i].key@, value: expr_view(ps[i].value) }),
    decreases ps,
{
    if ps.len() > 0 {
        lemma_props_view_pointwise(ps.drop_first());
    }
}

} // verus!
