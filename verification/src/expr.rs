use vstd::prelude::*;

use crate::token::{Literal, LiteralView, Token, TokenType, TokenView};

verus! {

/// An expression of the language.
///
/// `id` fields number the expressions that refer to variables, so that a later
/// pass can attach scope information to them.
#[derive(Debug)]
#[allow(inconsistent_fields)]
pub enum Expr {
    Binary { left: Box<Expr>, operator: Token, right: Box<Expr> },
    Grouping { expression: Box<Expr> },
    Literal { value: Literal },
    Unary { operator: Token, right: Box<Expr> },
    Variable { id: usize, name: Token },
    Assign { id: usize, name: Token, value: Box<Expr> },
    Logical { left: Box<Expr>, operator: TokenType, right: Box<Expr> },
    Call { callee: Box<Expr>, paren: Token, arguments: Vec<Expr> },
    Get { object: Box<Expr>, name: Token },
    SetProperty { object: Box<Expr>, name: Token, value: Box<Expr> },
    This { id: usize, keyword: Token },
    Super { id: usize, keyword: Token, method: Token },
    Array { elements: Vec<Expr> },
    Index { object: Box<Expr>, bracket: Token, index: Box<Expr> },
    SetIndex { object: Box<Expr>, index: Box<Expr>, eq: Token, value: Box<Expr> },
}

/// The mathematical model of an [`Expr`].
#[allow(inconsistent_fields)]
pub enum ExprView {
    Binary { left: Box<ExprView>, operator: TokenView, right: Box<ExprView> },
    Grouping { expression: Box<ExprView> },
    Literal { value: LiteralView },
    Unary { operator: TokenView, right: Box<ExprView> },
    Variable { id: usize, name: TokenView },
    Assign { id: usize, name: TokenView, value: Box<ExprView> },
    Logical { left: Box<ExprView>, operator: TokenType, right: Box<ExprView> },
    Call { callee: Box<ExprView>, paren: TokenView, arguments: Seq<ExprView> },
    Get { object: Box<ExprView>, name: TokenView },
    SetProperty { object: Box<ExprView>, name: TokenView, value: Box<ExprView> },
    This { id: usize, keyword: TokenView },
    Super { id: usize, keyword: TokenView, method: TokenView },
    Array { elements: Seq<ExprView> },
    Index { object: Box<ExprView>, bracket: TokenView, index: Box<ExprView> },
    SetIndex { object: Box<ExprView>, index: Box<ExprView>, eq: TokenView, value: Box<ExprView> },
}

impl Expr {
    /// The model of this expression, by structure.
    pub open spec fn model(&self) -> ExprView
        decreases self,
    {
        match self {
            Expr::Binary { left, operator, right } => ExprView::Binary {
                left: Box::new(left.model()),
                operator: operator@,
                right: Box::new(right.model()),
            },
            Expr::Grouping { expression } => ExprView::Grouping {
                expression: Box::new(expression.model()),
            },
            Expr::Literal { value } => ExprView::Literal { value: value@ },
            Expr::Unary { operator, right } => ExprView::Unary {
                operator: operator@,
                right: Box::new(right.model()),
            },
            Expr::Variable { id, name } => ExprView::Variable { id: *id, name: name@ },
            Expr::Assign { id, name, value } => ExprView::Assign {
                id: *id,
                name: name@,
                value: Box::new(value.model()),
            },
            Expr::Logical { left, operator, right } => ExprView::Logical {
                left: Box::new(left.model()),
                operator: *operator,
                right: Box::new(right.model()),
            },
            Expr::Call { callee, paren, arguments } => ExprView::Call {
                callee: Box::new(callee.model()),
                paren: paren@,
                arguments: Seq::new(
                    arguments@.len(),
                    |i: int|
                        if 0 <= i < arguments@.len() {
                            arguments@[i].model()
                        } else {
                            ExprView::Array { elements: Seq::empty() }
                        },
                ),
            },
            Expr::Get { object, name } => ExprView::Get {
                object: Box::new(object.model()),
                name: name@,
            },
            Expr::SetProperty { object, name, value } => ExprView::SetProperty {
                object: Box::new(object.model()),
                name: name@,
                value: Box::new(value.model()),
            },
            Expr::This { id, keyword } => ExprView::This { id: *id, keyword: keyword@ },
            Expr::Super { id, keyword, method } => ExprView::Super {
                id: *id,
                keyword: keyword@,
                method: method@,
            },
            Expr::Array { elements } => ExprView::Array {
                elements: Seq::new(
                    elements@.len(),
                    |i: int|
                        if 0 <= i < elements@.len() {
                            elements@[i].model()
                        } else {
                            ExprView::Array { elements: Seq::empty() }
                        },
                ),
            },
            Expr::Index { object, bracket, index } => ExprView::Index {
                object: Box::new(object.model()),
                bracket: bracket@,
                index: Box::new(index.model()),
            },
            Expr::SetIndex { object, index, eq, value } => ExprView::SetIndex {
                object: Box::new(object.model()),
                index: Box::new(index.model()),
                eq: eq@,
                value: Box::new(value.model()),
            },
        }
    }
}

impl Expr {
    /// A copy of the expression.
    #[verifier::loop_isolation(false)]
    pub fn duplicate(&self) -> (r: Expr)
        ensures
            r@ == self@,
        decreases self,
    {
        match self {
            Expr::Binary { left, operator, right } => Expr::Binary {
                left: Box::new(left.duplicate()),
                operator: operator.duplicate(),
                right: Box::new(right.duplicate()),
            },
            Expr::Grouping { expression } => Expr::Grouping {
                expression: Box::new(expression.duplicate()),
            },
            Expr::Literal { value } => Expr::Literal { value: value.duplicate() },
            Expr::Unary { operator, right } => Expr::Unary {
                operator: operator.duplicate(),
                right: Box::new(right.duplicate()),
            },
            Expr::Variable { id, name } => Expr::Variable { id: *id, name: name.duplicate() },
            Expr::Assign { id, name, value } => Expr::Assign {
                id: *id,
                name: name.duplicate(),
                value: Box::new(value.duplicate()),
            },
            Expr::Logical { left, operator, right } => Expr::Logical {
                left: Box::new(left.duplicate()),
                operator: *operator,
                right: Box::new(right.duplicate()),
            },
            Expr::Call { callee, paren, arguments } => {
                let mut copies: Vec<Expr> = Vec::new();
                let mut i: usize = 0;
                while i < arguments.len()
                    invariant
                        i <= arguments@.len(),
                        copies@.len() == i,
                        forall|j: int| 0 <= j < i ==> (#[trigger] copies@[j])@ == arguments@[j]@,
                    decreases arguments@.len() - i,
                {
                    copies.push(arguments[i].duplicate());
                    i += 1;
                }
                let callee_copy = Box::new(callee.duplicate());
                let paren_copy = paren.duplicate();
                proof {
                    assert(expr_views(copies@) =~= expr_views(arguments@));
                    lemma_call_model(callee_copy, paren_copy, copies);
                    lemma_call_model(*callee, *paren, *arguments);
                }
                Expr::Call { callee: callee_copy, paren: paren_copy, arguments: copies }
            },
            Expr::Get { object, name } => Expr::Get {
                object: Box::new(object.duplicate()),
                name: name.duplicate(),
            },
            Expr::SetProperty { object, name, value } => Expr::SetProperty {
                object: Box::new(object.duplicate()),
                name: name.duplicate(),
                value: Box::new(value.duplicate()),
            },
            Expr::This { id, keyword } => Expr::This { id: *id, keyword: keyword.duplicate() },
            Expr::Super { id, keyword, method } => Expr::Super {
                id: *id,
                keyword: keyword.duplicate(),
                method: method.duplicate(),
            },
            Expr::Array { elements } => {
                let mut copies: Vec<Expr> = Vec::new();
                let mut i: usize = 0;
                while i < elements.len()
                    invariant
                        i <= elements@.len(),
                        copies@.len() == i,
                        forall|j: int| 0 <= j < i ==> (#[trigger] copies@[j])@ == elements@[j]@,
                    decreases elements@.len() - i,
                {
                    copies.push(elements[i].duplicate());
                    i += 1;
                }
                proof {
                    assert(expr_views(copies@) =~= expr_views(elements@));
                    lemma_array_model(copies);
                    lemma_array_model(*elements);
                }
                Expr::Array { elements: copies }
            },
            Expr::Index { object, bracket, index } => Expr::Index {
                object: Box::new(object.duplicate()),
                bracket: bracket.duplicate(),
                index: Box::new(index.duplicate()),
            },
            Expr::SetIndex { object, index, eq, value } => Expr::SetIndex {
                object: Box::new(object.duplicate()),
                index: Box::new(index.duplicate()),
                eq: eq.duplicate(),
                value: Box::new(value.duplicate()),
            },
        }
    }
}

impl View for Expr {
    type V = ExprView;

    open spec fn view(&self) -> ExprView {
        self.model()
    }
}

/// The models of a sequence of expressions.
pub open spec fn expr_views(es: Seq<Expr>) -> Seq<ExprView> {
    es.map_values(|e: Expr| e@)
}

/// The model of an array literal holds the models of its elements.
pub proof fn lemma_array_model(elements: Vec<Expr>)
    ensures
        (Expr::Array { elements })@ == (ExprView::Array { elements: expr_views(elements@) }),
{
    let e = Expr::Array { elements };
    let es = match e.model() {
        ExprView::Array { elements: es } => es,
        _ => Seq::empty(),
    };
    assert(es =~= expr_views(elements@));
}

/// The model of a call holds the models of its arguments.
pub proof fn lemma_call_model(callee: Box<Expr>, paren: Token, arguments: Vec<Expr>)
    ensures
        (Expr::Call { callee, paren, arguments })@ == (ExprView::Call {
            callee: Box::new(callee@),
            paren: paren@,
            arguments: expr_views(arguments@),
        }),
{
    let e = Expr::Call { callee, paren, arguments };
    let es = match e.model() {
        ExprView::Call { callee: _, paren: _, arguments: es } => es,
        _ => Seq::empty(),
    };
    assert(es =~= expr_views(arguments@));
}

} // verus!
