use vstd::prelude::*;

use crate::expr::{Expr, ExprView};
use crate::token::{duplicate_tokens, Token, TokenView};

verus! {

/// A statement or declaration of the language.
#[derive(Debug)]
#[allow(inconsistent_fields)]
pub enum Stmt {
    Expression(Expr),
    Print(Expr),
    Var { name: Token, initializer: Option<Expr> },
    Block(Vec<Stmt>),
    Class { name: Token, superclass: Option<Expr>, methods: Vec<Stmt> },
    Function { name: Token, params: Vec<Token>, body: Vec<Stmt> },
    If { condition: Expr, then_branch: Box<Stmt>, else_branch: Option<Box<Stmt>> },
    While { condition: Option<Expr>, body: Box<Stmt> },
    Return { keyword: Token, value: Option<Expr> },
}

/// The mathematical model of a [`Stmt`].
#[allow(inconsistent_fields)]
pub enum StmtView {
    Expression(ExprView),
    Print(ExprView),
    Var { name: TokenView, initializer: Option<ExprView> },
    Block(Seq<StmtView>),
    Class { name: TokenView, superclass: Option<ExprView>, methods: Seq<StmtView> },
    Function { name: TokenView, params: Seq<TokenView>, body: Seq<StmtView> },
    If { condition: ExprView, then_branch: Box<StmtView>, else_branch: Option<Box<StmtView>> },
    While { condition: Option<ExprView>, body: Box<StmtView> },
    Return { keyword: TokenView, value: Option<ExprView> },
}

/// The model of an optional expression.
pub open spec fn opt_expr_view(e: Option<Expr>) -> Option<ExprView> {
    match e {
        Some(e) => Some(e@),
        None => None,
    }
}

impl Stmt {
    /// The model of this statement, by structure.
    pub open spec fn model(&self) -> StmtView
        decreases self,
    {
        match self {
            Stmt::Expression(e) => StmtView::Expression(e@),
            Stmt::Print(e) => StmtView::Print(e@),
            Stmt::Var { name, initializer } => StmtView::Var {
                name: name@,
                initializer: opt_expr_view(*initializer),
            },
            Stmt::Block(stmts) => StmtView::Block(
                Seq::new(
                    stmts@.len(),
                    |i: int|
                        if 0 <= i < stmts@.len() {
                            stmts@[i].model()
                        } else {
                            StmtView::Block(Seq::empty())
                        },
                ),
            ),
            Stmt::Class { name, superclass, methods } => StmtView::Class {
                name: name@,
                superclass: opt_expr_view(*superclass),
                methods: Seq::new(
                    methods@.len(),
                    |i: int|
                        if 0 <= i < methods@.len() {
                            methods@[i].model()
                        } else {
                            StmtView::Block(Seq::empty())
                        },
                ),
            },
            Stmt::Function { name, params, body } => StmtView::Function {
                name: name@,
                params: params@.map_values(|t: Token| t@),
                body: Seq::new(
                    body@.len(),
                    |i: int|
                        if 0 <= i < body@.len() {
                            body@[i].model()
                        } else {
                            StmtView::Block(Seq::empty())
                        },
                ),
            },
            Stmt::If { condition, then_branch, else_branch } => StmtView::If {
                condition: condition@,
                then_branch: Box::new(then_branch.model()),
                else_branch: match else_branch {
                    Some(b) => Some(Box::new(b.model())),
                    None => None,
                },
            },
            Stmt::While { condition, body } => StmtView::While {
                condition: opt_expr_view(*condition),
                body: Box::new(body.model()),
            },
            Stmt::Return { keyword, value } => StmtView::Return {
                keyword: keyword@,
                value: opt_expr_view(*value),
            },
        }
    }
}

/// A copy of an optional expression.
fn duplicate_opt(e: &Option<Expr>) -> (r: Option<Expr>)
    ensures
        opt_expr_view(r) == opt_expr_view(*e),
{
    match e {
        Some(x) => Some(x.duplicate()),
        None => None,
    }
}

impl Stmt {
    /// A copy of the statement.
    #[verifier::loop_isolation(false)]
    pub fn duplicate(&self) -> (r: Stmt)
        ensures
            r@ == self@,
        decreases self,
    {
        match self {
            Stmt::Expression(e) => Stmt::Expression(e.duplicate()),
            Stmt::Print(e) => Stmt::Print(e.duplicate()),
            Stmt::Var { name, initializer } => Stmt::Var {
                name: name.duplicate(),
                initializer: duplicate_opt(initializer),
            },
            Stmt::Block(stmts) => {
                let mut copies: Vec<Stmt> = Vec::new();
                let mut i: usize = 0;
                while i < stmts.len()
                    invariant
                        i <= stmts@.len(),
                        copies@.len() == i,
                        forall|j: int| 0 <= j < i ==> (#[trigger] copies@[j])@ == stmts@[j]@,
                    decreases stmts@.len() - i,
                {
                    copies.push(stmts[i].duplicate());
                    i += 1;
                }
                assert(stmt_views(copies@) =~= stmt_views(stmts@));
                proof {
                    lemma_block_model(copies);
                    lemma_block_model(*stmts);
                }
                Stmt::Block(copies)
            },
            Stmt::Class { name, superclass, methods } => {
                let mut copies: Vec<Stmt> = Vec::new();
                let mut i: usize = 0;
                while i < methods.len()
                    invariant
                        i <= methods@.len(),
                        copies@.len() == i,
                        forall|j: int| 0 <= j < i ==> (#[trigger] copies@[j])@ == methods@[j]@,
                    decreases methods@.len() - i,
                {
                    copies.push(methods[i].duplicate());
                    i += 1;
                }
                assert(stmt_views(copies@) =~= stmt_views(methods@));
                let name_copy = name.duplicate();
                let superclass_copy = duplicate_opt(superclass);
                proof {
                    lemma_class_model(name_copy, superclass_copy, copies);
                    lemma_class_model(*name, *superclass, *methods);
                }
                Stmt::Class { name: name_copy, superclass: superclass_copy, methods: copies }
            },
            Stmt::Function { name, params, body } => {
                let mut copies: Vec<Stmt> = Vec::new();
                let mut i: usize = 0;
                while i < body.len()
                    invariant
                        i <= body@.len(),
                        copies@.len() == i,
                        forall|j: int| 0 <= j < i ==> (#[trigger] copies@[j])@ == body@[j]@,
                    decreases body@.len() - i,
                {
                    copies.push(body[i].duplicate());
                    i += 1;
                }
                assert(stmt_views(copies@) =~= stmt_views(body@));
                let name_copy = name.duplicate();
                let params_copy = duplicate_tokens(params);
                proof {
                    lemma_function_model(name_copy, params_copy, copies);
                    lemma_function_model(*name, *params, *body);
                }
                Stmt::Function { name: name_copy, params: params_copy, body: copies }
            },
            Stmt::If { condition, then_branch, else_branch } => Stmt::If {
                condition: condition.duplicate(),
                then_branch: Box::new(then_branch.duplicate()),
                else_branch: match else_branch {
                    Some(b) => Some(Box::new(b.duplicate())),
                    None => None,
                },
            },
            Stmt::While { condition, body } => Stmt::While {
                condition: duplicate_opt(condition),
                body: Box::new(body.duplicate()),
            },
            Stmt::Return { keyword, value } => Stmt::Return {
                keyword: keyword.duplicate(),
                value: duplicate_opt(value),
            },
        }
    }
}

impl View for Stmt {
    type V = StmtView;

    open spec fn view(&self) -> StmtView {
        self.model()
    }
}

/// The models of a sequence of statements.
pub open spec fn stmt_views(ss: Seq<Stmt>) -> Seq<StmtView> {
    ss.map_values(|s: Stmt| s@)
}

/// The model of a block holds the models of its statements.
pub proof fn lemma_block_model(stmts: Vec<Stmt>)
    ensures
        (Stmt::Block(stmts))@ == StmtView::Block(stmt_views(stmts@)),
{
    let st = Stmt::Block(stmts);
    let ss = match st.model() {
        StmtView::Block(ss) => ss,
        _ => Seq::empty(),
    };
    assert(ss =~= stmt_views(stmts@));
}

/// The model of a function declaration holds the models of its parts.
pub proof fn lemma_function_model(name: Token, params: Vec<Token>, body: Vec<Stmt>)
    ensures
        (Stmt::Function { name, params, body })@ == (StmtView::Function {
            name: name@,
            params: params@.map_values(|t: Token| t@),
            body: stmt_views(body@),
        }),
{
    let st = Stmt::Function { name, params, body };
    let ss = match st.model() {
        StmtView::Function { name: _, params: _, body: ss } => ss,
        _ => Seq::empty(),
    };
    assert(ss =~= stmt_views(body@));
}

/// The model of a class declaration holds the models of its methods.
pub proof fn lemma_class_model(name: Token, superclass: Option<Expr>, methods: Vec<Stmt>)
    ensures
        (Stmt::Class { name, superclass, methods })@ == (StmtView::Class {
            name: name@,
            superclass: opt_expr_view(superclass),
            methods: stmt_views(methods@),
        }),
{
    let st = Stmt::Class { name, superclass, methods };
    let ss = match st.model() {
        StmtView::Class { name: _, superclass: _, methods: ss } => ss,
        _ => Seq::empty(),
    };
    assert(ss =~= stmt_views(methods@));
}

} // verus!
