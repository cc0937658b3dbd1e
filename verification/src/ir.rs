//! The indexed form that profiles are compiled to and evaluated from.

use vstd::prelude::*;
use crate::syntax::{TagPattern, TagPatternView};
use crate::tags::TagDictId;
use crate::text::same_text;
use crate::value::{ArithOp, Value};

verus! {

/// What a named block does with its arguments.
#[derive(Clone, Copy, Debug, PartialEq, Eq)]
pub enum BlockTy {
    /// `all?`: whether every argument is truthy.
    All,
    /// `any?`: whether some argument is truthy.
    Any,
    /// `div`: the first argument divided by each of the others in turn.
    Div,
    /// `mul`: the product of the arguments.
    Mul,
    /// `none?`: whether no argument is truthy.
    NotAny,
    /// `return!`: ends the evaluation with the value of its argument.
    Return,
    /// `sub`: the first argument less each of the others in turn.
    Sub,
    /// `sum`: the sum of the arguments.
    Sum,
}

/// How many arguments a block takes.
#[derive(Clone, Copy, Debug, PartialEq, Eq)]
pub enum Arity {
    /// Exactly one.
    Unary,
    /// One or more.
    Variadic,
}

impl Arity {
    /// Whether a block of this arity takes `n` arguments.
    pub open spec fn admits(self, n: nat) -> bool {
        match self {
            Arity::Unary => n == 1,
            Arity::Variadic => n >= 1,
        }
    }

    pub fn accepts(&self, n: usize) -> (r: bool)
        ensures
            r == self.admits(n as nat),
    {
        match self {
            Arity::Unary => n == 1,
            Arity::Variadic => n >= 1,
        }
    }
}

impl BlockTy {
    /// The kind of block that a name stands for.
    pub open spec fn named(name: Seq<char>) -> Option<BlockTy> {
        if name == "all?"@ {
            Some(BlockTy::All)
        } else if name == "any?"@ {
            Some(BlockTy::Any)
        } else if name == "div"@ {
            Some(BlockTy::Div)
        } else if name == "mul"@ {
            Some(BlockTy::Mul)
        } else if name == "none?"@ {
            Some(BlockTy::NotAny)
        } else if name == "return!"@ {
            Some(BlockTy::Return)
        } else if name == "sub"@ {
            Some(BlockTy::Sub)
        } else if name == "sum"@ {
            Some(BlockTy::Sum)
        } else {
            None
        }
    }

    /// The kind of block that `name` stands for, if it stands for one.
    pub fn from_name(name: &str) -> (r: Option<BlockTy>)
        ensures
            r == BlockTy::named(name@),
    {
        if same_text(name, "all?") {
            Some(BlockTy::All)
        } else if same_text(name, "any?") {
            Some(BlockTy::Any)
        } else if same_text(name, "div") {
            Some(BlockTy::Div)
        } else if same_text(name, "mul") {
            Some(BlockTy::Mul)
        } else if same_text(name, "none?") {
            Some(BlockTy::NotAny)
        } else if same_text(name, "return!") {
            Some(BlockTy::Return)
        } else if same_text(name, "sub") {
            Some(BlockTy::Sub)
        } else if same_text(name, "sum") {
            Some(BlockTy::Sum)
        } else {
            None
        }
    }

    pub open spec fn spec_arity(&self) -> Arity {
        match self {
            BlockTy::Return => Arity::Unary,
            _ => Arity::Variadic,
        }
    }

    /// `return!` takes one argument; every other block takes one or more.
    #[verifier::when_used_as_spec(spec_arity)]
    pub fn arity(&self) -> (r: Arity)
        ensures
            r == self.spec_arity(),
    {
        match self {
            BlockTy::All => Arity::Variadic,
            BlockTy::Any => Arity::Variadic,
            BlockTy::Div => Arity::Variadic,
            BlockTy::Mul => Arity::Variadic,
            BlockTy::NotAny => Arity::Variadic,
            BlockTy::Return => Arity::Unary,
            BlockTy::Sub => Arity::Variadic,
            BlockTy::Sum => Arity::Variadic,
        }
    }

    /// The operation that an arithmetic block folds its arguments with.
    pub open spec fn spec_operator(&self) -> Option<ArithOp> {
        match self {
            BlockTy::Sum => Some(ArithOp::Sum),
            BlockTy::Sub => Some(ArithOp::Sub),
            BlockTy::Mul => Some(ArithOp::Mul),
            BlockTy::Div => Some(ArithOp::Div),
            _ => None,
        }
    }

    #[verifier::when_used_as_spec(spec_operator)]
    pub fn operator(&self) -> (r: Option<ArithOp>)
        ensures
            r == self.spec_operator(),
    {
        match self {
            BlockTy::Sum => Some(ArithOp::Sum),
            BlockTy::Sub => Some(ArithOp::Sub),
            BlockTy::Mul => Some(ArithOp::Mul),
            BlockTy::Div => Some(ArithOp::Div),
            _ => None,
        }
    }
}

/// One clause of a compiled `when`: the condition, then the value.
#[derive(Debug, PartialEq, Eq)]
pub struct WhenBlockClause(pub Expr, pub Expr);

/// A compiled expression.
#[derive(Debug, PartialEq, Eq)]
pub enum Expr {
    Literal(Value),
    /// The constant at this index.
    LookupConstant(u8),
    /// A local variable: the slot that remembers its value, and the
    /// definition that gives the value when the slot is still empty.
    LookupOrCompute(u16, Box<Expr>),
    /// A per-edge feature that is read by name.
    LookupGlobal(String),
    Block(BlockTy, Vec<Expr>),
    When(Vec<WhenBlockClause>),
    TagPattern(Vec<TagPattern<TagDictId>>),
}

/// A compiled expression as a mathematical value.
pub enum ExprView {
    Literal(Value),
    LookupConstant(u8),
    LookupOrCompute(u16, Box<ExprView>),
    LookupGlobal(Seq<char>),
    Block(BlockTy, Seq<ExprView>),
    When(Seq<(ExprView, ExprView)>),
    TagPattern(Seq<TagPatternView<TagDictId>>),
}

impl Expr {
    pub open spec fn model(self) -> ExprView
        decreases self, 0nat,
    {
        match self {
            Expr::Literal(value) => ExprView::Literal(value),
            Expr::LookupConstant(index) => ExprView::LookupConstant(index),
            Expr::LookupOrCompute(slot, def) => ExprView::LookupOrCompute(
                slot,
                Box::new(def.model()),
            ),
            Expr::LookupGlobal(name) => ExprView::LookupGlobal(name@),
            Expr::Block(kind, body) => ExprView::Block(kind, models(body@)),
            Expr::When(clauses) => ExprView::When(clause_models(clauses@)),
            Expr::TagPattern(patterns) => ExprView::TagPattern(pattern_views(patterns@)),
        }
    }
}

/// The models of a list of expressions, in the same order.
pub open spec fn models(body: Seq<Expr>) -> Seq<ExprView>
    decreases body, 1nat,
{
    Seq::new(
        body.len(),
        |i: int|
            if 0 <= i < body.len() {
                body[i].model()
            } else {
                arbitrary()
            },
    )
}

/// The models of the clauses of a `when`: each a condition and a value.
pub open spec fn clause_models(clauses: Seq<WhenBlockClause>) -> Seq<(ExprView, ExprView)>
    decreases clauses, 1nat,
{
    Seq::new(
        clauses.len(),
        |i: int|
            if 0 <= i < clauses.len() {
                (clauses[i].0.model(), clauses[i].1.model())
            } else {
                arbitrary()
            },
    )
}

/// The views of a list of tag patterns, in the same order.
pub open spec fn pattern_views<K: View>(patterns: Seq<TagPattern<K>>) -> Seq<
    TagPatternView<K::V>,
> {
    Seq::new(patterns.len(), |i: int| patterns[i]@)
}

/// A copy of a pattern over ids.
fn copy_pattern(pattern: &TagPattern<TagDictId>) -> (r: TagPattern<TagDictId>)
    ensures
        r@ == pattern@,
{
    match pattern {
        TagPattern::Exists(key) => TagPattern::Exists(*key),
        TagPattern::NotExists(key) => TagPattern::NotExists(*key),
        TagPattern::OneOf(key, values) => {
            let copied = values.clone();
            let r = TagPattern::OneOf(*key, copied);
            r
        },
        TagPattern::NoneOf(key, values) => {
            let copied = values.clone();
            let r = TagPattern::NoneOf(*key, copied);
            r
        },
    }
}

impl Clone for Expr {
    /// A copy that stands for the same expression.
    fn clone(&self) -> (r: Self)
        ensures
            r@ == self@,
        decreases self,
    {
        match self {
            Expr::Literal(value) => Expr::Literal(value.clone()),
            Expr::LookupConstant(index) => Expr::LookupConstant(*index),
            Expr::LookupOrCompute(slot, def) => {
                let copied = (&**def).clone();
                Expr::LookupOrCompute(*slot, Box::new(copied))
            },
            Expr::LookupGlobal(name) => Expr::LookupGlobal(name.clone()),
            Expr::Block(kind, body) => {
                let mut copied: Vec<Expr> = Vec::new();
                let mut i: usize = 0;
                while i < body.len()
                    invariant
                        *self matches Expr::Block(_, b) && b == body,
                        i <= body@.len(),
                        copied@.len() == i,
                        forall|j: int| 0 <= j < i ==> copied@[j]@ == body@[j]@,
                    decreases body@.len() - i,
                {
                    copied.push(body[i].clone());
                    i += 1;
                }
                assert(models(copied@) =~= models(body@));
                Expr::Block(*kind, copied)
            },
            Expr::When(clauses) => {
                let mut copied: Vec<WhenBlockClause> = Vec::new();
                let mut i: usize = 0;
                while i < clauses.len()
                    invariant
                        *self matches Expr::When(c) && c == clauses,
                        i <= clauses@.len(),
                        copied@.len() == i,
                        forall|j: int|
                            0 <= j < i ==> copied@[j].0@ == clauses@[j].0@ && copied@[j].1@
                                == clauses@[j].1@,
                    decreases clauses@.len() - i,
                {
                    let condition = clauses[i].0.clone();
                    let value = clauses[i].1.clone();
                    copied.push(WhenBlockClause(condition, value));
                    i += 1;
                }
                assert(clause_models(copied@) =~= clause_models(clauses@));
                Expr::When(copied)
            },
            Expr::TagPattern(patterns) => {
                let mut copied: Vec<TagPattern<TagDictId>> = Vec::new();
                let mut i: usize = 0;
                while i < patterns.len()
                    invariant
                        i <= patterns@.len(),
                        copied@.len() == i,
                        forall|j: int| 0 <= j < i ==> copied@[j]@ == patterns@[j]@,
                    decreases patterns@.len() - i,
                {
                    copied.push(copy_pattern(&patterns[i]));
                    i += 1;
                }
                assert(pattern_views(copied@) =~= pattern_views(patterns@));
                Expr::TagPattern(copied)
            },
        }
    }
}

impl View for Expr {
    type V = ExprView;

    open spec fn view(&self) -> ExprView {
        self.model()
    }
}

} // verus!
