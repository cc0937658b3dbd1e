//! The expression tree of a parsed profile.

use vstd::prelude::*;
use crate::value::Value;

verus! {

/// A test on the tags of a feature. `K` is how keys and values are named:
/// text in a parsed profile, a compact id in a compiled one.
#[derive(Debug, PartialEq, Eq)]
pub enum TagPattern<K> {
    /// The feature has a tag with this key.
    Exists(K),
    /// The feature has no tag with this key.
    NotExists(K),
    /// The feature has a tag with this key, and its value is among these.
    OneOf(K, Vec<K>),
    /// The feature has a tag with this key, and its value is none of these.
    NoneOf(K, Vec<K>),
}

/// A tag pattern as a mathematical value.
pub enum TagPatternView<K> {
    Exists(K),
    NotExists(K),
    OneOf(K, Seq<K>),
    NoneOf(K, Seq<K>),
}

impl<K: View> View for TagPattern<K> {
    type V = TagPatternView<K::V>;

    open spec fn view(&self) -> TagPatternView<K::V> {
        match self {
            TagPattern::Exists(key) => TagPatternView::Exists(key@),
            TagPattern::NotExists(key) => TagPatternView::NotExists(key@),
            TagPattern::OneOf(key, values) => TagPatternView::OneOf(
                key@,
                Seq::new(values@.len(), |i: int| values@[i]@),
            ),
            TagPattern::NoneOf(key, values) => TagPatternView::NoneOf(
                key@,
                Seq::new(values@.len(), |i: int| values@[i]@),
            ),
        }
    }
}

/// A named definition: the name and what it stands for.
pub type Def = (String, Expression);

/// Definitions in the order in which they were written.
pub type Definitions = Vec<Def>;

/// An expression as the parser hands it over.
#[derive(Debug, PartialEq, Eq)]
pub enum Expression {
    Literal(Value),
    Ident(String),
    TagPattern(Vec<TagPattern<String>>),
    NamedBlock(NamedBlock),
    WhenBlock(WhenBlock),
}

/// A block such as `sum { .. }`: local definitions, then the name of the
/// block and its arguments.
#[derive(Debug, PartialEq, Eq)]
pub struct NamedBlock {
    pub defs: Definitions,
    pub name: String,
    pub body: Vec<Expression>,
}

/// The clauses of a `when`, in the order in which they are tried.
#[derive(Debug, PartialEq, Eq)]
pub struct WhenBlock(pub Vec<WhenClause>);

/// What decides whether a clause of a `when` is taken.
#[derive(Debug, PartialEq, Eq)]
pub enum Condition {
    /// `else`: the clause is always taken.
    Else,
    /// The clause is taken if this expression is truthy.
    Test(Expression),
}

#[derive(Debug, PartialEq, Eq)]
pub struct WhenClause {
    pub condition: Condition,
    pub value: Expression,
}

/// A parsed profile.
#[derive(Debug, PartialEq, Eq)]
pub struct Profile {
    pub name: String,
    pub constant_defs: Definitions,
    pub node_penalty: Option<Expression>,
    pub way_penalty: Option<Expression>,
    pub cost_factor: Option<Expression>,
}

} // verus!
