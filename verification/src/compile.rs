//! What the compiler makes of an expression tree.
//!
//! Lowering resolves each name, replaces tag texts by compact ids and
//! checks each block's name and number of arguments. It threads the
//! variables through: the scopes that are open, the definitions and slot
//! ids bound in them, and the next free slot id.

use vstd::prelude::*;
use crate::error::{CompileErrorView, RuntimeErrorView};
use crate::ir::{BlockTy, ExprView};
use crate::scope::{holder, resolve};
use crate::semantics::{eval, pattern_matches, patterns_match, Env, Slots};
use crate::syntax::{Condition, Def, Expression, NamedBlock, TagPattern, TagPatternView, WhenClause};
use crate::tags::{compact, valid_tags, TagDictId, UNKNOWN_TAG_ID};
use crate::value::Value;

verus! {

/// The variables in sight while an expression is lowered.
pub struct Variables {
    /// For each open scope, the slot ids of the variables that it defines
    /// and that have been used.
    pub ids: Seq<Map<Seq<char>, u16>>,
    /// For each open scope, the lowered definitions of the names that it
    /// defines.
    pub defs: Seq<Map<Seq<char>, ExprView>>,
    /// The slot id that the next new variable gets.
    pub next_id: u16,
}

impl Variables {
    /// One scope that binds nothing, and no slot id given out.
    pub open spec fn fresh() -> Variables {
        Variables {
            ids: seq![Map::<Seq<char>, u16>::empty()],
            defs: seq![Map::<Seq<char>, ExprView>::empty()],
            next_id: 0,
        }
    }

    /// There is an innermost scope, and ids and definitions are scoped
    /// alike.
    pub open spec fn wf(self) -> bool {
        self.ids.len() == self.defs.len() && self.ids.len() > 0
    }

    /// The number of open scopes.
    pub open spec fn depth(self) -> nat {
        self.ids.len()
    }

    /// Enters a block.
    pub open spec fn push(self) -> Variables {
        Variables {
            ids: self.ids.push(Map::empty()),
            defs: self.defs.push(Map::empty()),
            next_id: self.next_id,
        }
    }

    /// Leaves a block: what was bound in it is gone.
    pub open spec fn pop(self) -> Variables {
        Variables {
            ids: self.ids.drop_last(),
            defs: self.defs.drop_last(),
            next_id: self.next_id,
        }
    }

    /// Binds `name` to a lowered definition in the innermost scope. The
    /// variable that this defines is a new one: it has no slot id yet,
    /// whatever was defined under the name before.
    pub open spec fn define(self, name: Seq<char>, def: ExprView) -> Variables {
        Variables {
            ids: self.ids.update(self.ids.len() - 1, self.ids.last().remove(name)),
            defs: self.defs.update(self.defs.len() - 1, self.defs.last().insert(name, def)),
            next_id: self.next_id,
        }
    }

    /// The definition that `name` stands for, if one is in sight: the one
    /// in the innermost scope that defines the name.
    pub open spec fn definition(self, name: Seq<char>) -> Option<ExprView> {
        resolve(self.defs, name)
    }

    /// The scope that holds the definition that `name` stands for.
    pub open spec fn home(self, name: Seq<char>) -> Option<int> {
        holder(self.defs, name)
    }

    /// The slot id of the variable that `name` stands for, if it has one:
    /// the id bound in the scope that holds the definition.
    pub open spec fn slot(self, name: Seq<char>) -> Option<u16> {
        match self.home(name) {
            Some(at) => if self.ids[at].dom().contains(name) {
                Some(self.ids[at][name])
            } else {
                None
            },
            None => None,
        }
    }

    /// Whether a new variable can still get a slot id.
    pub open spec fn has_room(self) -> bool {
        self.next_id < u16::MAX
    }

    /// Gives the variable `name`, defined in the scope at `at`, the next
    /// slot id.
    pub open spec fn add(self, at: int, name: Seq<char>) -> Variables {
        Variables {
            ids: self.ids.update(at, self.ids[at].insert(name, self.next_id)),
            defs: self.defs,
            next_id: (self.next_id + 1) as u16,
        }
    }

    /// The slot id of the variable that `name` stands for: the one that
    /// it has, or else a new one, which it keeps for as long as its
    /// definition is in sight. `None` where no definition of the name is
    /// in sight, or where a new id is needed and none is left.
    pub open spec fn assign(self, name: Seq<char>) -> Option<(u16, Variables)> {
        match self.home(name) {
            Some(at) => match self.slot(name) {
                Some(id) => Some((id, self)),
                None => if self.has_room() {
                    Some((self.next_id, self.add(at, name)))
                } else {
                    None
                },
            },
            None => None,
        }
    }
}

/// The names that mean the same wherever they are used in a profile.
pub struct Names {
    /// The profile's constants, each with its index.
    pub constants: Map<Seq<char>, u8>,
    /// The globals that expressions may read.
    pub globals: Seq<Seq<char>>,
    /// The texts of the tag dictionary, in the order of their ids.
    pub tags: Seq<Seq<char>>,
}

/// A successful lowering: what was lowered to, and the variables after.
pub type Lowered<T> = Result<(T, Variables), CompileErrorView>;

/// The index of each constant: for a name that is defined more than once,
/// that of its last definition.
pub open spec fn constant_ids(defs: Seq<Def>) -> Map<Seq<char>, u8>
    decreases defs.len(),
{
    if defs.len() == 0 {
        Map::empty()
    } else {
        constant_ids(defs.drop_last()).insert(defs.last().0@, (defs.len() - 1) as u8)
    }
}

/// A tag pattern over texts, with each text replaced by its compact id.
pub open spec fn compact_pattern(
    pattern: TagPatternView<Seq<char>>,
    texts: Seq<Seq<char>>,
) -> TagPatternView<TagDictId> {
    match pattern {
        TagPatternView::Exists(key) => TagPatternView::Exists(compact(texts, key)),
        TagPatternView::NotExists(key) => TagPatternView::NotExists(compact(texts, key)),
        TagPatternView::OneOf(key, values) => TagPatternView::OneOf(
            compact(texts, key),
            Seq::new(values.len(), |i: int| compact(texts, values[i])),
        ),
        TagPatternView::NoneOf(key, values) => TagPatternView::NoneOf(
            compact(texts, key),
            Seq::new(values.len(), |i: int| compact(texts, values[i])),
        ),
    }
}

/// Each pattern with its texts replaced by compact ids, in the same order.
pub open spec fn compact_patterns(
    patterns: Seq<TagPattern<String>>,
    texts: Seq<Seq<char>>,
) -> Seq<TagPatternView<TagDictId>> {
    Seq::new(patterns.len(), |i: int| compact_pattern(patterns[i]@, texts))
}

/// Lowers an expression.
///
/// A name stands, in this order, for: the definition of that name in the
/// innermost open scope that has one; a constant; a global. A block opens
/// a scope, lowers its definitions in order, each in sight of those
/// before it, then has its name and the number of its arguments checked
/// and its arguments lowered in order, and closes the scope.
pub open spec fn lower(expr: Expression, names: Names, vars: Variables) -> Lowered<ExprView>
    decreases expr, 0nat,
{
    match expr {
        Expression::Literal(value) => Ok((ExprView::Literal(value), vars)),
        Expression::Ident(name) => match vars.definition(name@) {
            Some(def) => match vars.assign(name@) {
                Some((slot, after)) => Ok((ExprView::LookupOrCompute(slot, Box::new(def)), after)),
                None => Err(CompileErrorView::TooManyVariables),
            },
            None => if names.constants.dom().contains(name@) {
                Ok((ExprView::LookupConstant(names.constants[name@]), vars))
            } else if names.globals.contains(name@) {
                Ok((ExprView::LookupGlobal(name@), vars))
            } else {
                Err(CompileErrorView::UnknownIdent(name@))
            },
        },
        Expression::TagPattern(patterns) => Ok(
            (ExprView::TagPattern(compact_patterns(patterns@, names.tags)), vars),
        ),
        Expression::NamedBlock(block) => lower_block(block, names, vars),
        Expression::WhenBlock(block) => match lower_clauses(
            block.0@,
            0,
            names,
            vars,
            Seq::empty(),
        ) {
            Ok((clauses, after)) => Ok((ExprView::When(clauses), after)),
            Err(error) => Err(error),
        },
    }
}

/// Lowers a named block.
pub open spec fn lower_block(block: NamedBlock, names: Names, vars: Variables) -> Lowered<
    ExprView,
>
    decreases block, 2nat,
{
    match lower_defs(block.defs@, 0, names, vars.push()) {
        Ok(defined) => match BlockTy::named(block.name@) {
            Some(kind) => if kind.arity().admits(block.body@.len()) {
                match lower_all(block.body@, 0, names, defined, Seq::empty()) {
                    Ok((body, after)) => Ok((ExprView::Block(kind, body), after.pop())),
                    Err(error) => Err(error),
                }
            } else {
                Err(CompileErrorView::InvalidArity(block.name@))
            },
            None => Err(CompileErrorView::UnknownBlockTy(block.name@)),
        },
        Err(error) => Err(error),
    }
}

/// Lowers the definitions of a block from the `i`-th on and binds each in
/// the innermost scope once it is lowered.
pub open spec fn lower_defs(defs: Seq<Def>, i: int, names: Names, vars: Variables) -> Result<
    Variables,
    CompileErrorView,
>
    decreases defs, defs.len() - i,
{
    if 0 <= i < defs.len() {
        match lower(defs[i].1, names, vars) {
            Ok((def, after)) => lower_defs(defs, i + 1, names, after.define(defs[i].0@, def)),
            Err(error) => Err(error),
        }
    } else {
        Ok(vars)
    }
}

/// Lowers the expressions of a list from the `i`-th on, in order, and
/// appends them to `done`, the expressions lowered before.
pub open spec fn lower_all(
    body: Seq<Expression>,
    i: int,
    names: Names,
    vars: Variables,
    done: Seq<ExprView>,
) -> Lowered<Seq<ExprView>>
    decreases body, body.len() - i,
{
    if 0 <= i < body.len() {
        match lower(body[i], names, vars) {
            Ok((next, after)) => lower_all(body, i + 1, names, after, done.push(next)),
            Err(error) => Err(error),
        }
    } else {
        Ok((done, vars))
    }
}

/// Lowers the condition of a clause: `else` is the literal `true`.
pub open spec fn lower_condition(condition: Condition, names: Names, vars: Variables)
    -> Lowered<ExprView>
    decreases condition, 1nat,
{
    match condition {
        Condition::Else => Ok((ExprView::Literal(Value::Bool(true)), vars)),
        Condition::Test(test) => lower(test, names, vars),
    }
}

/// Lowers the clauses of a `when` from the `i`-th on, in order, each
/// condition before its value, and appends them to `done`, the clauses
/// lowered before.
pub open spec fn lower_clauses(
    clauses: Seq<WhenClause>,
    i: int,
    names: Names,
    vars: Variables,
    done: Seq<(ExprView, ExprView)>,
) -> Lowered<Seq<(ExprView, ExprView)>>
    decreases clauses, clauses.len() - i,
{
    if 0 <= i < clauses.len() {
        match lower_condition(clauses[i].condition, names, vars) {
            Ok((condition, tested)) => match lower(clauses[i].value, names, tested) {
                Ok((value, after)) => lower_clauses(
                    clauses,
                    i + 1,
                    names,
                    after,
                    done.push((condition, value)),
                ),
                Err(error) => Err(error),
            },
            Err(error) => Err(error),
        }
    } else {
        Ok((done, vars))
    }
}

/// A name that stands for nothing is refused: where no definition of it
/// is in sight, and it is neither a constant nor on the list of globals,
/// lowering it fails and names it.
pub proof fn lemma_unknown_ident_is_refused(name: String, names: Names, vars: Variables)
    requires
        vars.definition(name@) is None,
        !names.constants.dom().contains(name@),
        !names.globals.contains(name@),
    ensures
        lower(Expression::Ident(name), names, vars) == Err::<
            (ExprView, Variables),
            CompileErrorView,
        >(CompileErrorView::UnknownIdent(name@)),
{
}

/// A text that the dictionary does not hold is given the id that stands
/// for the unknown.
pub proof fn lemma_undeclared_text_is_unknown(texts: Seq<Seq<char>>, text: Seq<char>)
    requires
        !texts.contains(text),
    ensures
        compact(texts, text) == UNKNOWN_TAG_ID,
{
}

/// A pattern on a key that the dictionary does not hold is met by no
/// feature, unless it asks that the key be absent: `Exists`, `OneOf` and
/// `NoneOf` are false of every feature, and `NotExists` is true of every
/// feature. A feature never has a tag under the id of the unknown.
pub proof fn lemma_undeclared_key_is_absent(
    texts: Seq<Seq<char>>,
    key: Seq<char>,
    values: Seq<Seq<char>>,
    tags: Map<TagDictId, TagDictId>,
)
    requires
        !texts.contains(key),
        valid_tags(tags),
    ensures
        !pattern_matches(compact_pattern(TagPatternView::Exists(key), texts), tags),
        pattern_matches(compact_pattern(TagPatternView::NotExists(key), texts), tags),
        !pattern_matches(compact_pattern(TagPatternView::OneOf(key, values), texts), tags),
        !pattern_matches(compact_pattern(TagPatternView::NoneOf(key, values), texts), tags),
{
}

/// What a lowered tag expression evaluates to against a feature: whether
/// the feature meets each pattern, read with every text replaced by its
/// compact id.
pub proof fn lemma_tag_expression(
    patterns: Vec<TagPattern<String>>,
    names: Names,
    vars: Variables,
    env: Env,
    slots: Slots,
)
    requires
        env.tags is Some,
    ensures
        lower(Expression::TagPattern(patterns), names, vars) matches Ok((lowered, _)) && eval(
            lowered,
            env,
            slots,
        ).outcome == Ok::<Value, RuntimeErrorView>(
            Value::Bool(
                forall|i: int|
                    0 <= i < patterns@.len() ==> pattern_matches(
                        compact_pattern(#[trigger] patterns@[i]@, names.tags),
                        env.tags->0,
                    ),
            ),
        ),
{
    let compacted = compact_patterns(patterns@, names.tags);
    let tags = env.tags->0;
    assert(patterns_match(compacted, tags) == (forall|i: int|
        0 <= i < patterns@.len() ==> pattern_matches(
            compact_pattern(#[trigger] patterns@[i]@, names.tags),
            tags,
        ))) by {
        if patterns_match(compacted, tags) {
            assert forall|i: int| 0 <= i < patterns@.len() implies pattern_matches(
                compact_pattern(#[trigger] patterns@[i]@, names.tags),
                tags,
            ) by {
                assert(pattern_matches(compacted[i], tags));
            }
        }
    }
}

/// The key that a pattern is about.
pub open spec fn key_of<K>(pattern: TagPatternView<K>) -> K {
    match pattern {
        TagPatternView::Exists(key) => key,
        TagPatternView::NotExists(key) => key,
        TagPatternView::OneOf(key, _) => key,
        TagPatternView::NoneOf(key, _) => key,
    }
}

/// A tag expression of one pattern on a key that the dictionary does not
/// hold evaluates to true if the pattern is `NotExists`, and to false if
/// it is `Exists`, `OneOf` or `NoneOf`, whatever feature is at hand.
pub proof fn lemma_undeclared_key_evaluates(
    patterns: Vec<TagPattern<String>>,
    names: Names,
    vars: Variables,
    env: Env,
    slots: Slots,
)
    requires
        patterns@.len() == 1,
        !names.tags.contains(key_of(patterns@[0]@)),
        env.tags matches Some(tags) && valid_tags(tags),
    ensures
        lower(Expression::TagPattern(patterns), names, vars) matches Ok((lowered, _)) && eval(
            lowered,
            env,
            slots,
        ).outcome == Ok::<Value, RuntimeErrorView>(Value::Bool(patterns@[0]@ is NotExists)),
{
    lemma_tag_expression(patterns, names, vars, env, slots);
    let values = match patterns@[0]@ {
        TagPatternView::OneOf(_, values) => values,
        TagPatternView::NoneOf(_, values) => values,
        _ => Seq::empty(),
    };
    lemma_undeclared_key_is_absent(names.tags, key_of(patterns@[0]@), values, env.tags->0);
}

} // verus!
