//! The first failure is the failure of the whole.
//!
//! Lowering goes through an expression in order and stops where a part
//! of it fails, and loading goes through a profile in the same way. So
//! a name that stands for nothing fails the load of the profile that it
//! is in, wherever it is, unless something before it fails first.

use vstd::prelude::*;
use crate::compile::{
    lower, lower_all, lower_clauses, lower_condition, lower_defs, Names, Variables,
};
use crate::error::CompileErrorView;
use crate::ir::{BlockTy, ExprView};
use crate::runtime::{
    compile_optional, constant_value, constants_from, load, names_of, RuntimeView,
};
use crate::syntax::{Def, Expression, NamedBlock, Profile, WhenBlock, WhenClause};
use crate::value::Value;

verus! {

/// A failed lowering.
pub open spec fn fails<T>(error: CompileErrorView) -> Result<T, CompileErrorView> {
    Err(error)
}

/// The variables after the first `k` expressions of a list are lowered,
/// if all of them can be.
pub open spec fn after_all(body: Seq<Expression>, k: int, names: Names, vars: Variables)
    -> Option<Variables>
    decreases k,
{
    if k <= 0 {
        Some(vars)
    } else {
        match after_all(body, k - 1, names, vars) {
            Some(before) => match lower(body[k - 1], names, before) {
                Ok((_, after)) => Some(after),
                Err(_) => None,
            },
            None => None,
        }
    }
}

/// The variables after the first `k` definitions of a block are lowered
/// and bound, if all of them can be.
pub open spec fn after_defs(defs: Seq<Def>, k: int, names: Names, vars: Variables) -> Option<
    Variables,
>
    decreases k,
{
    if k <= 0 {
        Some(vars)
    } else {
        match after_defs(defs, k - 1, names, vars) {
            Some(before) => match lower(defs[k - 1].1, names, before) {
                Ok((def, after)) => Some(after.define(defs[k - 1].0@, def)),
                Err(_) => None,
            },
            None => None,
        }
    }
}

/// The variables after the first `k` clauses of a `when` are lowered, if
/// all of them can be.
pub open spec fn after_clauses(clauses: Seq<WhenClause>, k: int, names: Names, vars: Variables)
    -> Option<Variables>
    decreases k,
{
    if k <= 0 {
        Some(vars)
    } else {
        match after_clauses(clauses, k - 1, names, vars) {
            Some(before) => match lower_condition(clauses[k - 1].condition, names, before) {
                Ok((_, tested)) => match lower(clauses[k - 1].value, names, tested) {
                    Ok((_, after)) => Some(after),
                    Err(_) => None,
                },
                Err(_) => None,
            },
            None => None,
        }
    }
}

proof fn lemma_after_all_before(
    body: Seq<Expression>,
    i: int,
    k: int,
    names: Names,
    vars: Variables,
)
    requires
        0 <= i <= k,
        after_all(body, k, names, vars) is Some,
    ensures
        after_all(body, i, names, vars) is Some,
    decreases k - i,
{
    if i < k {
        lemma_after_all_before(body, i, k - 1, names, vars);
    }
}

proof fn lemma_after_defs_before(defs: Seq<Def>, i: int, k: int, names: Names, vars: Variables)
    requires
        0 <= i <= k,
        after_defs(defs, k, names, vars) is Some,
    ensures
        after_defs(defs, i, names, vars) is Some,
    decreases k - i,
{
    if i < k {
        lemma_after_defs_before(defs, i, k - 1, names, vars);
    }
}

proof fn lemma_after_clauses_before(
    clauses: Seq<WhenClause>,
    i: int,
    k: int,
    names: Names,
    vars: Variables,
)
    requires
        0 <= i <= k,
        after_clauses(clauses, k, names, vars) is Some,
    ensures
        after_clauses(clauses, i, names, vars) is Some,
    decreases k - i,
{
    if i < k {
        lemma_after_clauses_before(clauses, i, k - 1, names, vars);
    }
}

proof fn lemma_lower_all_fails(
    body: Seq<Expression>,
    i: int,
    k: int,
    names: Names,
    vars: Variables,
    done: Seq<ExprView>,
    error: CompileErrorView,
)
    requires
        0 <= i <= k < body.len(),
        after_all(body, k, names, vars) matches Some(reached) && lower(body[k], names, reached)
            == fails::<(ExprView, Variables)>(error),
    ensures
        after_all(body, i, names, vars) is Some,
        lower_all(body, i, names, after_all(body, i, names, vars)->0, done) == fails::<
            (Seq<ExprView>, Variables),
        >(error),
    decreases k - i,
{
    lemma_after_all_before(body, i, k, names, vars);
    if i < k {
        lemma_after_all_before(body, i + 1, k, names, vars);
        let here = after_all(body, i, names, vars)->0;
        let next = lower(body[i], names, here)->Ok_0.0;
        lemma_lower_all_fails(body, i + 1, k, names, vars, done.push(next), error);
    }
}

proof fn lemma_lower_defs_fails(
    defs: Seq<Def>,
    i: int,
    k: int,
    names: Names,
    vars: Variables,
    error: CompileErrorView,
)
    requires
        0 <= i <= k < defs.len(),
        after_defs(defs, k, names, vars) matches Some(reached) && lower(defs[k].1, names, reached)
            == fails::<(ExprView, Variables)>(error),
    ensures
        after_defs(defs, i, names, vars) is Some,
        lower_defs(defs, i, names, after_defs(defs, i, names, vars)->0) == fails::<Variables>(
            error,
        ),
    decreases k - i,
{
    lemma_after_defs_before(defs, i, k, names, vars);
    if i < k {
        lemma_after_defs_before(defs, i + 1, k, names, vars);
        lemma_lower_defs_fails(defs, i + 1, k, names, vars, error);
    }
}

proof fn lemma_lower_clauses_fails(
    clauses: Seq<WhenClause>,
    i: int,
    k: int,
    names: Names,
    vars: Variables,
    done: Seq<(ExprView, ExprView)>,
    error: CompileErrorView,
)
    requires
        0 <= i <= k < clauses.len(),
        after_clauses(clauses, k, names, vars) matches Some(reached) && (match lower_condition(
            clauses[k].condition,
            names,
            reached,
        ) {
            Ok((_, tested)) => lower(clauses[k].value, names, tested) == fails::<
                (ExprView, Variables),
            >(error),
            Err(failure) => failure == error,
        }),
    ensures
        after_clauses(clauses, i, names, vars) is Some,
        lower_clauses(clauses, i, names, after_clauses(clauses, i, names, vars)->0, done)
            == fails::<(Seq<(ExprView, ExprView)>, Variables)>(error),
    decreases k - i,
{
    lemma_after_clauses_before(clauses, i, k, names, vars);
    if i < k {
        lemma_after_clauses_before(clauses, i + 1, k, names, vars);
        let here = after_clauses(clauses, i, names, vars)->0;
        let condition = lower_condition(clauses[i].condition, names, here)->Ok_0;
        let value = lower(clauses[i].value, names, condition.1)->Ok_0.0;
        lemma_lower_clauses_fails(
            clauses,
            i + 1,
            k,
            names,
            vars,
            done.push((condition.0, value)),
            error,
        );
    }
}

/// A definition that fails to lower fails the block that it stands in,
/// if the definitions before it lower.
pub proof fn lemma_failing_definition_fails_block(
    block: NamedBlock,
    k: int,
    names: Names,
    vars: Variables,
    error: CompileErrorView,
)
    requires
        0 <= k < block.defs@.len(),
        after_defs(block.defs@, k, names, vars.push()) matches Some(reached) && lower(
            block.defs@[k].1,
            names,
            reached,
        ) == fails::<(ExprView, Variables)>(error),
    ensures
        lower(Expression::NamedBlock(block), names, vars) == fails::<(ExprView, Variables)>(error),
{
    lemma_lower_defs_fails(block.defs@, 0, k, names, vars.push(), error);
}

/// An argument that fails to lower fails the block that it stands in, if
/// the block's definitions lower, its name stands for a kind of block
/// that takes as many arguments as it has, and the arguments before the
/// failing one lower.
pub proof fn lemma_failing_argument_fails_block(
    block: NamedBlock,
    k: int,
    names: Names,
    vars: Variables,
    error: CompileErrorView,
)
    requires
        0 <= k < block.body@.len(),
        lower_defs(block.defs@, 0, names, vars.push()) is Ok,
        BlockTy::named(block.name@) matches Some(kind) && kind.spec_arity().admits(
            block.body@.len(),
        ),
        after_all(
            block.body@,
            k,
            names,
            lower_defs(block.defs@, 0, names, vars.push())->Ok_0,
        ) matches Some(reached) && lower(block.body@[k], names, reached) == fails::<
            (ExprView, Variables),
        >(error),
    ensures
        lower(Expression::NamedBlock(block), names, vars) == fails::<(ExprView, Variables)>(error),
{
    let defined = lower_defs(block.defs@, 0, names, vars.push())->Ok_0;
    lemma_lower_all_fails(block.body@, 0, k, names, defined, Seq::empty(), error);
}

/// A condition or a value that fails to lower fails the `when` that it
/// stands in, if the clauses before its clause lower, and for a value
/// the condition of its clause.
pub proof fn lemma_failing_clause_fails_when(
    block: WhenBlock,
    k: int,
    names: Names,
    vars: Variables,
    error: CompileErrorView,
)
    requires
        0 <= k < block.0@.len(),
        after_clauses(block.0@, k, names, vars) matches Some(reached) && (match lower_condition(
            block.0@[k].condition,
            names,
            reached,
        ) {
            Ok((_, tested)) => lower(block.0@[k].value, names, tested) == fails::<
                (ExprView, Variables),
            >(error),
            Err(failure) => failure == error,
        }),
    ensures
        lower(Expression::WhenBlock(block), names, vars) == fails::<(ExprView, Variables)>(error),
{
    lemma_lower_clauses_fails(block.0@, 0, k, names, vars, Seq::empty(), error);
}

proof fn lemma_constants_fail(
    defs: Seq<Def>,
    i: int,
    k: int,
    globals: Seq<Seq<char>>,
    tags: Seq<Seq<char>>,
    offered: Map<Seq<char>, u32>,
    values: Seq<Value>,
    error: CompileErrorView,
)
    requires
        0 <= i <= k < defs.len(),
        values.len() == k,
        forall|j: int|
            0 <= j < k ==> constant_value(defs, j, globals, tags, offered, values.take(j)) == Ok::<
                Value,
                CompileErrorView,
            >(#[trigger] values[j]),
        constant_value(defs, k, globals, tags, offered, values) == fails::<Value>(error),
    ensures
        constants_from(defs, i, globals, tags, offered, values.take(i)) == fails::<Seq<Value>>(
            error,
        ),
    decreases k - i,
{
    if i < k {
        assert(values.take(i).push(values[i]) =~= values.take(i + 1));
        lemma_constants_fail(defs, i + 1, k, globals, tags, offered, values, error);
    } else {
        assert(values.take(k) =~= values);
    }
}

/// A constant that fails fails the load of its profile with its own
/// failure, if the constants before it have values: no compiled profile
/// is made, so nothing of the profile is ever evaluated against a
/// feature.
pub proof fn lemma_failing_constant_fails_load(
    profile: Profile,
    k: int,
    globals: Seq<Seq<char>>,
    tags: Seq<Seq<char>>,
    values: Seq<Value>,
    error: CompileErrorView,
)
    requires
        0 <= k < profile.constant_defs@.len() < u8::MAX,
        values.len() == k,
        forall|j: int|
            0 <= j < k ==> constant_value(
                profile.constant_defs@,
                j,
                globals,
                tags,
                Map::empty(),
                values.take(j),
            ) == Ok::<Value, CompileErrorView>(#[trigger] values[j]),
        constant_value(profile.constant_defs@, k, globals, tags, Map::empty(), values) == fails::<
            Value,
        >(error),
    ensures
        load(profile, globals, tags) == fails::<RuntimeView>(error),
{
    lemma_constants_fail(
        profile.constant_defs@,
        0,
        k,
        globals,
        tags,
        Map::empty(),
        values,
        error,
    );
    assert(values.take(0) =~= Seq::<Value>::empty());
}

/// An expression of a profile that fails to compile fails the load of
/// the profile with its own failure, if what comes before it does not
/// fail: the constants come before the way penalty, the way penalty
/// before the node penalty, and the node penalty before the cost factor.
pub proof fn lemma_failing_expression_fails_load(
    profile: Profile,
    globals: Seq<Seq<char>>,
    tags: Seq<Seq<char>>,
    error: CompileErrorView,
)
    requires
        profile.constant_defs@.len() < u8::MAX,
        constants_from(profile.constant_defs@, 0, globals, tags, Map::empty(), Seq::empty())
            is Ok,
        ({
            let names = names_of(profile.constant_defs@, globals, tags);
            let way = compile_optional(profile.way_penalty, names);
            let node = compile_optional(profile.node_penalty, names);
            let cost = compile_optional(profile.cost_factor, names);
            ||| way == fails::<Option<crate::runtime::Unit>>(error)
            ||| way is Ok && node == fails::<Option<crate::runtime::Unit>>(error)
            ||| way is Ok && node is Ok && cost == fails::<Option<crate::runtime::Unit>>(error)
        }),
    ensures
        load(profile, globals, tags) == fails::<RuntimeView>(error),
{
}

} // verus!
