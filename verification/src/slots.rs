//! Each slot is the cell of one variable.
//!
//! The compiler gives a variable its slot id when the variable is first
//! used, and binds the id where the variable is defined. So the id stays
//! with the definition for as long as the definition is in sight, a
//! definition that shadows another gets an id of its own, and no id is
//! given out twice. In what the compiler makes, two variables with the
//! same slot therefore have the same definition.

use vstd::prelude::*;
use crate::compile::{
    lower, lower_all, lower_block, lower_clauses, lower_condition, lower_defs, Names, Variables,
};
use crate::ir::ExprView;
use crate::runtime::{compile, load, names_of};
use crate::scope::lemma_holder;
use crate::syntax::{Condition, Def, Expression, NamedBlock, Profile, WhenClause};

verus! {

/// Whether every variable in `expr` has the definition that `owner` has
/// for its slot, and so has every variable in that definition.
pub open spec fn agrees(expr: ExprView, owner: Map<u16, ExprView>) -> bool
    decreases expr,
{
    match expr {
        ExprView::LookupOrCompute(slot, def) => owner.dom().contains(slot) && owner[slot] == *def
            && agrees(*def, owner),
        ExprView::Block(_, body) => forall|i: int|
            0 <= i < body.len() ==> agrees(#[trigger] body[i], owner),
        ExprView::When(clauses) => forall|i: int|
            0 <= i < clauses.len() ==> agrees((#[trigger] clauses[i]).0, owner) && agrees(
                clauses[i].1,
                owner,
            ),
        _ => true,
    }
}

/// Whether every expression of a list agrees with `owner`.
pub open spec fn all_agree(body: Seq<ExprView>, owner: Map<u16, ExprView>) -> bool {
    forall|i: int| 0 <= i < body.len() ==> agrees(#[trigger] body[i], owner)
}

/// Whether the condition and the value of every clause agree with `owner`.
pub open spec fn clauses_agree(clauses: Seq<(ExprView, ExprView)>, owner: Map<u16, ExprView>)
    -> bool {
    forall|i: int|
        0 <= i < clauses.len() ==> agrees((#[trigger] clauses[i]).0, owner) && agrees(
            clauses[i].1,
            owner,
        )
}

/// Whether `more` has every owner that `owner` has.
pub open spec fn keeps(owner: Map<u16, ExprView>, more: Map<u16, ExprView>) -> bool {
    forall|slot: u16| #[trigger]
        owner.dom().contains(slot) ==> more.dom().contains(slot) && more[slot] == owner[slot]
}

/// Whether each slot in `expr` is the cell of one variable: some choice
/// of one definition for each slot is the definition of every variable
/// that has the slot, wherever in `expr` the variable stands.
pub open spec fn one_definition_per_slot(expr: ExprView) -> bool {
    exists|owner: Map<u16, ExprView>| agrees(expr, owner)
}

/// Whether the variables in sight are owned as `owner` says: a slot id
/// is bound only where the variable is defined, it is the slot of that
/// definition, every definition in sight agrees with `owner`, and no
/// slot has an owner before its id is given out.
pub open spec fn owned(vars: Variables, owner: Map<u16, ExprView>) -> bool {
    &&& vars.ids.len() == vars.defs.len() >= 1
    &&& forall|i: int, name: Seq<char>|
        0 <= i < vars.ids.len() && #[trigger] vars.ids[i].dom().contains(name) ==> {
            &&& vars.defs[i].dom().contains(name)
            &&& owner.dom().contains(vars.ids[i][name])
            &&& owner[vars.ids[i][name]] == vars.defs[i][name]
        }
    &&& forall|i: int, name: Seq<char>|
        0 <= i < vars.defs.len() && #[trigger] vars.defs[i].dom().contains(name) ==> agrees(
            vars.defs[i][name],
            owner,
        )
    &&& forall|slot: u16| #[trigger] owner.dom().contains(slot) ==> slot < vars.next_id
}

/// What lowering keeps: the owners that were are still the owners, the
/// variables are owned, and the scopes that were open are open.
pub open spec fn kept_owned(
    vars: Variables,
    owner: Map<u16, ExprView>,
    after: Variables,
    more: Map<u16, ExprView>,
) -> bool {
    &&& keeps(owner, more)
    &&& owned(after, more)
    &&& after.ids.len() == vars.ids.len()
    &&& vars.next_id <= after.next_id
}

/// An expression that agrees with some owners agrees with more owners.
pub proof fn lemma_agrees_with_more(
    expr: ExprView,
    owner: Map<u16, ExprView>,
    more: Map<u16, ExprView>,
)
    requires
        agrees(expr, owner),
        keeps(owner, more),
    ensures
        agrees(expr, more),
    decreases expr,
{
    match expr {
        ExprView::LookupOrCompute(slot, def) => {
            lemma_agrees_with_more(*def, owner, more);
        },
        ExprView::Block(_, body) => {
            assert forall|i: int| 0 <= i < body.len() implies agrees(#[trigger] body[i], more) by {
                lemma_agrees_with_more(body[i], owner, more);
            }
        },
        ExprView::When(clauses) => {
            assert forall|i: int| 0 <= i < clauses.len() implies agrees(
                (#[trigger] clauses[i]).0,
                more,
            ) && agrees(clauses[i].1, more) by {
                lemma_agrees_with_more(clauses[i].0, owner, more);
                lemma_agrees_with_more(clauses[i].1, owner, more);
            }
        },
        _ => {},
    }
}

proof fn lemma_owned_with_more(
    vars: Variables,
    owner: Map<u16, ExprView>,
    after: Variables,
    more: Map<u16, ExprView>,
)
    requires
        owned(vars, owner),
        keeps(owner, more),
        after.defs == vars.defs,
    ensures
        forall|i: int, name: Seq<char>|
            0 <= i < after.defs.len() && #[trigger] after.defs[i].dom().contains(name) ==> agrees(
                after.defs[i][name],
                more,
            ),
{
    assert forall|i: int, name: Seq<char>|
        0 <= i < after.defs.len() && #[trigger] after.defs[i].dom().contains(name) implies agrees(
        after.defs[i][name],
        more,
    ) by {
        lemma_agrees_with_more(vars.defs[i][name], owner, more);
    }
}

proof fn lemma_all_agree_with_more(
    body: Seq<ExprView>,
    owner: Map<u16, ExprView>,
    more: Map<u16, ExprView>,
)
    requires
        all_agree(body, owner),
        keeps(owner, more),
    ensures
        all_agree(body, more),
{
    assert forall|i: int| 0 <= i < body.len() implies agrees(#[trigger] body[i], more) by {
        lemma_agrees_with_more(body[i], owner, more);
    }
}

proof fn lemma_clauses_agree_with_more(
    clauses: Seq<(ExprView, ExprView)>,
    owner: Map<u16, ExprView>,
    more: Map<u16, ExprView>,
)
    requires
        clauses_agree(clauses, owner),
        keeps(owner, more),
    ensures
        clauses_agree(clauses, more),
{
    assert forall|i: int| 0 <= i < clauses.len() implies agrees((#[trigger] clauses[i]).0, more)
        && agrees(clauses[i].1, more) by {
        lemma_agrees_with_more(clauses[i].0, owner, more);
        lemma_agrees_with_more(clauses[i].1, owner, more);
    }
}

proof fn lemma_ident_owned(name: String, names: Names, vars: Variables, owner: Map<u16, ExprView>)
    -> (more: Map<u16, ExprView>)
    requires
        owned(vars, owner),
    ensures
        keeps(owner, more),
        lower(Expression::Ident(name), names, vars) matches Ok((lowered, after)) ==> agrees(
            lowered,
            more,
        ) && kept_owned(vars, owner, after, more),
{
    lemma_holder(vars.defs, name@);
    match vars.home(name@) {
        Some(at) => {
            let def = vars.defs[at][name@];
            if vars.slot(name@) is None && vars.has_room() {
                let after = vars.add(at, name@);
                let more = owner.insert(vars.next_id, def);
                lemma_agrees_with_more(def, owner, more);
                lemma_owned_with_more(vars, owner, after, more);
                more
            } else {
                owner
            }
        },
        None => owner,
    }
}

/// Lowering keeps the variables owned, and what it makes agrees with
/// their owners.
pub proof fn lemma_lower_owned(
    expr: Expression,
    names: Names,
    vars: Variables,
    owner: Map<u16, ExprView>,
) -> (more: Map<u16, ExprView>)
    requires
        owned(vars, owner),
    ensures
        keeps(owner, more),
        lower(expr, names, vars) matches Ok((lowered, after)) ==> agrees(lowered, more)
            && kept_owned(vars, owner, after, more),
    decreases expr, 0nat,
{
    match expr {
        Expression::Literal(_) => owner,
        Expression::Ident(name) => lemma_ident_owned(name, names, vars, owner),
        Expression::TagPattern(_) => owner,
        Expression::NamedBlock(block) => lemma_lower_block_owned(block, names, vars, owner),
        Expression::WhenBlock(block) => lemma_lower_clauses_owned(
            block.0@,
            0,
            names,
            vars,
            Seq::empty(),
            owner,
        ),
    }
}

proof fn lemma_lower_block_owned(
    block: NamedBlock,
    names: Names,
    vars: Variables,
    owner: Map<u16, ExprView>,
) -> (more: Map<u16, ExprView>)
    requires
        owned(vars, owner),
    ensures
        keeps(owner, more),
        lower_block(block, names, vars) matches Ok((lowered, after)) ==> agrees(lowered, more)
            && kept_owned(vars, owner, after, more),
    decreases block, 2nat,
{
    let entered = vars.push();
    assert(owned(entered, owner)) by {
        assert forall|i: int, name: Seq<char>|
            0 <= i < entered.ids.len() && #[trigger] entered.ids[i].dom().contains(
                name,
            ) implies {
            &&& entered.defs[i].dom().contains(name)
            &&& owner.dom().contains(entered.ids[i][name])
            &&& owner[entered.ids[i][name]] == entered.defs[i][name]
        } by {
            assert(vars.ids[i].dom().contains(name));
        }
        assert forall|i: int, name: Seq<char>|
            0 <= i < entered.defs.len() && #[trigger] entered.defs[i].dom().contains(
                name,
            ) implies agrees(entered.defs[i][name], owner) by {
            assert(vars.defs[i].dom().contains(name));
        }
    }
    let defined_owner = lemma_lower_defs_owned(block.defs@, 0, names, entered, owner);
    match lower_defs(block.defs@, 0, names, entered) {
        Ok(defined) => {
            let more = lemma_lower_all_owned(
                block.body@,
                0,
                names,
                defined,
                Seq::empty(),
                defined_owner,
            );
            match lower_all(block.body@, 0, names, defined, Seq::empty()) {
                Ok((body, last)) => {
                    let after = last.pop();
                    assert(owned(after, more)) by {
                        assert forall|i: int, name: Seq<char>|
                            0 <= i < after.ids.len() && #[trigger] after.ids[i].dom().contains(
                                name,
                            ) implies {
                            &&& after.defs[i].dom().contains(name)
                            &&& more.dom().contains(after.ids[i][name])
                            &&& more[after.ids[i][name]] == after.defs[i][name]
                        } by {
                            assert(last.ids[i].dom().contains(name));
                        }
                        assert forall|i: int, name: Seq<char>|
                            0 <= i < after.defs.len() && #[trigger] after.defs[i].dom().contains(
                                name,
                            ) implies agrees(after.defs[i][name], more) by {
                            assert(last.defs[i].dom().contains(name));
                        }
                    }
                },
                Err(_) => {},
            }
            more
        },
        Err(_) => defined_owner,
    }
}

proof fn lemma_lower_defs_owned(
    defs: Seq<Def>,
    i: int,
    names: Names,
    vars: Variables,
    owner: Map<u16, ExprView>,
) -> (more: Map<u16, ExprView>)
    requires
        owned(vars, owner),
    ensures
        keeps(owner, more),
        lower_defs(defs, i, names, vars) matches Ok(after) ==> kept_owned(
            vars,
            owner,
            after,
            more,
        ),
    decreases defs, defs.len() - i,
{
    if 0 <= i < defs.len() {
        let lowered_owner = lemma_lower_owned(defs[i].1, names, vars, owner);
        match lower(defs[i].1, names, vars) {
            Ok((def, lowered)) => {
                let defined = lowered.define(defs[i].0@, def);
                assert(owned(defined, lowered_owner)) by {
                    let top = lowered.ids.len() - 1;
                    assert forall|j: int, name: Seq<char>|
                        0 <= j < defined.ids.len() && #[trigger] defined.ids[j].dom().contains(
                            name,
                        ) implies {
                        &&& defined.defs[j].dom().contains(name)
                        &&& lowered_owner.dom().contains(defined.ids[j][name])
                        &&& lowered_owner[defined.ids[j][name]] == defined.defs[j][name]
                    } by {
                        assert(lowered.ids[j].dom().contains(name));
                    }
                    assert forall|j: int, name: Seq<char>|
                        0 <= j < defined.defs.len() && #[trigger] defined.defs[j].dom().contains(
                            name,
                        ) implies agrees(defined.defs[j][name], lowered_owner) by {
                        if !(j == top && name == defs[i].0@) {
                            assert(lowered.defs[j].dom().contains(name));
                        }
                    }
                }
                let more = lemma_lower_defs_owned(defs, i + 1, names, defined, lowered_owner);
                more
            },
            Err(_) => lowered_owner,
        }
    } else {
        owner
    }
}

proof fn lemma_lower_all_owned(
    body: Seq<Expression>,
    i: int,
    names: Names,
    vars: Variables,
    done: Seq<ExprView>,
    owner: Map<u16, ExprView>,
) -> (more: Map<u16, ExprView>)
    requires
        owned(vars, owner),
        all_agree(done, owner),
    ensures
        keeps(owner, more),
        lower_all(body, i, names, vars, done) matches Ok((all, after)) ==> all_agree(all, more)
            && kept_owned(vars, owner, after, more),
    decreases body, body.len() - i,
{
    if 0 <= i < body.len() {
        let lowered_owner = lemma_lower_owned(body[i], names, vars, owner);
        match lower(body[i], names, vars) {
            Ok((next, lowered)) => {
                lemma_all_agree_with_more(done, owner, lowered_owner);
                lemma_lower_all_owned(body, i + 1, names, lowered, done.push(next), lowered_owner)
            },
            Err(_) => lowered_owner,
        }
    } else {
        owner
    }
}

proof fn lemma_lower_condition_owned(
    condition: Condition,
    names: Names,
    vars: Variables,
    owner: Map<u16, ExprView>,
) -> (more: Map<u16, ExprView>)
    requires
        owned(vars, owner),
    ensures
        keeps(owner, more),
        lower_condition(condition, names, vars) matches Ok((lowered, after)) ==> agrees(
            lowered,
            more,
        ) && kept_owned(vars, owner, after, more),
    decreases condition, 1nat,
{
    match condition {
        Condition::Else => owner,
        Condition::Test(test) => lemma_lower_owned(test, names, vars, owner),
    }
}

proof fn lemma_lower_clauses_owned(
    clauses: Seq<WhenClause>,
    i: int,
    names: Names,
    vars: Variables,
    done: Seq<(ExprView, ExprView)>,
    owner: Map<u16, ExprView>,
) -> (more: Map<u16, ExprView>)
    requires
        owned(vars, owner),
        clauses_agree(done, owner),
    ensures
        keeps(owner, more),
        lower_clauses(clauses, i, names, vars, done) matches Ok((all, after)) ==> agrees(
            ExprView::When(all),
            more,
        ) && kept_owned(vars, owner, after, more),
    decreases clauses, clauses.len() - i,
{
    if 0 <= i < clauses.len() {
        let tested_owner = lemma_lower_condition_owned(clauses[i].condition, names, vars, owner);
        match lower_condition(clauses[i].condition, names, vars) {
            Ok((condition, tested)) => {
                let lowered_owner = lemma_lower_owned(
                    clauses[i].value,
                    names,
                    tested,
                    tested_owner,
                );
                match lower(clauses[i].value, names, tested) {
                    Ok((value, lowered)) => {
                        lemma_clauses_agree_with_more(done, owner, lowered_owner);
                        lemma_agrees_with_more(condition, tested_owner, lowered_owner);
                        lemma_lower_clauses_owned(
                            clauses,
                            i + 1,
                            names,
                            lowered,
                            done.push((condition, value)),
                            lowered_owner,
                        )
                    },
                    Err(_) => lowered_owner,
                }
            },
            Err(_) => tested_owner,
        }
    } else {
        owner
    }
}

/// In what an expression of a profile compiles to, each slot is the cell
/// of one variable: two variables with the same slot have the same
/// definition.
pub proof fn lemma_compiled_slots(expr: Expression, names: Names)
    ensures
        compile(expr, names) matches Ok(unit) ==> one_definition_per_slot(unit.expr),
{
    let owner = Map::<u16, ExprView>::empty();
    let more = lemma_lower_owned(expr, names, Variables::fresh(), owner);
    match lower(expr, names, Variables::fresh()) {
        Ok((lowered, _)) => {
            assert(agrees(lowered, more));
        },
        Err(_) => {},
    }
}

/// Two variables that agree with the same owners and have the same slot
/// have the same definition.
pub proof fn lemma_same_slot_same_definition(
    slot: u16,
    one: ExprView,
    other: ExprView,
    owner: Map<u16, ExprView>,
)
    requires
        agrees(ExprView::LookupOrCompute(slot, Box::new(one)), owner),
        agrees(ExprView::LookupOrCompute(slot, Box::new(other)), owner),
    ensures
        one == other,
{
}

/// In every profile that compiles, each slot of each compiled expression
/// is the cell of one variable.
pub proof fn lemma_loaded_slots(profile: Profile, globals: Seq<Seq<char>>, tags: Seq<Seq<char>>)
    ensures
        load(profile, globals, tags) matches Ok(runtime) ==> {
            &&& runtime.way_penalty matches Some(unit) ==> one_definition_per_slot(unit.expr)
            &&& runtime.node_penalty matches Some(unit) ==> one_definition_per_slot(unit.expr)
            &&& runtime.cost_factor matches Some(unit) ==> one_definition_per_slot(unit.expr)
        },
{
    let names = names_of(profile.constant_defs@, globals, tags);
    if profile.way_penalty is Some {
        lemma_compiled_slots(profile.way_penalty->0, names);
    }
    if profile.node_penalty is Some {
        lemma_compiled_slots(profile.node_penalty->0, names);
    }
    if profile.cost_factor is Some {
        lemma_compiled_slots(profile.cost_factor->0, names);
    }
}

} // verus!
