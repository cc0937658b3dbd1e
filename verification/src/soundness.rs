//! What the compiler keeps, and what the interpreter has from it.
//!
//! A compiled expression is sound if every index, slot id and global name
//! in it is in range and every block has as many arguments as its kind
//! takes. The compiler only makes sound expressions, and the evaluation
//! of a sound expression never runs into an internal error.

use vstd::prelude::*;
use crate::compile::{
    constant_ids, lower, lower_all, lower_block, lower_clauses, lower_condition, lower_defs, Names,
    Variables,
};
use crate::error::{CompileErrorView, Outcome, RuntimeErrorView};
use crate::ir::{BlockTy, ExprView};
use crate::runtime::{
    compile, compile_optional, constants_from, load, names_of, run, RuntimeView, Unit,
};
use crate::scope::lemma_holder;
use crate::semantics::{
    accumulate, eval, eval_fold, eval_scan, eval_when, no_slots_filled, Env, Slots,
};
use crate::syntax::{Condition, Def, Expression, NamedBlock, Profile, WhenClause};
use crate::tags::TagDictId;
use crate::value::{ArithOp, Number, Value};

verus! {

/// Whether `expr` can be evaluated with `constants` constants and `slots`
/// slots where each global on the list `globals` is on offer: it looks up
/// no other constant, slot or global, and each of its blocks has as many
/// arguments as its kind takes.
pub open spec fn sound(expr: ExprView, constants: nat, slots: nat, globals: Seq<Seq<char>>) -> bool
    decreases expr,
{
    match expr {
        ExprView::Literal(_) => true,
        ExprView::LookupConstant(index) => (index as nat) < constants,
        ExprView::LookupGlobal(name) => globals.contains(name),
        ExprView::LookupOrCompute(slot, def) => (slot as nat) < slots && sound(
            *def,
            constants,
            slots,
            globals,
        ),
        ExprView::Block(kind, body) => kind.spec_arity().admits(body.len()) && forall|i: int|
            0 <= i < body.len() ==> sound(#[trigger] body[i], constants, slots, globals),
        ExprView::When(clauses) => forall|i: int|
            0 <= i < clauses.len() ==> sound((#[trigger] clauses[i]).0, constants, slots, globals)
                && sound(clauses[i].1, constants, slots, globals),
        ExprView::TagPattern(_) => true,
    }
}

/// Whether every expression of a list is sound.
pub open spec fn all_sound(
    body: Seq<ExprView>,
    constants: nat,
    slots: nat,
    globals: Seq<Seq<char>>,
) -> bool {
    forall|i: int| 0 <= i < body.len() ==> sound(#[trigger] body[i], constants, slots, globals)
}

/// Whether the condition and the value of every clause are sound.
pub open spec fn clauses_sound(
    clauses: Seq<(ExprView, ExprView)>,
    constants: nat,
    slots: nat,
    globals: Seq<Seq<char>>,
) -> bool {
    forall|i: int|
        0 <= i < clauses.len() ==> sound((#[trigger] clauses[i]).0, constants, slots, globals)
            && sound(clauses[i].1, constants, slots, globals)
}

/// Whether every constant has an index below `constants`.
pub open spec fn names_sound(names: Names, constants: nat) -> bool {
    forall|name: Seq<char>| #[trigger]
        names.constants.dom().contains(name) ==> (names.constants[name] as nat) < constants
}

/// Whether the variables in sight are in order: every slot id given out
/// is below the next one, and every definition is sound.
pub open spec fn vars_sound(vars: Variables, constants: nat, globals: Seq<Seq<char>>) -> bool {
    &&& vars.ids.len() == vars.defs.len() >= 1
    &&& forall|i: int, name: Seq<char>|
        0 <= i < vars.ids.len() && #[trigger] vars.ids[i].dom().contains(name) ==> vars.ids[i][name]
            < vars.next_id
    &&& forall|i: int, name: Seq<char>|
        0 <= i < vars.defs.len() && #[trigger] vars.defs[i].dom().contains(name) ==> sound(
            vars.defs[i][name],
            constants,
            vars.next_id as nat,
            globals,
        )
}

/// An expression that is sound with some slots is sound with more.
pub proof fn lemma_sound_with_more_slots(
    expr: ExprView,
    constants: nat,
    slots: nat,
    more: nat,
    globals: Seq<Seq<char>>,
)
    requires
        sound(expr, constants, slots, globals),
        slots <= more,
    ensures
        sound(expr, constants, more, globals),
    decreases expr,
{
    match expr {
        ExprView::LookupOrCompute(slot, def) => {
            lemma_sound_with_more_slots(*def, constants, slots, more, globals);
        },
        ExprView::Block(kind, body) => {
            assert forall|i: int| 0 <= i < body.len() implies sound(
                #[trigger] body[i],
                constants,
                more,
                globals,
            ) by {
                lemma_sound_with_more_slots(body[i], constants, slots, more, globals);
            }
        },
        ExprView::When(clauses) => {
            assert forall|i: int| 0 <= i < clauses.len() implies sound(
                (#[trigger] clauses[i]).0,
                constants,
                more,
                globals,
            ) && sound(clauses[i].1, constants, more, globals) by {
                lemma_sound_with_more_slots(clauses[i].0, constants, slots, more, globals);
                lemma_sound_with_more_slots(clauses[i].1, constants, slots, more, globals);
            }
        },
        _ => {},
    }
}

/// What lowering keeps of the variables: they stay in order, no slot id
/// is taken back, and the scopes that were open are open.
pub open spec fn kept(
    vars: Variables,
    after: Variables,
    constants: nat,
    globals: Seq<Seq<char>>,
) -> bool {
    &&& vars_sound(after, constants, globals)
    &&& vars.next_id <= after.next_id
    &&& after.ids.len() == vars.ids.len()
    &&& after.defs.len() == vars.defs.len()
}

proof fn lemma_all_sound_with_more_slots(
    body: Seq<ExprView>,
    constants: nat,
    slots: nat,
    more: nat,
    globals: Seq<Seq<char>>,
)
    requires
        all_sound(body, constants, slots, globals),
        slots <= more,
    ensures
        all_sound(body, constants, more, globals),
{
    assert forall|i: int| 0 <= i < body.len() implies sound(
        #[trigger] body[i],
        constants,
        more,
        globals,
    ) by {
        lemma_sound_with_more_slots(body[i], constants, slots, more, globals);
    }
}

proof fn lemma_clauses_sound_with_more_slots(
    clauses: Seq<(ExprView, ExprView)>,
    constants: nat,
    slots: nat,
    more: nat,
    globals: Seq<Seq<char>>,
)
    requires
        clauses_sound(clauses, constants, slots, globals),
        slots <= more,
    ensures
        clauses_sound(clauses, constants, more, globals),
{
    assert forall|i: int| 0 <= i < clauses.len() implies sound(
        (#[trigger] clauses[i]).0,
        constants,
        more,
        globals,
    ) && sound(clauses[i].1, constants, more, globals) by {
        lemma_sound_with_more_slots(clauses[i].0, constants, slots, more, globals);
        lemma_sound_with_more_slots(clauses[i].1, constants, slots, more, globals);
    }
}

proof fn lemma_ident_sound(name: String, names: Names, vars: Variables, constants: nat)
    requires
        names_sound(names, constants),
        vars_sound(vars, constants, names.globals),
    ensures
        lower(Expression::Ident(name), names, vars) matches Ok((lowered, after)) ==> sound(
            lowered,
            constants,
            after.next_id as nat,
            names.globals,
        ) && kept(vars, after, constants, names.globals),
{
    let globals = names.globals;
    lemma_holder(vars.defs, name@);
    match vars.home(name@) {
        Some(at) => {
            let def = vars.defs[at][name@];
            if vars.slot(name@) is None && vars.has_room() {
                let after = vars.add(at, name@);
                lemma_sound_with_more_slots(
                    def,
                    constants,
                    vars.next_id as nat,
                    after.next_id as nat,
                    globals,
                );
                assert forall|i: int, other: Seq<char>|
                    0 <= i < after.defs.len() && #[trigger] after.defs[i].dom().contains(
                        other,
                    ) implies sound(
                    after.defs[i][other],
                    constants,
                    after.next_id as nat,
                    globals,
                ) by {
                    lemma_sound_with_more_slots(
                        vars.defs[i][other],
                        constants,
                        vars.next_id as nat,
                        after.next_id as nat,
                        globals,
                    );
                }
            }
        },
        None => {},
    }
}

/// Lowering makes a sound expression and keeps the variables in order.
pub proof fn lemma_lower_sound(expr: Expression, names: Names, vars: Variables, constants: nat)
    requires
        names_sound(names, constants),
        vars_sound(vars, constants, names.globals),
    ensures
        lower(expr, names, vars) matches Ok((lowered, after)) ==> sound(
            lowered,
            constants,
            after.next_id as nat,
            names.globals,
        ) && kept(vars, after, constants, names.globals),
    decreases expr, 0nat,
{
    match expr {
        Expression::Literal(_) => {},
        Expression::Ident(name) => {
            lemma_ident_sound(name, names, vars, constants);
        },
        Expression::TagPattern(_) => {},
        Expression::NamedBlock(block) => {
            lemma_lower_block_sound(block, names, vars, constants);
        },
        Expression::WhenBlock(block) => {
            lemma_lower_clauses_sound(block.0@, 0, names, vars, Seq::empty(), constants);
        },
    }
}

proof fn lemma_lower_block_sound(block: NamedBlock, names: Names, vars: Variables, constants: nat)
    requires
        names_sound(names, constants),
        vars_sound(vars, constants, names.globals),
    ensures
        lower_block(block, names, vars) matches Ok((lowered, after)) ==> sound(
            lowered,
            constants,
            after.next_id as nat,
            names.globals,
        ) && kept(vars, after, constants, names.globals),
    decreases block, 2nat,
{
    lemma_lower_defs_sound(block.defs@, 0, names, vars.push(), constants);
    match lower_defs(block.defs@, 0, names, vars.push()) {
        Ok(defined) => {
            lemma_lower_all_sound(block.body@, 0, names, defined, Seq::empty(), constants);
        },
        Err(_) => {},
    }
}

proof fn lemma_lower_defs_sound(
    defs: Seq<Def>,
    i: int,
    names: Names,
    vars: Variables,
    constants: nat,
)
    requires
        names_sound(names, constants),
        vars_sound(vars, constants, names.globals),
    ensures
        lower_defs(defs, i, names, vars) matches Ok(after) ==> kept(
            vars,
            after,
            constants,
            names.globals,
        ),
    decreases defs, defs.len() - i,
{
    if 0 <= i < defs.len() {
        lemma_lower_sound(defs[i].1, names, vars, constants);
        match lower(defs[i].1, names, vars) {
            Ok((def, lowered)) => {
                lemma_lower_defs_sound(
                    defs,
                    i + 1,
                    names,
                    lowered.define(defs[i].0@, def),
                    constants,
                );
            },
            Err(_) => {},
        }
    }
}

proof fn lemma_lower_all_sound(
    body: Seq<Expression>,
    i: int,
    names: Names,
    vars: Variables,
    done: Seq<ExprView>,
    constants: nat,
)
    requires
        0 <= i,
        names_sound(names, constants),
        vars_sound(vars, constants, names.globals),
        all_sound(done, constants, vars.next_id as nat, names.globals),
    ensures
        lower_all(body, i, names, vars, done) matches Ok((all, after)) ==> {
            &&& all_sound(all, constants, after.next_id as nat, names.globals)
            &&& kept(vars, after, constants, names.globals)
            &&& all.len() == done.len() + (if i < body.len() {
                body.len() - i
            } else {
                0
            })
        },
    decreases body, body.len() - i,
{
    let globals = names.globals;
    if i < body.len() {
        lemma_lower_sound(body[i], names, vars, constants);
        match lower(body[i], names, vars) {
            Ok((next, lowered)) => {
                lemma_all_sound_with_more_slots(
                    done,
                    constants,
                    vars.next_id as nat,
                    lowered.next_id as nat,
                    globals,
                );
                lemma_lower_all_sound(body, i + 1, names, lowered, done.push(next), constants);
            },
            Err(_) => {},
        }
    }
}

proof fn lemma_lower_condition_sound(
    condition: Condition,
    names: Names,
    vars: Variables,
    constants: nat,
)
    requires
        names_sound(names, constants),
        vars_sound(vars, constants, names.globals),
    ensures
        lower_condition(condition, names, vars) matches Ok((lowered, after)) ==> sound(
            lowered,
            constants,
            after.next_id as nat,
            names.globals,
        ) && kept(vars, after, constants, names.globals),
    decreases condition, 1nat,
{
    match condition {
        Condition::Else => {},
        Condition::Test(test) => {
            lemma_lower_sound(test, names, vars, constants);
        },
    }
}

proof fn lemma_lower_clauses_sound(
    clauses: Seq<WhenClause>,
    i: int,
    names: Names,
    vars: Variables,
    done: Seq<(ExprView, ExprView)>,
    constants: nat,
)
    requires
        0 <= i,
        names_sound(names, constants),
        vars_sound(vars, constants, names.globals),
        clauses_sound(done, constants, vars.next_id as nat, names.globals),
    ensures
        lower_clauses(clauses, i, names, vars, done) matches Ok((all, after)) ==> {
            &&& clauses_sound(all, constants, after.next_id as nat, names.globals)
            &&& kept(vars, after, constants, names.globals)
        },
    decreases clauses, clauses.len() - i,
{
    let globals = names.globals;
    if i < clauses.len() {
        lemma_lower_condition_sound(clauses[i].condition, names, vars, constants);
        match lower_condition(clauses[i].condition, names, vars) {
            Ok((condition, tested)) => {
                lemma_lower_sound(clauses[i].value, names, tested, constants);
                match lower(clauses[i].value, names, tested) {
                    Ok((value, lowered)) => {
                        lemma_clauses_sound_with_more_slots(
                            done,
                            constants,
                            vars.next_id as nat,
                            lowered.next_id as nat,
                            globals,
                        );
                        lemma_sound_with_more_slots(
                            condition,
                            constants,
                            tested.next_id as nat,
                            lowered.next_id as nat,
                            globals,
                        );
                        lemma_lower_clauses_sound(
                            clauses,
                            i + 1,
                            names,
                            lowered,
                            done.push((condition, value)),
                            constants,
                        );
                    },
                    Err(_) => {},
                }
            },
            Err(_) => {},
        }
    }
}

/// Whether every global on the list is on offer.
pub open spec fn offers(globals: Seq<Seq<char>>, offered: Map<Seq<char>, u32>) -> bool {
    forall|i: int| 0 <= i < globals.len() ==> offered.dom().contains(#[trigger] globals[i])
}

/// Whether an evaluation ended in an internal error.
pub open spec fn is_internal(outcome: Outcome) -> bool {
    outcome matches Err(RuntimeErrorView::Internal(_))
}

/// Whether the evaluation lacks what a failure complains of: the failure
/// is the lack of a feature where no feature is at hand, or the lack of a
/// global on the list that is not on offer.
pub open spec fn lacks(env: Env, globals: Seq<Seq<char>>, failure: RuntimeErrorView) -> bool {
    ||| env.tags is None && failure == RuntimeErrorView::no_tags()
    ||| exists|name: Seq<char>| #[trigger]
        globals.contains(name) && !env.globals.dom().contains(name) && failure
            == RuntimeErrorView::bad_global(name)
}

/// What the definition of a constant lacks when it fails with this
/// failure while no global is on offer: it tests a tag, or it reads a
/// global.
pub open spec fn constant_lacks(globals: Seq<Seq<char>>, failure: RuntimeErrorView) -> bool {
    ||| failure == RuntimeErrorView::no_tags()
    ||| exists|name: Seq<char>| #[trigger]
        globals.contains(name) && failure == RuntimeErrorView::bad_global(name)
}

/// Whether an outcome is one that a sound expression can have: if it is
/// an internal error, the evaluation lacks what the error complains of.
pub open spec fn excused(env: Env, globals: Seq<Seq<char>>, outcome: Outcome) -> bool {
    outcome matches Err(failure) ==> failure is Internal ==> lacks(env, globals, failure)
}

/// What an evaluation has when it lacks nothing: a feature is at hand and
/// the globals on the list are on offer.
pub open spec fn fits(env: Env, globals: Seq<Seq<char>>) -> bool {
    &&& env.tags is Some
    &&& offers(globals, env.globals)
}

/// An evaluation that lacks nothing is excused of no internal error.
pub proof fn lemma_nothing_lacks(env: Env, globals: Seq<Seq<char>>, outcome: Outcome)
    requires
        fits(env, globals),
        excused(env, globals, outcome),
    ensures
        !is_internal(outcome),
{
}

/// The evaluation of a sound expression ends in an internal error only
/// for lack of a feature or of a global, and it leaves as many slots as
/// it found.
pub proof fn lemma_eval_sound(expr: ExprView, env: Env, slots: Slots, globals: Seq<Seq<char>>)
    requires
        sound(expr, env.constants.len(), slots.len(), globals),
    ensures
        excused(env, globals, eval(expr, env, slots).outcome),
        eval(expr, env, slots).slots.len() == slots.len(),
    decreases expr, 0nat,
{
    match expr {
        ExprView::LookupOrCompute(slot, def) => {
            if slots[slot as int] is None {
                lemma_eval_sound(*def, env, slots, globals);
            }
        },
        ExprView::Block(kind, body) => {
            match kind {
                BlockTy::Any => lemma_scan_sound(body, 0, env, slots, globals, true, true),
                BlockTy::All => lemma_scan_sound(body, 0, env, slots, globals, false, false),
                BlockTy::NotAny => lemma_scan_sound(body, 0, env, slots, globals, true, false),
                BlockTy::Return => {
                    lemma_eval_sound(body[0], env, slots, globals);
                },
                BlockTy::Sum => lemma_fold_sound(ArithOp::Sum, body, 0, None, env, slots, globals),
                BlockTy::Sub => lemma_fold_sound(ArithOp::Sub, body, 0, None, env, slots, globals),
                BlockTy::Mul => lemma_fold_sound(ArithOp::Mul, body, 0, None, env, slots, globals),
                BlockTy::Div => lemma_fold_sound(ArithOp::Div, body, 0, None, env, slots, globals),
            }
        },
        ExprView::When(clauses) => {
            lemma_when_sound(clauses, 0, env, slots, globals);
        },
        _ => {},
    }
}

proof fn lemma_scan_sound(
    body: Seq<ExprView>,
    i: int,
    env: Env,
    slots: Slots,
    globals: Seq<Seq<char>>,
    stop_on: bool,
    at_stop: bool,
)
    requires
        0 <= i,
        all_sound(body, env.constants.len(), slots.len(), globals),
    ensures
        excused(env, globals, eval_scan(body, i, env, slots, stop_on, at_stop).outcome),
        eval_scan(body, i, env, slots, stop_on, at_stop).slots.len() == slots.len(),
    decreases body, body.len() - i,
{
    if i < body.len() {
        lemma_eval_sound(body[i], env, slots, globals);
        let argument = eval(body[i], env, slots);
        match argument.outcome {
            Ok(value) => {
                if value.truthy() != stop_on {
                    lemma_scan_sound(body, i + 1, env, argument.slots, globals, stop_on, at_stop);
                }
            },
            Err(_) => {},
        }
    }
}

proof fn lemma_fold_sound(
    op: ArithOp,
    body: Seq<ExprView>,
    i: int,
    acc: Option<Number>,
    env: Env,
    slots: Slots,
    globals: Seq<Seq<char>>,
)
    requires
        0 <= i,
        body.len() >= 1,
        i == 0 || acc is Some,
        all_sound(body, env.constants.len(), slots.len(), globals),
    ensures
        excused(env, globals, eval_fold(op, body, i, acc, env, slots).outcome),
        eval_fold(op, body, i, acc, env, slots).slots.len() == slots.len(),
    decreases body, body.len() - i,
{
    if i < body.len() {
        lemma_eval_sound(body[i], env, slots, globals);
        let operand = eval(body[i], env, slots);
        match operand.outcome {
            Ok(Value::Number(n)) => {
                lemma_fold_sound(
                    op,
                    body,
                    i + 1,
                    Some(accumulate(op, acc, n)),
                    env,
                    operand.slots,
                    globals,
                );
            },
            _ => {},
        }
    }
}

proof fn lemma_when_sound(
    clauses: Seq<(ExprView, ExprView)>,
    i: int,
    env: Env,
    slots: Slots,
    globals: Seq<Seq<char>>,
)
    requires
        0 <= i,
        clauses_sound(clauses, env.constants.len(), slots.len(), globals),
    ensures
        excused(env, globals, eval_when(clauses, i, env, slots).outcome),
        eval_when(clauses, i, env, slots).slots.len() == slots.len(),
    decreases clauses, clauses.len() - i,
{
    if i < clauses.len() {
        lemma_eval_sound(clauses[i].0, env, slots, globals);
        let condition = eval(clauses[i].0, env, slots);
        match condition.outcome {
            Ok(value) => {
                if value.truthy() {
                    lemma_eval_sound(clauses[i].1, env, condition.slots, globals);
                } else {
                    lemma_when_sound(clauses, i + 1, env, condition.slots, globals);
                }
            },
            Err(_) => {},
        }
    }
}

/// Every constant has an index below the number of definitions, where
/// these are few enough to be told apart by an index.
pub proof fn lemma_constant_ids_in_range(defs: Seq<Def>)
    requires
        defs.len() <= u8::MAX,
    ensures
        forall|name: Seq<char>| #[trigger]
            constant_ids(defs).dom().contains(name) ==> (constant_ids(defs)[name] as nat)
                < defs.len(),
    decreases defs.len(),
{
    if defs.len() > 0 {
        lemma_constant_ids_in_range(defs.drop_last());
        assert forall|name: Seq<char>| #[trigger]
            constant_ids(defs).dom().contains(name) implies (constant_ids(defs)[name] as nat)
            < defs.len() by {
            if name != defs.last().0@ {
                assert(constant_ids(defs.drop_last()).dom().contains(name));
            }
        }
    }
}

/// An expression of a profile compiles to a sound expression that has
/// the slots of its variables.
pub proof fn lemma_compiled_is_sound(expr: Expression, names: Names, constants: nat)
    requires
        names_sound(names, constants),
    ensures
        compile(expr, names) matches Ok(unit) ==> sound(
            unit.expr,
            constants,
            unit.slots as nat,
            names.globals,
        ),
{
    lemma_lower_sound(expr, names, Variables::fresh(), constants);
}

proof fn lemma_constants_len(
    defs: Seq<Def>,
    i: int,
    globals: Seq<Seq<char>>,
    tags: Seq<Seq<char>>,
    offered: Map<Seq<char>, u32>,
    done: Seq<Value>,
)
    requires
        0 <= i <= defs.len(),
    ensures
        constants_from(defs, i, globals, tags, offered, done) matches Ok(values) ==> values.len()
            == done.len() + defs.len() - i,
    decreases defs.len() - i,
{
    if i < defs.len() {
        match compile(defs[i].1, names_of(defs.take(i), globals, tags)) {
            Ok(unit) => match run(unit, Env { constants: done, tags: None, globals: offered }) {
                Ok(value) => {
                    lemma_constants_len(defs, i + 1, globals, tags, offered, done.push(value));
                },
                Err(_) => {},
            },
            Err(_) => {},
        }
    }
}

/// Whether each expression of a compiled profile is sound for the
/// profile's constants and its own slots.
pub open spec fn runtime_sound(runtime: RuntimeView, globals: Seq<Seq<char>>) -> bool {
    &&& runtime.way_penalty matches Some(unit) ==> sound(
        unit.expr,
        runtime.constants.len(),
        unit.slots as nat,
        globals,
    )
    &&& runtime.node_penalty matches Some(unit) ==> sound(
        unit.expr,
        runtime.constants.len(),
        unit.slots as nat,
        globals,
    )
    &&& runtime.cost_factor matches Some(unit) ==> sound(
        unit.expr,
        runtime.constants.len(),
        unit.slots as nat,
        globals,
    )
}

/// Every profile that compiles compiles to sound expressions.
pub proof fn lemma_loaded_is_sound(profile: Profile, globals: Seq<Seq<char>>, tags: Seq<Seq<char>>)
    ensures
        load(profile, globals, tags) matches Ok(runtime) ==> runtime_sound(runtime, globals),
{
    let defs = profile.constant_defs@;
    let names = names_of(defs, globals, tags);
    if defs.len() < u8::MAX {
        lemma_constant_ids_in_range(defs);
        lemma_constants_len(defs, 0, globals, tags, Map::empty(), Seq::empty());
        if profile.way_penalty is Some {
            lemma_compiled_is_sound(profile.way_penalty->0, names, defs.len());
        }
        if profile.node_penalty is Some {
            lemma_compiled_is_sound(profile.node_penalty->0, names, defs.len());
        }
        if profile.cost_factor is Some {
            lemma_compiled_is_sound(profile.cost_factor->0, names, defs.len());
        }
    }
}

proof fn lemma_unit_score_is_never_internal(
    runtime: RuntimeView,
    unit: Unit,
    globals: Seq<Seq<char>>,
    tags: Map<TagDictId, TagDictId>,
    offered: Map<Seq<char>, u32>,
)
    requires
        sound(unit.expr, runtime.constants.len(), unit.slots as nat, globals),
        offers(globals, offered),
    ensures
        !(runtime.unit_score(unit, tags, offered) matches Err(RuntimeErrorView::Internal(_))),
{
    let env = Env { constants: runtime.constants, tags: Some(tags), globals: offered };
    let slots = no_slots_filled(unit.slots as nat);
    lemma_eval_sound(unit.expr, env, slots, globals);
    lemma_nothing_lacks(env, globals, eval(unit.expr, env, slots).outcome);
}

/// Scoring with sound expressions never ends in an internal error, if
/// every global that the profile may read is on offer.
pub proof fn lemma_score_is_never_internal(
    runtime: RuntimeView,
    globals: Seq<Seq<char>>,
    source: Map<TagDictId, TagDictId>,
    target: Map<TagDictId, TagDictId>,
    way: Map<TagDictId, TagDictId>,
    offered: Map<Seq<char>, u32>,
)
    requires
        runtime_sound(runtime, globals),
        offers(globals, offered),
    ensures
        !(runtime.score(source, target, way, offered) matches Err(RuntimeErrorView::Internal(_))),
{
    if runtime.node_penalty is Some {
        lemma_unit_score_is_never_internal(
            runtime,
            runtime.node_penalty->0,
            globals,
            source,
            offered,
        );
        lemma_unit_score_is_never_internal(
            runtime,
            runtime.node_penalty->0,
            globals,
            target,
            offered,
        );
    }
    if runtime.way_penalty is Some {
        lemma_unit_score_is_never_internal(runtime, runtime.way_penalty->0, globals, way, offered);
    }
    if runtime.cost_factor is Some {
        lemma_unit_score_is_never_internal(runtime, runtime.cost_factor->0, globals, way, offered);
    }
}

/// Whether a failure is one of lowering: a name or a block that is not
/// known, a block with the wrong number of arguments, or a variable too
/// many.
pub open spec fn is_lowering_failure(error: CompileErrorView) -> bool {
    ||| error is UnknownIdent
    ||| error is UnknownBlockTy
    ||| error is InvalidArity
    ||| error is TooManyVariables
}

/// Lowering fails only with a failure of lowering.
pub proof fn lemma_lower_failures(expr: Expression, names: Names, vars: Variables)
    ensures
        lower(expr, names, vars) matches Err(error) ==> is_lowering_failure(error),
    decreases expr, 0nat,
{
    match expr {
        Expression::NamedBlock(block) => {
            lemma_lower_block_failures(block, names, vars);
        },
        Expression::WhenBlock(block) => {
            lemma_lower_clauses_failures(block.0@, 0, names, vars, Seq::empty());
        },
        _ => {},
    }
}

proof fn lemma_lower_block_failures(block: NamedBlock, names: Names, vars: Variables)
    ensures
        lower_block(block, names, vars) matches Err(error) ==> is_lowering_failure(error),
    decreases block, 2nat,
{
    lemma_lower_defs_failures(block.defs@, 0, names, vars.push());
    match lower_defs(block.defs@, 0, names, vars.push()) {
        Ok(defined) => {
            lemma_lower_all_failures(block.body@, 0, names, defined, Seq::empty());
        },
        Err(_) => {},
    }
}

proof fn lemma_lower_defs_failures(defs: Seq<Def>, i: int, names: Names, vars: Variables)
    ensures
        lower_defs(defs, i, names, vars) matches Err(error) ==> is_lowering_failure(error),
    decreases defs, defs.len() - i,
{
    if 0 <= i < defs.len() {
        lemma_lower_failures(defs[i].1, names, vars);
        match lower(defs[i].1, names, vars) {
            Ok((def, after)) => {
                lemma_lower_defs_failures(defs, i + 1, names, after.define(defs[i].0@, def));
            },
            Err(_) => {},
        }
    }
}

proof fn lemma_lower_all_failures(
    body: Seq<Expression>,
    i: int,
    names: Names,
    vars: Variables,
    done: Seq<ExprView>,
)
    ensures
        lower_all(body, i, names, vars, done) matches Err(error) ==> is_lowering_failure(error),
    decreases body, body.len() - i,
{
    if 0 <= i < body.len() {
        lemma_lower_failures(body[i], names, vars);
        match lower(body[i], names, vars) {
            Ok((next, after)) => {
                lemma_lower_all_failures(body, i + 1, names, after, done.push(next));
            },
            Err(_) => {},
        }
    }
}

proof fn lemma_lower_clauses_failures(
    clauses: Seq<WhenClause>,
    i: int,
    names: Names,
    vars: Variables,
    done: Seq<(ExprView, ExprView)>,
)
    ensures
        lower_clauses(clauses, i, names, vars, done) matches Err(error) ==> is_lowering_failure(
            error,
        ),
    decreases clauses, clauses.len() - i,
{
    if 0 <= i < clauses.len() {
        match clauses[i].condition {
            Condition::Else => {},
            Condition::Test(test) => {
                lemma_lower_failures(test, names, vars);
            },
        }
        match lower_condition(clauses[i].condition, names, vars) {
            Ok((condition, tested)) => {
                lemma_lower_failures(clauses[i].value, names, tested);
                match lower(clauses[i].value, names, tested) {
                    Ok((value, after)) => {
                        lemma_lower_clauses_failures(
                            clauses,
                            i + 1,
                            names,
                            after,
                            done.push((condition, value)),
                        );
                    },
                    Err(_) => {},
                }
            },
            Err(_) => {},
        }
    }
}

proof fn lemma_compile_is_no_evaluation(expr: Option<Expression>, names: Names)
    ensures
        !(compile_optional(expr, names) matches Err(CompileErrorView::ConstEval(_))),
{
    if expr is Some {
        lemma_lower_failures(expr->0, names, Variables::fresh());
    }
}

proof fn lemma_constants_fail_for_lack(
    defs: Seq<Def>,
    i: int,
    globals: Seq<Seq<char>>,
    tags: Seq<Seq<char>>,
    done: Seq<Value>,
)
    requires
        0 <= i <= defs.len() <= u8::MAX,
        done.len() == i,
    ensures
        constants_from(defs, i, globals, tags, Map::empty(), done) matches Err(
            CompileErrorView::ConstEval(failure),
        ) ==> failure is Internal ==> constant_lacks(globals, failure),
    decreases defs.len() - i,
{
    if i < defs.len() {
        let names = names_of(defs.take(i), globals, tags);
        lemma_constant_ids_in_range(defs.take(i));
        lemma_compiled_is_sound(defs[i].1, names, i as nat);
        lemma_lower_failures(defs[i].1, names, Variables::fresh());
        match compile(defs[i].1, names) {
            Ok(unit) => {
                let env = Env { constants: done, tags: None, globals: Map::empty() };
                let slots = no_slots_filled(unit.slots as nat);
                lemma_eval_sound(unit.expr, env, slots, globals);
                match run(unit, env) {
                    Ok(value) => {
                        lemma_constants_fail_for_lack(defs, i + 1, globals, tags, done.push(value));
                    },
                    Err(_) => {},
                }
            },
            Err(_) => {},
        }
    }
}

/// The definition of a constant fails with an internal error only where
/// it tests a tag or reads a global: it never looks up a constant that
/// is not there, nor a slot, nor a block without arguments.
pub proof fn lemma_constants_are_sound(
    profile: Profile,
    globals: Seq<Seq<char>>,
    tags: Seq<Seq<char>>,
)
    ensures
        load(profile, globals, tags) matches Err(CompileErrorView::ConstEval(failure))
            ==> failure is Internal ==> constant_lacks(globals, failure),
{
    let defs = profile.constant_defs@;
    if defs.len() < u8::MAX {
        lemma_constants_fail_for_lack(defs, 0, globals, tags, Seq::empty());
        let names = names_of(defs, globals, tags);
        match constants_from(defs, 0, globals, tags, Map::empty(), Seq::empty()) {
            Ok(_) => {
                assert(!(compile_optional(profile.way_penalty, names) matches Err(
                    CompileErrorView::ConstEval(_),
                ))) by {
                    lemma_compile_is_no_evaluation(profile.way_penalty, names);
                }
                assert(!(compile_optional(profile.node_penalty, names) matches Err(
                    CompileErrorView::ConstEval(_),
                ))) by {
                    lemma_compile_is_no_evaluation(profile.node_penalty, names);
                }
                assert(!(compile_optional(profile.cost_factor, names) matches Err(
                    CompileErrorView::ConstEval(_),
                ))) by {
                    lemma_compile_is_no_evaluation(profile.cost_factor, names);
                }
            },
            Err(_) => {},
        }
    }
}

} // verus!
