//! What a compiled expression evaluates to.
//!
//! An evaluation reads the constants, the tags of one feature and the
//! globals, and it fills slots: a variable's definition is evaluated when
//! the variable is first read, and the value is kept in the variable's
//! slot for the rest of the evaluation. So each step of an evaluation
//! gives an outcome and the slots as it leaves them.

use vstd::prelude::*;
use crate::error::{Outcome, RuntimeErrorView};
use crate::ir::{BlockTy, ExprView};
use crate::syntax::TagPatternView;
use crate::tags::TagDictId;
use crate::value::{ArithOp, Number, Value};

verus! {

/// The slots of one evaluation: for each variable its value, once it
/// has been computed.
pub type Slots = Seq<Option<Value>>;

/// `n` slots, all of them empty.
pub open spec fn no_slots_filled(n: nat) -> Slots {
    Seq::new(n, |i: int| None::<Value>)
}

/// What an evaluation reads and does not change.
pub struct Env {
    /// The values of the profile's constants, in the order of declaration.
    pub constants: Seq<Value>,
    /// The tags of the feature at hand, if there is one.
    pub tags: Option<Map<TagDictId, TagDictId>>,
    /// The per-edge features on offer, each by its bits.
    pub globals: Map<Seq<char>, u32>,
}

/// The outcome of evaluating an expression, and the slots afterwards.
pub struct Step {
    pub outcome: Outcome,
    pub slots: Slots,
}

/// Whether a feature with these tags meets the pattern. A pattern on a
/// key that the feature lacks is met only by `NotExists`.
pub open spec fn pattern_matches(
    pattern: TagPatternView<TagDictId>,
    tags: Map<TagDictId, TagDictId>,
) -> bool {
    match pattern {
        TagPatternView::Exists(key) => tags.dom().contains(key),
        TagPatternView::NotExists(key) => !tags.dom().contains(key),
        TagPatternView::OneOf(key, values) => tags.dom().contains(key) && values.contains(
            tags[key],
        ),
        TagPatternView::NoneOf(key, values) => tags.dom().contains(key) && !values.contains(
            tags[key],
        ),
    }
}

/// Whether a feature with these tags meets every pattern.
pub open spec fn patterns_match(
    patterns: Seq<TagPatternView<TagDictId>>,
    tags: Map<TagDictId, TagDictId>,
) -> bool {
    forall|i: int| 0 <= i < patterns.len() ==> pattern_matches(#[trigger] patterns[i], tags)
}

/// The number that an arithmetic block has reached once it has taken in
/// one more operand.
pub open spec fn accumulate(op: ArithOp, acc: Option<Number>, operand: Number) -> Number {
    match acc {
        None => operand,
        Some(so_far) => Number::Apply(op, Box::new(so_far), Box::new(operand)),
    }
}

/// Evaluates `expr`.
pub open spec fn eval(expr: ExprView, env: Env, slots: Slots) -> Step
    decreases expr, 0nat,
{
    match expr {
        ExprView::Literal(value) => Step { outcome: Ok(value), slots },
        ExprView::LookupConstant(index) => Step {
            outcome: if (index as int) < env.constants.len() {
                Ok(env.constants[index as int])
            } else {
                Err(RuntimeErrorView::bad_constant(index))
            },
            slots,
        },
        ExprView::LookupGlobal(name) => Step {
            outcome: if env.globals.dom().contains(name) {
                Ok(Value::Number(Number::Bits(env.globals[name])))
            } else {
                Err(RuntimeErrorView::bad_global(name))
            },
            slots,
        },
        ExprView::LookupOrCompute(slot, def) => {
            if slot as int >= slots.len() {
                Step { outcome: Err(RuntimeErrorView::bad_variable(slot)), slots }
            } else {
                match slots[slot as int] {
                    Some(value) => Step { outcome: Ok(value), slots },
                    None => {
                        let computed = eval(*def, env, slots);
                        match computed.outcome {
                            Ok(value) => Step {
                                outcome: Ok(value),
                                slots: computed.slots.update(slot as int, Some(value)),
                            },
                            Err(_) => computed,
                        }
                    },
                }
            }
        },
        ExprView::Block(kind, body) => match kind {
            BlockTy::Any => eval_scan(body, 0, env, slots, true, true),
            BlockTy::All => eval_scan(body, 0, env, slots, false, false),
            BlockTy::NotAny => eval_scan(body, 0, env, slots, true, false),
            BlockTy::Return => {
                if body.len() == 0 {
                    Step { outcome: Err(RuntimeErrorView::improper_arity()), slots }
                } else {
                    let argument = eval(body[0], env, slots);
                    match argument.outcome {
                        Ok(value) => Step {
                            outcome: Err(RuntimeErrorView::EarlyReturn(value)),
                            slots: argument.slots,
                        },
                        Err(_) => argument,
                    }
                }
            },
            BlockTy::Sum => eval_fold(ArithOp::Sum, body, 0, None, env, slots),
            BlockTy::Sub => eval_fold(ArithOp::Sub, body, 0, None, env, slots),
            BlockTy::Mul => eval_fold(ArithOp::Mul, body, 0, None, env, slots),
            BlockTy::Div => eval_fold(ArithOp::Div, body, 0, None, env, slots),
        },
        ExprView::When(clauses) => eval_when(clauses, 0, env, slots),
        ExprView::TagPattern(patterns) => Step {
            outcome: match env.tags {
                Some(tags) => Ok(Value::Bool(patterns_match(patterns, tags))),
                None => Err(RuntimeErrorView::no_tags()),
            },
            slots,
        },
    }
}

/// Evaluates the arguments of an `any?`, `all?` or `none?` block from the
/// `i`-th on, in order. The first argument whose truthiness is `stop_on`
/// settles the block as `Bool(at_stop)` and no later argument is
/// evaluated; without such an argument the block is `Bool(!at_stop)`.
pub open spec fn eval_scan(
    body: Seq<ExprView>,
    i: int,
    env: Env,
    slots: Slots,
    stop_on: bool,
    at_stop: bool,
) -> Step
    decreases body, body.len() - i,
{
    if 0 <= i < body.len() {
        let argument = eval(body[i], env, slots);
        match argument.outcome {
            Ok(value) => if value.truthy() == stop_on {
                Step { outcome: Ok(Value::Bool(at_stop)), slots: argument.slots }
            } else {
                eval_scan(body, i + 1, env, argument.slots, stop_on, at_stop)
            },
            Err(_) => argument,
        }
    } else {
        Step { outcome: Ok(Value::Bool(!at_stop)), slots }
    }
}

/// Evaluates the operands of an arithmetic block from the `i`-th on, in
/// order, where `acc` is what the operands before have come to. An
/// invalid operand makes the block invalid, and an operand that is
/// neither a number nor invalid is a type error; either way no later
/// operand is evaluated.
pub open spec fn eval_fold(
    op: ArithOp,
    body: Seq<ExprView>,
    i: int,
    acc: Option<Number>,
    env: Env,
    slots: Slots,
) -> Step
    decreases body, body.len() - i,
{
    if 0 <= i < body.len() {
        let operand = eval(body[i], env, slots);
        match operand.outcome {
            Ok(Value::Invalid) => Step { outcome: Ok(Value::Invalid), slots: operand.slots },
            Ok(Value::Number(n)) => eval_fold(
                op,
                body,
                i + 1,
                Some(accumulate(op, acc, n)),
                env,
                operand.slots,
            ),
            Ok(other) => Step {
                outcome: Err(RuntimeErrorView::bad_operand(other)),
                slots: operand.slots,
            },
            Err(_) => operand,
        }
    } else {
        match acc {
            Some(total) => Step { outcome: Ok(Value::Number(total)), slots },
            None => Step { outcome: Err(RuntimeErrorView::improper_arity()), slots },
        }
    }
}

/// Tries the clauses of a `when` from the `i`-th on, in order: the value
/// of the first clause whose condition is truthy. Where no condition is
/// truthy the evaluation fails.
pub open spec fn eval_when(
    clauses: Seq<(ExprView, ExprView)>,
    i: int,
    env: Env,
    slots: Slots,
) -> Step
    decreases clauses, clauses.len() - i,
{
    if 0 <= i < clauses.len() {
        let condition = eval(clauses[i].0, env, slots);
        match condition.outcome {
            Ok(value) => if value.truthy() {
                eval(clauses[i].1, env, condition.slots)
            } else {
                eval_when(clauses, i + 1, env, condition.slots)
            },
            Err(_) => condition,
        }
    } else {
        Step { outcome: Err(RuntimeErrorView::WhenFallthrough), slots }
    }
}

/// The slots in which the `i`-th argument of a block is evaluated if
/// every argument before it is evaluated, in order.
pub open spec fn slots_before(body: Seq<ExprView>, i: int, env: Env, slots: Slots) -> Slots
    decreases i,
{
    if i <= 0 {
        slots
    } else {
        eval(body[i - 1], env, slots_before(body, i - 1, env, slots)).slots
    }
}

/// What the `i`-th argument of a block evaluates to if every argument
/// before it is evaluated, in order.
pub open spec fn argument(body: Seq<ExprView>, i: int, env: Env, slots: Slots) -> Step {
    eval(body[i], env, slots_before(body, i, env, slots))
}

/// The slots in which the `i`-th condition of a `when` is evaluated if
/// no clause before it is taken.
pub open spec fn slots_before_clause(
    clauses: Seq<(ExprView, ExprView)>,
    i: int,
    env: Env,
    slots: Slots,
) -> Slots
    decreases i,
{
    if i <= 0 {
        slots
    } else {
        eval(clauses[i - 1].0, env, slots_before_clause(clauses, i - 1, env, slots)).slots
    }
}

/// What the `i`-th condition of a `when` evaluates to if no clause before
/// it is taken.
pub open spec fn condition(
    clauses: Seq<(ExprView, ExprView)>,
    i: int,
    env: Env,
    slots: Slots,
) -> Step {
    eval(clauses[i].0, env, slots_before_clause(clauses, i, env, slots))
}

/// Whether an outcome is a number or invalid: what an arithmetic block
/// takes as an operand.
pub open spec fn is_operand(outcome: Outcome) -> bool {
    outcome matches Ok(value) && (value is Number || value is Invalid)
}

/// Whether a block of this kind goes on to its next argument after an
/// argument with this outcome.
pub open spec fn goes_on(kind: BlockTy, outcome: Outcome) -> bool {
    match kind {
        BlockTy::Any | BlockTy::NotAny => outcome matches Ok(value) && !value.truthy(),
        BlockTy::All => outcome matches Ok(value) && value.truthy(),
        BlockTy::Sum | BlockTy::Sub | BlockTy::Mul | BlockTy::Div => outcome matches Ok(
            Value::Number(_),
        ),
        BlockTy::Return => false,
    }
}

proof fn lemma_fold_reaches_invalid(
    op: ArithOp,
    body: Seq<ExprView>,
    i: int,
    k: int,
    acc: Option<Number>,
    env: Env,
    slots: Slots,
)
    requires
        0 <= i <= k < body.len(),
        argument(body, k, env, slots).outcome == Ok::<Value, RuntimeErrorView>(Value::Invalid),
        forall|j: int| 0 <= j < k ==> is_operand(#[trigger] argument(body, j, env, slots).outcome),
    ensures
        eval_fold(op, body, i, acc, env, slots_before(body, i, env, slots)).outcome == Ok::<
            Value,
            RuntimeErrorView,
        >(Value::Invalid),
    decreases k - i,
{
    let operand = argument(body, i, env, slots);
    if i < k {
        assert(is_operand(operand.outcome));
        match operand.outcome {
            Ok(Value::Number(n)) => {
                assert(slots_before(body, i + 1, env, slots) == operand.slots);
                lemma_fold_reaches_invalid(
                    op,
                    body,
                    i + 1,
                    k,
                    Some(accumulate(op, acc, n)),
                    env,
                    slots,
                );
            },
            _ => {},
        }
    }
}

/// An invalid operand makes an arithmetic block invalid, wherever it
/// stands and whatever follows it, if each operand before it is a number
/// or invalid.
pub proof fn lemma_invalid_operand_makes_invalid(
    kind: BlockTy,
    body: Seq<ExprView>,
    k: int,
    env: Env,
    slots: Slots,
)
    requires
        kind.spec_operator() is Some,
        0 <= k < body.len(),
        argument(body, k, env, slots).outcome == Ok::<Value, RuntimeErrorView>(Value::Invalid),
        forall|j: int| 0 <= j < k ==> is_operand(#[trigger] argument(body, j, env, slots).outcome),
    ensures
        eval(ExprView::Block(kind, body), env, slots).outcome == Ok::<Value, RuntimeErrorView>(
            Value::Invalid,
        ),
{
    lemma_fold_reaches_invalid(kind.spec_operator()->0, body, 0, k, None, env, slots);
}

proof fn lemma_when_from_falls_through(
    clauses: Seq<(ExprView, ExprView)>,
    i: int,
    env: Env,
    slots: Slots,
)
    requires
        0 <= i <= clauses.len(),
        forall|j: int|
            0 <= j < clauses.len() ==> (#[trigger] condition(clauses, j, env, slots).outcome
                matches Ok(value) && !value.truthy()),
    ensures
        eval_when(clauses, i, env, slots_before_clause(clauses, i, env, slots)).outcome == Err::<
            Value,
            RuntimeErrorView,
        >(RuntimeErrorView::WhenFallthrough),
    decreases clauses.len() - i,
{
    if i < clauses.len() {
        let tested = condition(clauses, i, env, slots);
        assert(tested.outcome matches Ok(value) && !value.truthy());
        assert(slots_before_clause(clauses, i + 1, env, slots) == tested.slots);
        lemma_when_from_falls_through(clauses, i + 1, env, slots);
    }
}

/// A `when` of which no condition is truthy fails: it falls through.
pub proof fn lemma_when_falls_through(clauses: Seq<(ExprView, ExprView)>, env: Env, slots: Slots)
    requires
        forall|j: int|
            0 <= j < clauses.len() ==> (#[trigger] condition(clauses, j, env, slots).outcome
                matches Ok(value) && !value.truthy()),
    ensures
        eval(ExprView::When(clauses), env, slots).outcome == Err::<Value, RuntimeErrorView>(
            RuntimeErrorView::WhenFallthrough,
        ),
{
    lemma_when_from_falls_through(clauses, 0, env, slots);
}

proof fn lemma_scan_stops_at_failure(
    body: Seq<ExprView>,
    i: int,
    k: int,
    env: Env,
    slots: Slots,
    stop_on: bool,
    at_stop: bool,
)
    requires
        0 <= i <= k < body.len(),
        argument(body, k, env, slots).outcome is Err,
        forall|j: int|
            0 <= j < k ==> (#[trigger] argument(body, j, env, slots).outcome matches Ok(value)
                && value.truthy() != stop_on),
    ensures
        eval_scan(body, i, env, slots_before(body, i, env, slots), stop_on, at_stop) == argument(
            body,
            k,
            env,
            slots,
        ),
    decreases k - i,
{
    if i < k {
        let passed = argument(body, i, env, slots);
        assert(passed.outcome matches Ok(value) && value.truthy() != stop_on);
        assert(slots_before(body, i + 1, env, slots) == passed.slots);
        lemma_scan_stops_at_failure(body, i + 1, k, env, slots, stop_on, at_stop);
    }
}

proof fn lemma_fold_stops_at_failure(
    op: ArithOp,
    body: Seq<ExprView>,
    i: int,
    k: int,
    acc: Option<Number>,
    env: Env,
    slots: Slots,
)
    requires
        0 <= i <= k < body.len(),
        argument(body, k, env, slots).outcome is Err,
        forall|j: int|
            0 <= j < k ==> (#[trigger] argument(body, j, env, slots).outcome matches Ok(
                Value::Number(_),
            )),
    ensures
        eval_fold(op, body, i, acc, env, slots_before(body, i, env, slots)) == argument(
            body,
            k,
            env,
            slots,
        ),
    decreases k - i,
{
    if i < k {
        let passed = argument(body, i, env, slots);
        assert(passed.outcome matches Ok(Value::Number(_)));
        assert(slots_before(body, i + 1, env, slots) == passed.slots);
        lemma_fold_stops_at_failure(
            op,
            body,
            i + 1,
            k,
            Some(accumulate(op, acc, passed.outcome->Ok_0->Number_0)),
            env,
            slots,
        );
    }
}

/// An argument that does not end in a value ends the block that it
/// stands in: the block ends as the argument does, be it in an early
/// return or in a failure, and the slots stay as the argument leaves
/// them, so no argument after it is evaluated. This holds of the first
/// argument of any block, and of a later argument if the block goes on
/// after each argument before it.
pub proof fn lemma_argument_ends_block(
    kind: BlockTy,
    body: Seq<ExprView>,
    k: int,
    env: Env,
    slots: Slots,
)
    requires
        0 <= k < body.len(),
        argument(body, k, env, slots).outcome is Err,
        forall|j: int|
            0 <= j < k ==> goes_on(kind, #[trigger] argument(body, j, env, slots).outcome),
    ensures
        eval(ExprView::Block(kind, body), env, slots) == argument(body, k, env, slots),
{
    match kind {
        BlockTy::Any => lemma_scan_stops_at_failure(body, 0, k, env, slots, true, true),
        BlockTy::All => lemma_scan_stops_at_failure(body, 0, k, env, slots, false, false),
        BlockTy::NotAny => lemma_scan_stops_at_failure(body, 0, k, env, slots, true, false),
        BlockTy::Return => {
            if k > 0 {
                assert(goes_on(kind, argument(body, 0, env, slots).outcome));
            }
        },
        BlockTy::Sum => lemma_fold_stops_at_failure(ArithOp::Sum, body, 0, k, None, env, slots),
        BlockTy::Sub => lemma_fold_stops_at_failure(ArithOp::Sub, body, 0, k, None, env, slots),
        BlockTy::Mul => lemma_fold_stops_at_failure(ArithOp::Mul, body, 0, k, None, env, slots),
        BlockTy::Div => lemma_fold_stops_at_failure(ArithOp::Div, body, 0, k, None, env, slots),
    }
}

/// A `return!` block whose argument has a value ends in an early return
/// of that value.
pub proof fn lemma_return_returns(argument: ExprView, env: Env, slots: Slots)
    requires
        eval(argument, env, slots).outcome is Ok,
    ensures
        eval(ExprView::Block(BlockTy::Return, seq![argument]), env, slots).outcome == Err::<
            Value,
            RuntimeErrorView,
        >(RuntimeErrorView::EarlyReturn(eval(argument, env, slots).outcome->Ok_0)),
        eval(ExprView::Block(BlockTy::Return, seq![argument]), env, slots).slots == eval(
            argument,
            env,
            slots,
        ).slots,
{
}

proof fn lemma_when_from_reaches(
    clauses: Seq<(ExprView, ExprView)>,
    i: int,
    k: int,
    env: Env,
    slots: Slots,
)
    requires
        0 <= i <= k < clauses.len(),
        forall|j: int|
            0 <= j < k ==> (#[trigger] condition(clauses, j, env, slots).outcome matches Ok(value)
                && !value.truthy()),
    ensures
        eval_when(clauses, i, env, slots_before_clause(clauses, i, env, slots)) == eval_when(
            clauses,
            k,
            env,
            slots_before_clause(clauses, k, env, slots),
        ),
    decreases k - i,
{
    if i < k {
        let tested = condition(clauses, i, env, slots);
        assert(tested.outcome matches Ok(value) && !value.truthy());
        assert(slots_before_clause(clauses, i + 1, env, slots) == tested.slots);
        lemma_when_from_reaches(clauses, i + 1, k, env, slots);
    }
}

/// A `when` takes the first clause whose condition is truthy: its value
/// is the value of the `when`, and a condition that does not end in a
/// value ends the `when` as it ends itself, if no condition before it is
/// truthy. No later clause is evaluated.
pub proof fn lemma_when_takes_first(
    clauses: Seq<(ExprView, ExprView)>,
    k: int,
    env: Env,
    slots: Slots,
)
    requires
        0 <= k < clauses.len(),
        forall|j: int|
            0 <= j < k ==> (#[trigger] condition(clauses, j, env, slots).outcome matches Ok(value)
                && !value.truthy()),
    ensures
        eval(ExprView::When(clauses), env, slots) == (match condition(
            clauses,
            k,
            env,
            slots,
        ).outcome {
            Ok(value) => if value.truthy() {
                eval(clauses[k].1, env, condition(clauses, k, env, slots).slots)
            } else {
                eval_when(clauses, k + 1, env, condition(clauses, k, env, slots).slots)
            },
            Err(_) => condition(clauses, k, env, slots),
        }),
{
    lemma_when_from_reaches(clauses, 0, k, env, slots);
}

/// A variable whose slot is empty and whose definition does not end in
/// a value ends as its definition does, with the slots as the definition
/// leaves them: nothing is put into the variable's slot on its account.
pub proof fn lemma_definition_ends_lookup(slot: u16, def: ExprView, env: Env, slots: Slots)
    requires
        (slot as int) < slots.len(),
        slots[slot as int] is None,
        eval(def, env, slots).outcome is Err,
    ensures
        eval(ExprView::LookupOrCompute(slot, Box::new(def)), env, slots) == eval(def, env, slots),
{
}

/// A variable is computed once: when its slot holds a value, that value
/// is what the variable evaluates to, whatever its definition, and
/// nothing is evaluated for it.
pub proof fn lemma_filled_slot_is_read(slot: u16, def: ExprView, env: Env, slots: Slots)
    requires
        (slot as int) < slots.len(),
        slots[slot as int] is Some,
    ensures
        eval(ExprView::LookupOrCompute(slot, Box::new(def)), env, slots) == (Step {
            outcome: Ok(slots[slot as int]->0),
            slots,
        }),
{
}

} // verus!
