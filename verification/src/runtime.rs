//! A compiled profile, and the score that it gives an edge.

use vstd::prelude::*;
use crate::builder::{global_names, Builder, RunnableExpr};
use crate::compile::{constant_ids, lemma_unknown_ident_is_refused, lower, Names, Variables};
use crate::error::{
    outcome, CompileError, CompileErrorView, Outcome, RuntimeError, RuntimeErrorView,
};
use crate::eval::EvalContext;
use crate::ir::{BlockTy, ExprView};
use crate::scope::resolve;
use crate::semantics::{
    argument, eval, goes_on, lemma_argument_ends_block, lemma_return_returns, no_slots_filled,
    slots_before, Env,
};
use crate::syntax::{Def, Expression, Profile};
use crate::tags::{GlobalLookup, NoGlobals, TagDict, TagDictId, TagSource};
use crate::value::{ArithOp, IMPASSABLE, Number, ONE, Value, ZERO};

verus! {

/// A compiled expression with the number of slots that it needs, as a
/// mathematical value.
pub struct Unit {
    pub expr: ExprView,
    pub slots: u16,
}

impl View for RunnableExpr {
    type V = Unit;

    open spec fn view(&self) -> Unit {
        Unit { expr: self.expr@, slots: self.slots }
    }
}

/// A compiled profile as a mathematical value.
pub struct RuntimeView {
    pub constants: Seq<Value>,
    pub way_penalty: Option<Unit>,
    pub node_penalty: Option<Unit>,
    pub cost_factor: Option<Unit>,
}

/// What it costs to traverse an edge.
#[derive(Debug, PartialEq, Eq)]
pub struct EdgeScore {
    pub penalty: Number,
    pub cost_factor: Number,
}

/// The outcome of a whole evaluation: a `return!` inside it ends it with
/// the value returned.
pub open spec fn settle(outcome: Outcome) -> Outcome {
    match outcome {
        Err(RuntimeErrorView::EarlyReturn(value)) => Ok(value),
        _ => outcome,
    }
}

/// The outcome of evaluating a compiled expression from empty slots.
pub open spec fn run(unit: Unit, env: Env) -> Outcome {
    settle(eval(unit.expr, env, no_slots_filled(unit.slots as nat)).outcome)
}

/// The score that an outcome stands for: a number is the score, invalid
/// is the score of the impassable, and no other value is a score.
pub open spec fn as_score(outcome: Outcome) -> Result<Number, RuntimeErrorView> {
    match outcome {
        Ok(Value::Number(score)) => Ok(score),
        Ok(Value::Invalid) => Ok(Number::Bits(IMPASSABLE)),
        Ok(other) => Err(RuntimeErrorView::bad_score(other)),
        Err(error) => Err(error),
    }
}

/// The sum of two numbers.
pub open spec fn plus(a: Number, b: Number) -> Number {
    Number::Apply(ArithOp::Sum, Box::new(a), Box::new(b))
}

/// The names that the expressions of a profile are resolved against.
pub open spec fn names_of(defs: Seq<Def>, globals: Seq<Seq<char>>, tags: Seq<Seq<char>>) -> Names {
    Names { constants: constant_ids(defs), globals, tags }
}

/// What one expression of a profile compiles to: the lowered expression,
/// with as many slots as it uses variables.
pub open spec fn compile(expr: Expression, names: Names) -> Result<Unit, CompileErrorView> {
    match lower(expr, names, Variables::fresh()) {
        Ok((lowered, after)) => Ok(Unit { expr: lowered, slots: after.next_id }),
        Err(error) => Err(error),
    }
}

/// What an expression that a profile may leave out compiles to.
pub open spec fn compile_optional(expr: Option<Expression>, names: Names) -> Result<
    Option<Unit>,
    CompileErrorView,
> {
    match expr {
        Some(expr) => match compile(expr, names) {
            Ok(unit) => Ok(Some(unit)),
            Err(error) => Err(error),
        },
        None => Ok(None),
    }
}

/// The value of the `i`-th constant where `before` are the values of the
/// constants before it. Its definition is compiled in sight of the
/// constants declared before it, and of no other, and is evaluated with
/// their values, the globals that `offered` offers, and no feature. A
/// `return!` in it gives it its value.
pub open spec fn constant_value(
    defs: Seq<Def>,
    i: int,
    globals: Seq<Seq<char>>,
    tags: Seq<Seq<char>>,
    offered: Map<Seq<char>, u32>,
    before: Seq<Value>,
) -> Result<Value, CompileErrorView> {
    match compile(defs[i].1, names_of(defs.take(i), globals, tags)) {
        Ok(unit) => match run(unit, Env { constants: before, tags: None, globals: offered }) {
            Ok(value) => Ok(value),
            Err(error) => Err(CompileErrorView::ConstEval(error)),
        },
        Err(error) => Err(error),
    }
}

/// The values of the constants from the `i`-th on, appended to `done`,
/// the values of the constants before: each constant is evaluated in
/// turn, and the first failure is the failure of all.
pub open spec fn constants_from(
    defs: Seq<Def>,
    i: int,
    globals: Seq<Seq<char>>,
    tags: Seq<Seq<char>>,
    offered: Map<Seq<char>, u32>,
    done: Seq<Value>,
) -> Result<Seq<Value>, CompileErrorView>
    decreases defs.len() - i,
{
    if 0 <= i < defs.len() {
        match constant_value(defs, i, globals, tags, offered, done) {
            Ok(value) => constants_from(defs, i + 1, globals, tags, offered, done.push(value)),
            Err(error) => Err(error),
        }
    } else {
        Ok(done)
    }
}

proof fn lemma_constants_from(
    defs: Seq<Def>,
    i: int,
    globals: Seq<Seq<char>>,
    tags: Seq<Seq<char>>,
    offered: Map<Seq<char>, u32>,
    done: Seq<Value>,
)
    requires
        0 <= i <= defs.len(),
        done.len() == i,
    ensures
        match constants_from(defs, i, globals, tags, offered, done) {
            Ok(values) => {
                &&& values.len() == defs.len()
                &&& values.take(i) == done
                &&& forall|j: int|
                    i <= j < defs.len() ==> constant_value(
                        defs,
                        j,
                        globals,
                        tags,
                        offered,
                        values.take(j),
                    ) == Ok::<Value, CompileErrorView>(#[trigger] values[j])
            },
            Err(error) => exists|j: int, before: Seq<Value>|
                i <= j < defs.len() && #[trigger] constant_value(
                    defs,
                    j,
                    globals,
                    tags,
                    offered,
                    before,
                ) == Err::<Value, CompileErrorView>(error),
        },
    decreases defs.len() - i,
{
    if i < defs.len() {
        match constant_value(defs, i, globals, tags, offered, done) {
            Ok(value) => {
                lemma_constants_from(defs, i + 1, globals, tags, offered, done.push(value));
                match constants_from(defs, i + 1, globals, tags, offered, done.push(value)) {
                    Ok(values) => {
                        assert(values.take(i) =~= values.take(i + 1).take(i));
                        assert(values.take(i) =~= done);
                        assert(values[i] == values.take(i + 1)[i]);
                    },
                    Err(_) => {},
                }
            },
            Err(_) => {},
        }
    } else {
        assert(done.take(i) =~= done);
    }
}

/// The constants of a profile are evaluated once each, in the order of
/// their declaration: there is one value for each definition, and it is
/// the value of that definition in sight of the constants before it,
/// with the values that these have. Where the evaluation fails, it fails
/// as one of the constants does.
pub proof fn lemma_constants_in_order(
    defs: Seq<Def>,
    globals: Seq<Seq<char>>,
    tags: Seq<Seq<char>>,
    offered: Map<Seq<char>, u32>,
)
    ensures
        match constants_from(defs, 0, globals, tags, offered, Seq::empty()) {
            Ok(values) => {
                &&& values.len() == defs.len()
                &&& forall|j: int|
                    0 <= j < defs.len() ==> constant_value(
                        defs,
                        j,
                        globals,
                        tags,
                        offered,
                        values.take(j),
                    ) == Ok::<Value, CompileErrorView>(#[trigger] values[j])
            },
            Err(error) => exists|j: int, before: Seq<Value>|
                0 <= j < defs.len() && #[trigger] constant_value(
                    defs,
                    j,
                    globals,
                    tags,
                    offered,
                    before,
                ) == Err::<Value, CompileErrorView>(error),
        },
{
    lemma_constants_from(defs, 0, globals, tags, offered, Seq::empty());
}

/// The globals that every profile may read.
pub open spec fn default_globals() -> Seq<Seq<char>> {
    seq!["way.popularity-self"@, "way.popularity-global"@, "way.length"@]
}

/// What a profile compiles to. The constants come first, then the way
/// penalty, the node penalty and the cost factor, each in sight of all
/// constants; the first failure is the failure of the whole. No global is
/// on offer while the constants are evaluated.
pub open spec fn load(profile: Profile, globals: Seq<Seq<char>>, tags: Seq<Seq<char>>) -> Result<
    RuntimeView,
    CompileErrorView,
> {
    let names = names_of(profile.constant_defs@, globals, tags);
    if profile.constant_defs@.len() >= u8::MAX {
        Err(CompileErrorView::TooManyConstants)
    } else {
        match constants_from(
            profile.constant_defs@,
            0,
            globals,
            tags,
            Map::empty(),
            Seq::empty(),
        ) {
            Ok(constants) => match compile_optional(profile.way_penalty, names) {
                Ok(way_penalty) => match compile_optional(profile.node_penalty, names) {
                    Ok(node_penalty) => match compile_optional(profile.cost_factor, names) {
                        Ok(cost_factor) => Ok(
                            RuntimeView { constants, way_penalty, node_penalty, cost_factor },
                        ),
                        Err(error) => Err(error),
                    },
                    Err(error) => Err(error),
                },
                Err(error) => Err(error),
            },
            Err(error) => Err(error),
        }
    }
}

impl RuntimeView {
    /// The score that `unit` gives a feature with the tags `tags`.
    pub open spec fn unit_score(
        self,
        unit: Unit,
        tags: Map<TagDictId, TagDictId>,
        globals: Map<Seq<char>, u32>,
    ) -> Result<Number, RuntimeErrorView> {
        as_score(run(unit, Env { constants: self.constants, tags: Some(tags), globals }))
    }

    /// The penalty of an edge: zero, plus the node penalty of its source
    /// node and of its target node, plus its way penalty, each where the
    /// profile has one.
    pub open spec fn penalty(
        self,
        source: Map<TagDictId, TagDictId>,
        target: Map<TagDictId, TagDictId>,
        way: Map<TagDictId, TagDictId>,
        globals: Map<Seq<char>, u32>,
    ) -> Result<Number, RuntimeErrorView> {
        let zero = Number::Bits(ZERO);
        let nodes = match self.node_penalty {
            Some(unit) => match self.unit_score(unit, source, globals) {
                Ok(at_source) => match self.unit_score(unit, target, globals) {
                    Ok(at_target) => Ok(plus(plus(zero, at_source), at_target)),
                    Err(error) => Err(error),
                },
                Err(error) => Err(error),
            },
            None => Ok(zero),
        };
        match nodes {
            Ok(nodes) => match self.way_penalty {
                Some(unit) => match self.unit_score(unit, way, globals) {
                    Ok(on_way) => Ok(plus(nodes, on_way)),
                    Err(error) => Err(error),
                },
                None => Ok(nodes),
            },
            Err(error) => Err(error),
        }
    }

    /// The cost factor of an edge: one, plus what the profile's cost
    /// factor gives for the way, where the profile has one.
    pub open spec fn cost(self, way: Map<TagDictId, TagDictId>, globals: Map<Seq<char>, u32>)
        -> Result<Number, RuntimeErrorView> {
        let one = Number::Bits(ONE);
        match self.cost_factor {
            Some(unit) => match self.unit_score(unit, way, globals) {
                Ok(on_way) => Ok(plus(one, on_way)),
                Err(error) => Err(error),
            },
            None => Ok(one),
        }
    }

    /// The score of an edge, or the first failure among the evaluations
    /// that it takes: the penalty first, then the cost factor.
    pub open spec fn score(
        self,
        source: Map<TagDictId, TagDictId>,
        target: Map<TagDictId, TagDictId>,
        way: Map<TagDictId, TagDictId>,
        globals: Map<Seq<char>, u32>,
    ) -> Result<EdgeScore, RuntimeErrorView> {
        match self.penalty(source, target, way, globals) {
            Ok(penalty) => match self.cost(way, globals) {
                Ok(cost_factor) => Ok(EdgeScore { penalty, cost_factor }),
                Err(error) => Err(error),
            },
            Err(error) => Err(error),
        }
    }
}

/// A compiled profile. Once built it is only read.
pub struct Runtime {
    constants: Vec<Value>,
    way_penalty: Option<RunnableExpr>,
    node_penalty: Option<RunnableExpr>,
    cost_factor: Option<RunnableExpr>,
}

/// The view of a compiled expression that a profile may lack.
pub open spec fn optional_unit(unit: Option<RunnableExpr>) -> Option<Unit> {
    match unit {
        Some(unit) => Some(unit@),
        None => None,
    }
}

impl View for Runtime {
    type V = RuntimeView;

    closed spec fn view(&self) -> RuntimeView {
        RuntimeView {
            constants: self.constants@,
            way_penalty: optional_unit(self.way_penalty),
            node_penalty: optional_unit(self.node_penalty),
            cost_factor: optional_unit(self.cost_factor),
        }
    }
}

/// Compiles an expression that a profile may leave out.
fn build_optional(builder: &mut Builder, expr: &Option<Expression>) -> (r: Result<
    Option<RunnableExpr>,
    CompileError,
>)
    requires
        old(builder).wf(),
        old(builder).vars() == Variables::fresh(),
    ensures
        final(builder).wf(),
        final(builder).names() == old(builder).names(),
        final(builder).constant_defs() == old(builder).constant_defs(),
        r is Ok ==> final(builder).vars() == Variables::fresh(),
        match compile_optional(*expr, old(builder).names()) {
            Ok(unit) => r matches Ok(built) && optional_unit(built) == unit,
            Err(error) => r matches Err(e) && e@ == error,
        },
{
    match expr {
        Some(expr) => match builder.build(expr) {
            Ok(unit) => Ok(Some(unit)),
            Err(error) => Err(error),
        },
        None => Ok(None),
    }
}

impl Runtime {
    /// Compiles a profile whose expressions may read the globals that
    /// every profile may read.
    pub fn from_parsed(profile: &Profile, tag_dict: &TagDict) -> (r: Result<Self, CompileError>)
        requires
            tag_dict.wf(),
        ensures
            match load(*profile, default_globals(), tag_dict@) {
                Ok(runtime) => r matches Ok(built) && built@ == runtime,
                Err(error) => r matches Err(e) && e@ == error,
            },
    {
        let globals: [&str; 3] = ["way.popularity-self", "way.popularity-global", "way.length"];
        assert(global_names(globals@) =~= default_globals());
        Self::with_globals(profile, globals.as_slice(), tag_dict)
    }

    /// Compiles a profile whose expressions may read the globals on the
    /// list `globals`.
    pub fn with_globals(profile: &Profile, globals: &[&str], tag_dict: &TagDict) -> (r: Result<
        Self,
        CompileError,
    >)
        requires
            tag_dict.wf(),
        ensures
            match load(*profile, global_names(globals@), tag_dict@) {
                Ok(runtime) => r matches Ok(built) && built@ == runtime,
                Err(error) => r matches Err(e) && e@ == error,
            },
    {
        let mut builder = match Builder::new(&profile.constant_defs, globals, tag_dict) {
            Ok(builder) => builder,
            Err(error) => {
                return Err(error);
            },
        };
        let lookup = NoGlobals;
        let constants = match Self::evaluate_constants(&mut builder, &lookup) {
            Ok(constants) => constants,
            Err(error) => {
                return Err(error);
            },
        };
        let way_penalty = match build_optional(&mut builder, &profile.way_penalty) {
            Ok(unit) => unit,
            Err(error) => {
                return Err(error);
            },
        };
        let node_penalty = match build_optional(&mut builder, &profile.node_penalty) {
            Ok(unit) => unit,
            Err(error) => {
                return Err(error);
            },
        };
        let cost_factor = match build_optional(&mut builder, &profile.cost_factor) {
            Ok(unit) => unit,
            Err(error) => {
                return Err(error);
            },
        };
        Ok(Runtime { constants, way_penalty, node_penalty, cost_factor })
    }

    /// The values of the constants, in the order of their declaration.
    pub fn constants(&self) -> (r: &Vec<Value>)
        ensures
            r@ == self@.constants,
    {
        &self.constants
    }

    /// Evaluates the definitions of the constants in order, each with
    /// fresh variables and in sight of the constants before it. In the
    /// end all constants are in sight.
    pub fn evaluate_constants<G: GlobalLookup>(builder: &mut Builder, global_lookup: &G) -> (r:
        Result<Vec<Value>, CompileError>)
        requires
            old(builder).wf(),
        ensures
            final(builder).wf(),
            final(builder).constant_defs() == old(builder).constant_defs(),
            final(builder).names().globals == old(builder).names().globals,
            final(builder).names().tags == old(builder).names().tags,
            r is Ok ==> final(builder).vars() == Variables::fresh(),
            r is Ok ==> final(builder).names().constants == constant_ids(
                old(builder).constant_defs(),
            ),
            match constants_from(
                old(builder).constant_defs(),
                0,
                old(builder).names().globals,
                old(builder).names().tags,
                global_lookup.globals(),
                Seq::empty(),
            ) {
                Ok(values) => r matches Ok(constants) && constants@ == values,
                Err(error) => r matches Err(e) && e@ == error,
            },
    {
        builder.reset();
        builder.forget_constants();
        let defs = builder.definitions();
        let mut consts: Vec<Value> = Vec::new();
        let mut i: usize = 0;
        while i < defs.len()
            invariant
                i <= defs@.len(),
                defs@ == builder.constant_defs(),
                builder.wf(),
                builder.constant_defs() == old(builder).constant_defs(),
                builder.names().globals == old(builder).names().globals,
                builder.names().tags == old(builder).names().tags,
                builder.vars() == Variables::fresh(),
                builder.seen() == i,
                builder.names().constants == constant_ids(defs@.take(i as int)),
                constants_from(
                    defs@,
                    i as int,
                    builder.names().globals,
                    builder.names().tags,
                    global_lookup.globals(),
                    consts@,
                ) == constants_from(
                    defs@,
                    0,
                    old(builder).names().globals,
                    old(builder).names().tags,
                    global_lookup.globals(),
                    Seq::empty(),
                ),
            decreases defs@.len() - i,
        {
            let runnable = match builder.build(&defs[i].1) {
                Ok(runnable) => runnable,
                Err(error) => {
                    return Err(error);
                },
            };
            let mut context = EvalContext::constant(
                &consts,
                runnable.slots as usize,
                global_lookup,
            );
            let value = match context.evaluate(&runnable.expr) {
                Ok(value) => value,
                Err(RuntimeError::EarlyReturn(value)) => value,
                Err(error) => {
                    return Err(CompileError::ConstEval(error));
                },
            };
            consts.push(value);
            builder.declare_constant();
            i += 1;
        }
        assert(defs@.take(defs@.len() as int) =~= defs@);
        Ok(consts)
    }

    /// Scores an edge from the tags of its two nodes and of its way.
    pub fn score<T: TagSource, G: GlobalLookup>(
        &self,
        source_node_tags: &T,
        target_node_tags: &T,
        way_tags: &T,
        global_lookup: &G,
    ) -> (r: Result<EdgeScore, RuntimeError>)
        ensures
            match self@.score(
                source_node_tags.tags(),
                target_node_tags.tags(),
                way_tags.tags(),
                global_lookup.globals(),
            ) {
                Ok(score) => r == Ok::<EdgeScore, RuntimeError>(score),
                Err(error) => r matches Err(e) && e@ == error,
            },
    {
        let mut penalty = Number::Bits(ZERO);
        let mut cost_factor = Number::Bits(ONE);
        match &self.node_penalty {
            Some(expr) => {
                match self.evaluate_expression(expr, source_node_tags, global_lookup) {
                    Ok(score) => {
                        penalty = Number::Apply(ArithOp::Sum, Box::new(penalty), Box::new(score));
                    },
                    Err(error) => {
                        return Err(error);
                    },
                }
                match self.evaluate_expression(expr, target_node_tags, global_lookup) {
                    Ok(score) => {
                        penalty = Number::Apply(ArithOp::Sum, Box::new(penalty), Box::new(score));
                    },
                    Err(error) => {
                        return Err(error);
                    },
                }
            },
            None => {},
        }
        match &self.way_penalty {
            Some(expr) => {
                match self.evaluate_expression(expr, way_tags, global_lookup) {
                    Ok(score) => {
                        penalty = Number::Apply(ArithOp::Sum, Box::new(penalty), Box::new(score));
                    },
                    Err(error) => {
                        return Err(error);
                    },
                }
            },
            None => {},
        }
        match &self.cost_factor {
            Some(expr) => {
                match self.evaluate_expression(expr, way_tags, global_lookup) {
                    Ok(score) => {
                        cost_factor = Number::Apply(
                            ArithOp::Sum,
                            Box::new(cost_factor),
                            Box::new(score),
                        );
                    },
                    Err(error) => {
                        return Err(error);
                    },
                }
            },
            None => {},
        }
        Ok(EdgeScore { penalty, cost_factor })
    }

    /// Evaluates one compiled expression against one feature, from empty
    /// slots, and reads the outcome as a score.
    pub fn evaluate_expression<T: TagSource, G: GlobalLookup>(
        &self,
        expr: &RunnableExpr,
        tag_source: &T,
        global_lookup: &G,
    ) -> (r: Result<Number, RuntimeError>)
        ensures
            match self@.unit_score(expr@, tag_source.tags(), global_lookup.globals()) {
                Ok(score) => r == Ok::<Number, RuntimeError>(score),
                Err(error) => r matches Err(e) && e@ == error,
            },
    {
        let mut context = EvalContext::create(
            &self.constants,
            expr.slots as usize,
            tag_source,
            global_lookup,
        );
        let val = match context.evaluate(&expr.expr) {
            Err(RuntimeError::EarlyReturn(val)) => val,
            Ok(val) => val,
            Err(error) => {
                return Err(error);
            },
        };
        match val {
            Value::Number(score) => Ok(score),
            Value::Invalid => Ok(Number::Bits(IMPASSABLE)),
            val => Err(RuntimeError::bad_score(&val)),
        }
    }
}

/// A `return!` among the arguments of the outermost block gives the
/// whole evaluation its value: if the block goes on after each argument
/// before the `return!`, and the argument of the `return!` has a value,
/// then the evaluation ends in that value, and no argument after the
/// `return!` is evaluated.
pub proof fn lemma_return_ends_evaluation(
    unit: Unit,
    kind: BlockTy,
    body: Seq<ExprView>,
    k: int,
    returned: ExprView,
    env: Env,
)
    requires
        unit.expr == ExprView::Block(kind, body),
        0 <= k < body.len(),
        body[k] == ExprView::Block(BlockTy::Return, seq![returned]),
        forall|j: int|
            0 <= j < k ==> goes_on(
                kind,
                #[trigger] argument(body, j, env, no_slots_filled(unit.slots as nat)).outcome,
            ),
        eval(returned, env, slots_before(body, k, env, no_slots_filled(unit.slots as nat))).outcome
            is Ok,
    ensures
        run(unit, env) == eval(
            returned,
            env,
            slots_before(body, k, env, no_slots_filled(unit.slots as nat)),
        ).outcome,
        eval(unit.expr, env, no_slots_filled(unit.slots as nat)).slots == eval(
            returned,
            env,
            slots_before(body, k, env, no_slots_filled(unit.slots as nat)),
        ).slots,
{
    let slots = no_slots_filled(unit.slots as nat);
    lemma_return_returns(returned, env, slots_before(body, k, env, slots));
    lemma_argument_ends_block(kind, body, k, env, slots);
}

/// A profile that has neither a way penalty, nor a node penalty, nor a
/// cost factor gives every edge the penalty zero and the cost factor one.
pub proof fn lemma_default_score(
    runtime: RuntimeView,
    source: Map<TagDictId, TagDictId>,
    target: Map<TagDictId, TagDictId>,
    way: Map<TagDictId, TagDictId>,
    globals: Map<Seq<char>, u32>,
)
    requires
        runtime.way_penalty is None,
        runtime.node_penalty is None,
        runtime.cost_factor is None,
    ensures
        runtime.score(source, target, way, globals) == Ok::<EdgeScore, RuntimeErrorView>(
            EdgeScore { penalty: Number::Bits(ZERO), cost_factor: Number::Bits(ONE) },
        ),
{
}

/// A profile in which a penalty or the cost factor is a name that stands
/// for nothing is not compiled: where its constants compile, compiling it
/// fails and names the name, so nothing of it is ever evaluated.
pub proof fn lemma_unknown_ident_fails_load(
    profile: Profile,
    name: String,
    globals: Seq<Seq<char>>,
    tags: Seq<Seq<char>>,
)
    requires
        profile.constant_defs@.len() < u8::MAX,
        constants_from(profile.constant_defs@, 0, globals, tags, Map::empty(), Seq::empty())
            is Ok,
        profile.way_penalty == Some(Expression::Ident(name)),
        !constant_ids(profile.constant_defs@).dom().contains(name@),
        !globals.contains(name@),
    ensures
        load(profile, globals, tags) == Err::<RuntimeView, CompileErrorView>(
            CompileErrorView::UnknownIdent(name@),
        ),
{
    let names = names_of(profile.constant_defs@, globals, tags);
    reveal_with_fuel(resolve, 2);
    lemma_unknown_ident_is_refused(name, names, Variables::fresh());
}

} // verus!
