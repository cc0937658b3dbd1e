//! The interpreter: evaluates compiled expressions.

use vstd::prelude::*;
use crate::error::{outcome, RuntimeError, RuntimeErrorView};
use crate::ir::{clause_models, models, pattern_views, BlockTy, Expr, WhenBlockClause};
use crate::semantics::{
    eval, eval_fold, eval_scan, eval_when, no_slots_filled, pattern_matches, patterns_match, Env,
    Slots, Step,
};
use crate::syntax::TagPattern;
use crate::tags::{EmptyTagSource, GlobalLookup, TagDictId, TagSource};
use crate::value::{ArithOp, Number, Value};

verus! {

/// Whether `id` is among `ids`.
fn contains_id(ids: &Vec<TagDictId>, id: TagDictId) -> (r: bool)
    ensures
        r == ids@.contains(id),
{
    let mut i: usize = 0;
    while i < ids.len()
        invariant
            i <= ids@.len(),
            forall|j: int| 0 <= j < i ==> ids@[j] != id,
        decreases ids@.len() - i,
    {
        if ids[i] == id {
            return true;
        }
        i += 1;
    }
    false
}

/// Whether the feature behind `tags` meets `pattern`.
fn matches_pattern<T: TagSource>(pattern: &TagPattern<TagDictId>, tags: &T) -> (r: bool)
    ensures
        r == pattern_matches(pattern@, tags.tags()),
{
    match pattern {
        TagPattern::Exists(key) => tags.has_tag(*key),
        TagPattern::NotExists(key) => !tags.has_tag(*key),
        TagPattern::OneOf(key, values) => {
            assert(pattern@->OneOf_1 =~= values@);
            match tags.get_tag(*key) {
                Some(value) => contains_id(values, value),
                None => false,
            }
        },
        TagPattern::NoneOf(key, values) => {
            assert(pattern@->NoneOf_1 =~= values@);
            match tags.get_tag(*key) {
                Some(value) => !contains_id(values, value),
                None => false,
            }
        },
    }
}

/// `n` empty slots.
fn empty_slots(n: usize) -> (r: Vec<Option<Value>>)
    ensures
        r@ == no_slots_filled(n as nat),
{
    let mut slots: Vec<Option<Value>> = Vec::new();
    let mut i: usize = 0;
    while i < n
        invariant
            i <= n,
            slots@ == no_slots_filled(i as nat),
        decreases n - i,
    {
        slots.push(None);
        i += 1;
    }
    slots
}

/// The state of one evaluation. It is made for one scoring call and
/// dropped with it: slots are never carried from one call to the next.
pub struct EvalContext<'a, T, G> {
    constants: &'a Vec<Value>,
    variables: Vec<Option<Value>>,
    tag_source: Option<&'a T>,
    global_lookup: &'a G,
}

impl<'a, G: GlobalLookup> EvalContext<'a, EmptyTagSource, G> {
    /// A context for the definition of a constant: it has the constants
    /// declared before, `num_variables` empty slots and no feature at hand.
    pub fn constant(constants: &'a Vec<Value>, num_variables: usize, global_lookup: &'a G) -> (r:
        Self)
        ensures
            r.env() == (Env {
                constants: constants@,
                tags: None,
                globals: global_lookup.globals(),
            }),
            r.slots() == no_slots_filled(num_variables as nat),
    {
        EvalContext {
            constants,
            global_lookup,
            variables: empty_slots(num_variables),
            tag_source: None,
        }
    }
}

impl<'a, T: TagSource, G: GlobalLookup> EvalContext<'a, T, G> {
    /// What this evaluation reads.
    pub closed spec fn env(&self) -> Env {
        Env {
            constants: self.constants@,
            tags: match self.tag_source {
                Some(source) => Some(source.tags()),
                None => None,
            },
            globals: self.global_lookup.globals(),
        }
    }

    /// The slots as they stand.
    pub closed spec fn slots(&self) -> Slots {
        self.variables@
    }

    /// A context for scoring the feature behind `tag_source`, with
    /// `num_variables` slots, all of them empty.
    pub fn create(
        constants: &'a Vec<Value>,
        num_variables: usize,
        tag_source: &'a T,
        global_lookup: &'a G,
    ) -> (r: Self)
        ensures
            r.env() == (Env {
                constants: constants@,
                tags: Some(tag_source.tags()),
                globals: global_lookup.globals(),
            }),
            r.slots() == no_slots_filled(num_variables as nat),
    {
        EvalContext {
            constants,
            global_lookup,
            variables: empty_slots(num_variables),
            tag_source: Some(tag_source),
        }
    }

    /// Evaluates `expr`, filling the slots of the variables that it reads
    /// for the first time.
    pub fn evaluate(&mut self, expr: &Expr) -> (r: Result<Value, RuntimeError>)
        ensures
            final(self).env() == old(self).env(),
            final(self).slots().len() == old(self).slots().len(),
            (Step { outcome: outcome(r), slots: final(self).slots() }) == eval(
                expr@,
                old(self).env(),
                old(self).slots(),
            ),
        decreases expr, 0nat,
    {
        match expr {
            Expr::Literal(value) => Ok(value.clone()),
            Expr::LookupConstant(index) => {
                let at = *index as usize;
                if at < self.constants.len() {
                    Ok(self.constants[at].clone())
                } else {
                    Err(RuntimeError::bad_constant(*index))
                }
            },
            Expr::LookupGlobal(name) => {
                match self.global_lookup.lookup(name.as_str()) {
                    Some(bits) => Ok(Value::Number(Number::Bits(bits))),
                    None => Err(RuntimeError::bad_global(name.as_str())),
                }
            },
            Expr::LookupOrCompute(slot, def) => {
                let at = *slot as usize;
                if at >= self.variables.len() {
                    return Err(RuntimeError::bad_variable(*slot));
                }
                match &self.variables[at] {
                    Some(value) => Ok(value.clone()),
                    None => {
                        match self.evaluate(def) {
                            Ok(value) => {
                                self.variables.set(at, Some(value.clone()));
                                Ok(value)
                            },
                            Err(error) => Err(error),
                        }
                    },
                }
            },
            Expr::Block(kind, body) => self.evaluate_block(kind, body),
            Expr::When(clauses) => self.evaluate_when(clauses),
            Expr::TagPattern(patterns) => self.evaluate_tag_patterns(patterns),
        }
    }

    /// Evaluates the arguments of an `any?`, `all?` or `none?` block in
    /// order, up to the first whose truthiness is `stop_on`.
    fn scan_block(&mut self, body: &Vec<Expr>, stop_on: bool, at_stop: bool) -> (r: Result<
        Value,
        RuntimeError,
    >)
        ensures
            final(self).env() == old(self).env(),
            final(self).slots().len() == old(self).slots().len(),
            (Step { outcome: outcome(r), slots: final(self).slots() }) == eval_scan(
                models(body@),
                0,
                old(self).env(),
                old(self).slots(),
                stop_on,
                at_stop,
            ),
        decreases body, 0nat,
    {
        let mut i: usize = 0;
        while i < body.len()
            invariant
                i <= body@.len(),
                self.env() == old(self).env(),
                self.slots().len() == old(self).slots().len(),
                eval_scan(models(body@), i as int, self.env(), self.slots(), stop_on, at_stop)
                    == eval_scan(
                    models(body@),
                    0,
                    old(self).env(),
                    old(self).slots(),
                    stop_on,
                    at_stop,
                ),
            decreases body@.len() - i,
        {
            match self.evaluate(&body[i]) {
                Ok(value) => {
                    if value.is_truthy() == stop_on {
                        return Ok(Value::Bool(at_stop));
                    }
                },
                Err(error) => {
                    return Err(error);
                },
            }
            i += 1;
        }
        Ok(Value::Bool(!at_stop))
    }

    /// Folds the operands of an arithmetic block from left to right.
    pub fn fold_block(&mut self, body: &Vec<Expr>, op: ArithOp) -> (r: Result<
        Value,
        RuntimeError,
    >)
        ensures
            final(self).env() == old(self).env(),
            final(self).slots().len() == old(self).slots().len(),
            (Step { outcome: outcome(r), slots: final(self).slots() }) == eval_fold(
                op,
                models(body@),
                0,
                None,
                old(self).env(),
                old(self).slots(),
            ),
        decreases body, 0nat,
    {
        let mut acc: Option<Number> = None;
        let mut i: usize = 0;
        while i < body.len()
            invariant
                i <= body@.len(),
                self.env() == old(self).env(),
                self.slots().len() == old(self).slots().len(),
                eval_fold(op, models(body@), i as int, acc, self.env(), self.slots())
                    == eval_fold(
                    op,
                    models(body@),
                    0,
                    None,
                    old(self).env(),
                    old(self).slots(),
                ),
            decreases body@.len() - i,
        {
            match self.evaluate(&body[i]) {
                Ok(Value::Invalid) => {
                    return Ok(Value::Invalid);
                },
                Ok(Value::Number(n)) => {
                    acc = Some(
                        match acc {
                            None => n,
                            Some(so_far) => Number::Apply(op, Box::new(so_far), Box::new(n)),
                        },
                    );
                },
                Ok(other) => {
                    return Err(RuntimeError::bad_operand(&other));
                },
                Err(error) => {
                    return Err(error);
                },
            }
            i += 1;
        }
        match acc {
            Some(total) => Ok(Value::Number(total)),
            None => Err(RuntimeError::improper_arity()),
        }
    }

    /// Evaluates a block of the kind `ty` with the arguments `body`.
    pub fn evaluate_block(&mut self, ty: &BlockTy, body: &Vec<Expr>) -> (r: Result<
        Value,
        RuntimeError,
    >)
        ensures
            final(self).env() == old(self).env(),
            final(self).slots().len() == old(self).slots().len(),
            (Step { outcome: outcome(r), slots: final(self).slots() }) == eval(
                crate::ir::ExprView::Block(*ty, models(body@)),
                old(self).env(),
                old(self).slots(),
            ),
        decreases body, 1nat,
    {
        match ty {
            BlockTy::Any => self.scan_block(body, true, true),
            BlockTy::All => self.scan_block(body, false, false),
            BlockTy::NotAny => self.scan_block(body, true, false),
            BlockTy::Return => {
                if body.len() == 0 {
                    return Err(RuntimeError::improper_arity());
                }
                match self.evaluate(&body[0]) {
                    Ok(value) => Err(RuntimeError::EarlyReturn(value)),
                    Err(error) => Err(error),
                }
            },
            BlockTy::Sum => self.fold_block(body, ArithOp::Sum),
            BlockTy::Sub => self.fold_block(body, ArithOp::Sub),
            BlockTy::Mul => self.fold_block(body, ArithOp::Mul),
            BlockTy::Div => self.fold_block(body, ArithOp::Div),
        }
    }

    /// Evaluates a `when`: the value of the first clause whose condition
    /// is truthy.
    pub fn evaluate_when(&mut self, clauses: &Vec<WhenBlockClause>) -> (r: Result<
        Value,
        RuntimeError,
    >)
        ensures
            final(self).env() == old(self).env(),
            final(self).slots().len() == old(self).slots().len(),
            (Step { outcome: outcome(r), slots: final(self).slots() }) == eval_when(
                clause_models(clauses@),
                0,
                old(self).env(),
                old(self).slots(),
            ),
        decreases clauses, 0nat,
    {
        let mut i: usize = 0;
        while i < clauses.len()
            invariant
                i <= clauses@.len(),
                self.env() == old(self).env(),
                self.slots().len() == old(self).slots().len(),
                eval_when(clause_models(clauses@), i as int, self.env(), self.slots())
                    == eval_when(clause_models(clauses@), 0, old(self).env(), old(self).slots()),
            decreases clauses@.len() - i,
        {
            match self.evaluate(&clauses[i].0) {
                Ok(condition) => {
                    if condition.is_truthy() {
                        return self.evaluate(&clauses[i].1);
                    }
                },
                Err(error) => {
                    return Err(error);
                },
            }
            i += 1;
        }
        Err(RuntimeError::WhenFallthrough)
    }

    /// Tests the feature at hand against every pattern.
    pub fn evaluate_tag_patterns(&mut self, patterns: &Vec<TagPattern<TagDictId>>) -> (r: Result<
        Value,
        RuntimeError,
    >)
        ensures
            final(self).env() == old(self).env(),
            final(self).slots() == old(self).slots(),
            outcome(r) == (match old(self).env().tags {
                Some(tags) => Ok(Value::Bool(patterns_match(pattern_views(patterns@), tags))),
                None => Err(RuntimeErrorView::no_tags()),
            }),
    {
        let tag_source = match self.tag_source {
            Some(source) => source,
            None => {
                return Err(RuntimeError::no_tags());
            },
        };
        let mut i: usize = 0;
        while i < patterns.len()
            invariant
                i <= patterns@.len(),
                *self == *old(self),
                self.env().tags == Some(tag_source.tags()),
                forall|j: int|
                    0 <= j < i ==> pattern_matches(
                        #[trigger] pattern_views(patterns@)[j],
                        tag_source.tags(),
                    ),
            decreases patterns@.len() - i,
        {
            if !matches_pattern(&patterns[i], tag_source) {
                assert(!pattern_matches(pattern_views(patterns@)[i as int], tag_source.tags()));
                return Ok(Value::Bool(false));
            }
            i += 1;
        }
        Ok(Value::Bool(true))
    }
}

} // verus!
