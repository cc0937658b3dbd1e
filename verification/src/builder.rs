//! The compiler: lowers expression trees to compiled expressions.

use vstd::prelude::*;
use vstd::hash_map::StringHashMap;
use crate::compile::{
    compact_pattern, compact_patterns, constant_ids, lower, lower_all, lower_block, lower_clauses,
    lower_condition, lower_defs, Lowered, Names, Variables,
};
use crate::error::{CompileError, CompileErrorView};
use crate::ir::{clause_models, models, pattern_views, BlockTy, Expr, ExprView, WhenBlockClause};
use crate::scope::{holder, lemma_holder, resolve, NestedScope};
use crate::syntax::{Condition, Def, Definitions, Expression, NamedBlock, TagPattern, WhenBlock};
use crate::tags::{compact, TagDict, TagDictId, UNKNOWN_TAG_ID};
use crate::text::same_text;
use crate::value::Value;

verus! {

/// The id of a variable's slot.
pub type VariableId = u16;

/// The models of the definitions bound in each scope.
pub open spec fn def_models(scopes: Seq<Map<Seq<char>, Expr>>) -> Seq<Map<Seq<char>, ExprView>> {
    Seq::new(scopes.len(), |i: int| scopes[i].map_values(|def: Expr| def@))
}

/// Looking a name up among the models of the definitions gives the model
/// of what the name is bound to.
pub proof fn lemma_resolve_models(scopes: Seq<Map<Seq<char>, Expr>>, name: Seq<char>)
    ensures
        resolve(def_models(scopes), name) == (match resolve(scopes, name) {
            Some(def) => Some(def@),
            None => None,
        }),
    decreases scopes.len(),
{
    if scopes.len() > 0 {
        assert(def_models(scopes).drop_last() =~= def_models(scopes.drop_last()));
        lemma_resolve_models(scopes.drop_last(), name);
    }
}

/// The scope that holds a name among the models of the definitions is
/// the scope that holds it among the definitions.
pub proof fn lemma_holder_models(scopes: Seq<Map<Seq<char>, Expr>>, name: Seq<char>)
    ensures
        holder(def_models(scopes), name) == holder(scopes, name),
    decreases scopes.len(),
{
    if scopes.len() > 0 {
        assert(def_models(scopes).drop_last() =~= def_models(scopes.drop_last()));
        lemma_holder_models(scopes.drop_last(), name);
    }
}

/// The variables in sight: the definitions bound in the scopes that are
/// open, the slot ids of those that have been used, and the next free
/// slot id.
pub struct VariableMapping {
    ids: NestedScope<VariableId>,
    defs: NestedScope<Expr>,
    next_id: VariableId,
}

impl View for VariableMapping {
    type V = Variables;

    closed spec fn view(&self) -> Variables {
        Variables { ids: self.ids@, defs: def_models(self.defs@), next_id: self.next_id }
    }
}

impl VariableMapping {
    pub fn new() -> (r: Self)
        ensures
            r@ == Variables::fresh(),
    {
        let r = VariableMapping {
            ids: NestedScope::empty(),
            defs: NestedScope::empty(),
            next_id: 0,
        };
        assert(r@.defs =~~= Variables::fresh().defs);
        r
    }

    /// Starts afresh and hands back the variables as they were.
    pub fn clear(&mut self) -> (r: Self)
        ensures
            r@ == old(self)@,
            final(self)@ == Variables::fresh(),
    {
        let mut fresh = Self::new();
        std::mem::swap(self, &mut fresh);
        fresh
    }

    pub fn push(&mut self)
        ensures
            final(self)@ == old(self)@.push(),
    {
        self.ids.push();
        self.defs.push();
        assert(self@.defs =~~= old(self)@.push().defs);
    }

    pub fn pop(&mut self)
        requires
            old(self)@.wf(),
        ensures
            final(self)@ == old(self)@.pop(),
    {
        self.ids.pop();
        self.defs.pop();
        assert(self@.defs =~~= old(self)@.pop().defs);
    }

    /// Gives the variable `ident`, defined in the scope at `depth`, the
    /// next slot id.
    pub fn add_variable(&mut self, depth: usize, ident: String) -> (id: VariableId)
        requires
            old(self)@.wf(),
            old(self)@.has_room(),
            depth < old(self)@.depth(),
        ensures
            id == old(self)@.next_id,
            final(self)@ == old(self)@.add(depth as int, ident@),
    {
        let new_id = self.next_id;
        self.ids.set_in(depth, ident, new_id);
        self.next_id += 1;
        new_id
    }

    /// The slot id of the variable that `ident` stands for: the one that
    /// it has, or else a new one. `None` where no definition of `ident`
    /// is in sight, or where a new id is needed and none is left.
    pub fn get_or_assign_id(&mut self, ident: &str) -> (r: Option<VariableId>)
        requires
            old(self)@.wf(),
        ensures
            match old(self)@.assign(ident@) {
                Some((id, after)) => r == Some(id) && final(self)@ == after,
                None => r is None && final(self)@ == old(self)@,
            },
    {
        proof {
            lemma_holder_models(self.defs@, ident@);
        }
        let depth = match self.defs.find(ident) {
            Some((depth, _)) => depth,
            None => {
                return None;
            },
        };
        match self.ids.get_in(depth, ident) {
            Some(id) => Some(*id),
            None => {
                if self.next_id == u16::MAX {
                    None
                } else {
                    Some(self.add_variable(depth, ident.to_owned()))
                }
            },
        }
    }

    /// Binds `ident` to `expr` in the innermost scope, as a new variable
    /// without a slot id.
    pub fn add_definition(&mut self, ident: &str, expr: Expr)
        requires
            old(self)@.wf(),
        ensures
            final(self)@ == old(self)@.define(ident@, expr@),
    {
        self.defs.set(ident.to_owned(), expr);
        self.ids.unset(ident.to_owned());
        assert(self@.defs =~~= old(self)@.define(ident@, expr@).defs);
    }

    /// The definition that `ident` stands for, if one is in sight.
    pub fn get_definition(&self, ident: &str) -> (r: Option<&Expr>)
        ensures
            match r {
                Some(def) => self@.definition(ident@) == Some(def@),
                None => self@.definition(ident@) is None,
            },
    {
        proof {
            lemma_resolve_models(self.defs@, ident@);
        }
        self.defs.get(ident)
    }

    /// The slot id that the next new variable gets, which is also the
    /// number of slot ids given out.
    pub fn next_id(&self) -> (r: VariableId)
        ensures
            r == self@.next_id,
    {
        self.next_id
    }
}

/// The names on a list of globals, in the same order.
pub open spec fn global_names(globals: Seq<&str>) -> Seq<Seq<char>> {
    Seq::new(globals.len(), |i: int| globals[i]@)
}

/// An expression that is ready to be evaluated: the compiled expression,
/// and the number of slots that an evaluation of it needs.
#[derive(Debug, PartialEq, Eq)]
pub struct RunnableExpr {
    pub expr: Expr,
    pub slots: VariableId,
}

/// Whether `r`, with the variables `vars` left behind, is what lowering
/// is to give: on success the expression that stands for the expected
/// one and the expected variables, on failure the expected error.
pub open spec fn is_lowered(
    r: Result<Expr, CompileError>,
    vars: Variables,
    expected: Lowered<ExprView>,
) -> bool {
    match expected {
        Ok((expr, after)) => r matches Ok(lowered) && lowered@ == expr && vars == after,
        Err(error) => r matches Err(e) && e@ == error,
    }
}

/// The compiler of one profile. It lowers one expression after another;
/// `build` starts each with fresh variables.
pub struct Builder<'a> {
    defs: &'a Definitions,
    constants: StringHashMap<u8>,
    declared: usize,
    globals: &'a [&'a str],
    tag_dict: &'a TagDict,
    variables: VariableMapping,
}

impl<'a> Builder<'a> {
    /// The definitions of the profile's constants.
    pub closed spec fn constant_defs(&self) -> Seq<Def> {
        self.defs@
    }

    /// The names that the compiler resolves against. The constants among
    /// them are those in sight.
    pub closed spec fn names(&self) -> Names {
        Names {
            constants: self.constants@,
            globals: global_names(self.globals@),
            tags: self.tag_dict@,
        }
    }

    /// The variables in sight.
    pub closed spec fn vars(&self) -> Variables {
        self.variables@
    }

    /// The compiler is ready to lower an expression.
    pub closed spec fn wf(&self) -> bool {
        &&& self.variables@.wf()
        &&& self.tag_dict.wf()
        &&& self.declared <= self.defs@.len() < u8::MAX
        &&& self.constants@ == constant_ids(self.defs@.take(self.declared as int))
    }

    /// The number of constants in sight: the first so many of the
    /// profile's constants.
    pub closed spec fn seen(&self) -> nat {
        self.declared as nat
    }

    /// A compiler for a profile with the constants `constants`, all of
    /// them in sight, in which expressions may read the globals on the
    /// list `globals`. It fails where there are more constants than
    /// indices.
    pub fn new(constants: &'a Definitions, globals: &'a [&'a str], tag_dict: &'a TagDict) -> (r:
        Result<Self, CompileError>)
        requires
            tag_dict.wf(),
        ensures
            match r {
                Ok(builder) => {
                    &&& constants@.len() < u8::MAX
                    &&& builder.wf()
                    &&& builder.constant_defs() == constants@
                    &&& builder.seen() == constants@.len()
                    &&& builder.vars() == Variables::fresh()
                    &&& builder.names() == (Names {
                        constants: constant_ids(constants@),
                        globals: global_names(globals@),
                        tags: tag_dict@,
                    })
                },
                Err(error) => constants@.len() >= u8::MAX && error@
                    == CompileErrorView::TooManyConstants,
            },
    {
        assert(constants@.take(constants@.len() as int) =~= constants@);
        match Self::build_const_map(constants) {
            Ok(map) => Ok(
                Builder {
                    tag_dict,
                    globals,
                    variables: VariableMapping::new(),
                    defs: constants,
                    constants: map,
                    declared: constants.len(),
                },
            ),
            Err(error) => Err(error),
        }
    }

    /// Gives each constant its index. A name that is defined more than
    /// once gets the index of its last definition.
    fn build_const_map(defs: &Definitions) -> (r: Result<StringHashMap<u8>, CompileError>)
        ensures
            match r {
                Ok(map) => defs@.len() < u8::MAX && map@ == constant_ids(defs@),
                Err(error) => defs@.len() >= u8::MAX && error@
                    == CompileErrorView::TooManyConstants,
            },
    {
        if defs.len() >= 255 {
            return Err(CompileError::TooManyConstants);
        }
        let mut map: StringHashMap<u8> = StringHashMap::new();
        let mut i: usize = 0;
        assert(defs@.take(0) =~= Seq::<Def>::empty());
        while i < defs.len()
            invariant
                i <= defs@.len() < 255,
                map@ == constant_ids(defs@.take(i as int)),
            decreases defs@.len() - i,
        {
            map.insert(defs[i].0.clone(), i as u8);
            i += 1;
            assert(defs@.take(i as int).drop_last() =~= defs@.take(i - 1));
        }
        assert(defs@.take(i as int) =~= defs@);
        Ok(map)
    }

    /// The definitions of the profile's constants.
    pub fn definitions(&self) -> (r: &'a Definitions)
        ensures
            r@ == self.constant_defs(),
    {
        self.defs
    }

    /// Forgets the variables: the next expression is lowered with fresh
    /// ones.
    pub fn reset(&mut self)
        requires
            old(self).wf(),
        ensures
            final(self).wf(),
            final(self).names() == old(self).names(),
            final(self).constant_defs() == old(self).constant_defs(),
            final(self).seen() == old(self).seen(),
            final(self).vars() == Variables::fresh(),
    {
        self.variables.clear();
    }

    /// Puts every constant out of sight.
    pub(crate) fn forget_constants(&mut self)
        requires
            old(self).wf(),
        ensures
            final(self).wf(),
            final(self).seen() == 0,
            final(self).constant_defs() == old(self).constant_defs(),
            final(self).vars() == old(self).vars(),
            final(self).names() == (Names {
                constants: Map::empty(),
                globals: old(self).names().globals,
                tags: old(self).names().tags,
            }),
    {
        self.constants.clear();
        self.declared = 0;
        assert(self.defs@.take(0) =~= Seq::<Def>::empty());
    }

    /// Puts the next constant in sight: the first of the profile's
    /// constants that is not.
    pub(crate) fn declare_constant(&mut self)
        requires
            old(self).wf(),
            old(self).seen() < old(self).constant_defs().len(),
        ensures
            final(self).wf(),
            final(self).seen() == old(self).seen() + 1,
            final(self).constant_defs() == old(self).constant_defs(),
            final(self).vars() == old(self).vars(),
            final(self).names() == (Names {
                constants: constant_ids(
                    old(self).constant_defs().take(old(self).seen() as int + 1),
                ),
                globals: old(self).names().globals,
                tags: old(self).names().tags,
            }),
    {
        let index = self.declared;
        self.constants.insert(self.defs[index].0.clone(), index as u8);
        self.declared = index + 1;
        assert(self.defs@.take(index + 1).drop_last() =~= self.defs@.take(index as int));
    }

    /// The compact id of a tag key or value: the id that the dictionary
    /// holds for the text, and `UNKNOWN_TAG_ID` for a text that the
    /// dictionary does not hold.
    pub fn compact_tag(&self, key: &str) -> (r: TagDictId)
        requires
            self.wf(),
        ensures
            r == compact(self.names().tags, key@),
    {
        match self.tag_dict.to_compact(key) {
            Some(id) => id,
            None => UNKNOWN_TAG_ID,
        }
    }

    /// The index of the constant `ident`, if a constant of that name is
    /// in sight: that of its last definition.
    fn constant_index(&self, ident: &str) -> (r: Option<u8>)
        ensures
            r == (if self.names().constants.dom().contains(ident@) {
                Some(self.names().constants[ident@])
            } else {
                None
            }),
    {
        match self.constants.get(ident) {
            Some(index) => Some(*index),
            None => None,
        }
    }

    /// Whether `ident` is on the list of globals.
    fn is_global(&self, ident: &str) -> (r: bool)
        ensures
            r == self.names().globals.contains(ident@),
    {
        let mut i: usize = 0;
        while i < self.globals.len()
            invariant
                i <= self.globals@.len(),
                forall|j: int| 0 <= j < i ==> global_names(self.globals@)[j] != ident@,
            decreases self.globals@.len() - i,
        {
            if same_text(self.globals[i], ident) {
                assert(global_names(self.globals@)[i as int] == ident@);
                return true;
            }
            i += 1;
        }
        false
    }

    /// Replaces the texts of one pattern by compact ids.
    fn lower_values(&self, values: &Vec<String>) -> (r: Vec<TagDictId>)
        requires
            self.wf(),
        ensures
            r@ == Seq::new(values@.len(), |i: int| compact(self.names().tags, values@[i]@)),
    {
        let mut ids: Vec<TagDictId> = Vec::new();
        let mut i: usize = 0;
        while i < values.len()
            invariant
                self.wf(),
                i <= values@.len(),
                ids@.len() == i,
                forall|j: int| 0 <= j < i ==> ids@[j] == compact(self.names().tags, values@[j]@),
            decreases values@.len() - i,
        {
            ids.push(self.compact_tag(values[i].as_str()));
            i += 1;
        }
        ids
    }

    /// Replaces the texts of a pattern by compact ids.
    fn lower_pattern(&self, pattern: &TagPattern<String>) -> (r: TagPattern<TagDictId>)
        requires
            self.wf(),
        ensures
            r@ == compact_pattern(pattern@, self.names().tags),
    {
        match pattern {
            TagPattern::Exists(key) => TagPattern::Exists(self.compact_tag(key.as_str())),
            TagPattern::NotExists(key) => TagPattern::NotExists(self.compact_tag(key.as_str())),
            TagPattern::OneOf(key, values) => {
                let r = TagPattern::OneOf(
                    self.compact_tag(key.as_str()),
                    self.lower_values(values),
                );
                assert(r@->OneOf_1 =~= compact_pattern(pattern@, self.names().tags)->OneOf_1);
                r
            },
            TagPattern::NoneOf(key, values) => {
                let r = TagPattern::NoneOf(
                    self.compact_tag(key.as_str()),
                    self.lower_values(values),
                );
                assert(r@->NoneOf_1 =~= compact_pattern(pattern@, self.names().tags)->NoneOf_1);
                r
            },
        }
    }

    /// Replaces the texts of each pattern by compact ids.
    fn lower_patterns(&self, patterns: &Vec<TagPattern<String>>) -> (r: Vec<
        TagPattern<TagDictId>,
    >)
        requires
            self.wf(),
        ensures
            pattern_views(r@) == compact_patterns(patterns@, self.names().tags),
    {
        let mut lowered: Vec<TagPattern<TagDictId>> = Vec::new();
        let mut i: usize = 0;
        while i < patterns.len()
            invariant
                self.wf(),
                i <= patterns@.len(),
                lowered@.len() == i,
                forall|j: int|
                    0 <= j < i ==> lowered@[j]@ == compact_pattern(
                        patterns@[j]@,
                        self.names().tags,
                    ),
            decreases patterns@.len() - i,
        {
            lowered.push(self.lower_pattern(&patterns[i]));
            i += 1;
        }
        lowered
    }

    /// Resolves a name.
    fn lower_ident(&mut self, ident: &String) -> (r: Result<Expr, CompileError>)
        requires
            old(self).wf(),
        ensures
            final(self).wf(),
            final(self).names() == old(self).names(),
            final(self).constant_defs() == old(self).constant_defs(),
            final(self).seen() == old(self).seen(),
            final(self).vars().depth() == old(self).vars().depth(),
            is_lowered(
                r,
                final(self).vars(),
                lower(Expression::Ident(*ident), old(self).names(), old(self).vars()),
            ),
    {
        let name = ident.as_str();
        proof {
            lemma_holder(self.variables@.defs, ident@);
        }
        let found = match self.variables.get_definition(name) {
            Some(def) => Some(def.clone()),
            None => None,
        };
        match found {
            Some(def) => {
                match self.variables.get_or_assign_id(name) {
                    Some(slot) => Ok(Expr::LookupOrCompute(slot, Box::new(def))),
                    None => Err(CompileError::TooManyVariables),
                }
            },
            None => {
                match self.constant_index(name) {
                    Some(index) => Ok(Expr::LookupConstant(index)),
                    None => {
                        if self.is_global(name) {
                            Ok(Expr::LookupGlobal(ident.clone()))
                        } else {
                            Err(CompileError::UnknownIdent(ident.clone()))
                        }
                    },
                }
            },
        }
    }

    /// Lowers an expression. On success the scopes that were open before
    /// are open after, and no other.
    pub fn lower(&mut self, expr: &Expression) -> (r: Result<Expr, CompileError>)
        requires
            old(self).wf(),
        ensures
            final(self).wf(),
            final(self).names() == old(self).names(),
            final(self).constant_defs() == old(self).constant_defs(),
            final(self).seen() == old(self).seen(),
            r is Ok ==> final(self).vars().depth() == old(self).vars().depth(),
            is_lowered(
                r,
                final(self).vars(),
                lower(*expr, old(self).names(), old(self).vars()),
            ),
        decreases expr, 0nat,
    {
        match expr {
            Expression::Literal(value) => Ok(Expr::Literal(value.clone())),
            Expression::Ident(ident) => self.lower_ident(ident),
            Expression::TagPattern(patterns) => Ok(Expr::TagPattern(self.lower_patterns(patterns))),
            Expression::NamedBlock(block) => self.lower_named_block(block),
            Expression::WhenBlock(block) => self.lower_when_block(block),
        }
    }

    /// Lowers a named block.
    fn lower_named_block(&mut self, block: &NamedBlock) -> (r: Result<Expr, CompileError>)
        requires
            old(self).wf(),
        ensures
            final(self).wf(),
            final(self).names() == old(self).names(),
            final(self).constant_defs() == old(self).constant_defs(),
            final(self).seen() == old(self).seen(),
            r is Ok ==> final(self).vars().depth() == old(self).vars().depth(),
            is_lowered(
                r,
                final(self).vars(),
                lower_block(*block, old(self).names(), old(self).vars()),
            ),
        decreases block, 2nat,
    {
        self.variables.push();
        let mut i: usize = 0;
        while i < block.defs.len()
            invariant
                i <= block.defs@.len(),
                self.wf(),
                self.names() == old(self).names(),
                self.constant_defs() == old(self).constant_defs(),
                self.seen() == old(self).seen(),
                self.vars().depth() == old(self).vars().depth() + 1,
                lower_defs(block.defs@, i as int, self.names(), self.vars()) == lower_defs(
                    block.defs@,
                    0,
                    old(self).names(),
                    old(self).vars().push(),
                ),
            decreases block.defs@.len() - i,
        {
            match self.lower(&block.defs[i].1) {
                Ok(def) => {
                    self.variables.add_definition(block.defs[i].0.as_str(), def);
                },
                Err(error) => {
                    return Err(error);
                },
            }
            i += 1;
        }
        let ty = match BlockTy::from_name(block.name.as_str()) {
            Some(ty) => ty,
            None => {
                return Err(CompileError::UnknownBlockTy(block.name.clone()));
            },
        };
        if !ty.arity().accepts(block.body.len()) {
            return Err(CompileError::InvalidArity(block.name.clone()));
        }
        let ghost defined = self.vars();
        let mut body: Vec<Expr> = Vec::new();
        assert(models(body@) =~= Seq::<ExprView>::empty());
        let mut j: usize = 0;
        while j < block.body.len()
            invariant
                j <= block.body@.len(),
                lower_defs(block.defs@, 0, old(self).names(), old(self).vars().push()) == Ok::<
                    Variables,
                    CompileErrorView,
                >(defined),
                BlockTy::named(block.name@) == Some(ty),
                ty.arity().admits(block.body@.len() as nat),
                self.wf(),
                self.names() == old(self).names(),
                self.constant_defs() == old(self).constant_defs(),
                self.seen() == old(self).seen(),
                self.vars().depth() == old(self).vars().depth() + 1,
                lower_all(block.body@, 0, old(self).names(), defined, Seq::empty())
                    == lower_all(
                    block.body@,
                    j as int,
                    self.names(),
                    self.vars(),
                    models(body@),
                ),
            decreases block.body@.len() - j,
        {
            match self.lower(&block.body[j]) {
                Ok(argument) => {
                    let ghost before = models(body@);
                    body.push(argument);
                    assert(models(body@) =~= before.push(argument@));
                },
                Err(error) => {
                    return Err(error);
                },
            }
            j += 1;
        }
        self.variables.pop();
        Ok(Expr::Block(ty, body))
    }

    /// Lowers a `when`.
    fn lower_when_block(&mut self, block: &WhenBlock) -> (r: Result<Expr, CompileError>)
        requires
            old(self).wf(),
        ensures
            final(self).wf(),
            final(self).names() == old(self).names(),
            final(self).constant_defs() == old(self).constant_defs(),
            final(self).seen() == old(self).seen(),
            r is Ok ==> final(self).vars().depth() == old(self).vars().depth(),
            match lower_clauses(
                block.0@,
                0,
                old(self).names(),
                old(self).vars(),
                Seq::empty(),
            ) {
                Ok((clauses, after)) => r matches Ok(lowered) && lowered@ == ExprView::When(clauses)
                    && final(self).vars() == after,
                Err(error) => r matches Err(e) && e@ == error,
            },
        decreases block, 2nat,
    {
        let mut clauses: Vec<WhenBlockClause> = Vec::new();
        assert(clause_models(clauses@) =~= Seq::<(ExprView, ExprView)>::empty());
        let mut i: usize = 0;
        while i < block.0.len()
            invariant
                i <= block.0@.len(),
                self.wf(),
                self.names() == old(self).names(),
                self.constant_defs() == old(self).constant_defs(),
                self.seen() == old(self).seen(),
                self.vars().depth() == old(self).vars().depth(),
                lower_clauses(block.0@, 0, old(self).names(), old(self).vars(), Seq::empty())
                    == lower_clauses(
                    block.0@,
                    i as int,
                    self.names(),
                    self.vars(),
                    clause_models(clauses@),
                ),
            decreases block.0@.len() - i,
        {
            let ghost entered = self.vars();
            assert(lower_condition(block.0@[i as int].condition, self.names(), entered) == (
            match block.0@[i as int].condition {
                Condition::Else => Ok((ExprView::Literal(Value::Bool(true)), entered)),
                Condition::Test(test) => lower(test, self.names(), entered),
            }));
            let condition = match &block.0[i].condition {
                Condition::Else => Expr::Literal(Value::Bool(true)),
                Condition::Test(test) => match self.lower(test) {
                    Ok(condition) => condition,
                    Err(error) => {
                        return Err(error);
                    },
                },
            };
            match self.lower(&block.0[i].value) {
                Ok(value) => {
                    let ghost before = clause_models(clauses@);
                    let ghost added = (condition@, value@);
                    clauses.push(WhenBlockClause(condition, value));
                    assert(clause_models(clauses@) =~= before.push(added));
                },
                Err(error) => {
                    return Err(error);
                },
            }
            i += 1;
        }
        Ok(Expr::When(clauses))
    }

    /// Compiles one expression of the profile: lowers it, then starts
    /// afresh, so that the next expression has its own slots.
    pub fn build(&mut self, expr: &Expression) -> (r: Result<RunnableExpr, CompileError>)
        requires
            old(self).wf(),
        ensures
            final(self).wf(),
            final(self).names() == old(self).names(),
            final(self).constant_defs() == old(self).constant_defs(),
            final(self).seen() == old(self).seen(),
            match lower(*expr, old(self).names(), old(self).vars()) {
                Ok((lowered, after)) => {
                    &&& r matches Ok(unit)
                    &&& unit.expr@ == lowered
                    &&& unit.slots == after.next_id
                    &&& final(self).vars() == Variables::fresh()
                },
                Err(error) => r matches Err(e) && e@ == error,
            },
    {
        match self.lower(expr) {
            Ok(expr) => {
                let variables = self.variables.clear();
                Ok(RunnableExpr { expr, slots: variables.next_id() })
            },
            Err(error) => Err(error),
        }
    }
}

} // verus!
