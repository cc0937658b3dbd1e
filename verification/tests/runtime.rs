use panamint::builder::{Builder, RunnableExpr};
use panamint::error::{CompileError, RuntimeError};
use panamint::runtime::{EdgeScore, Runtime};
use panamint::syntax::{
    Condition, Expression, NamedBlock, Profile, TagPattern, WhenBlock, WhenClause,
};
use panamint::tags::{GlobalTable, TagDict, TagList};
use panamint::value::{ArithOp, Number, Value};

fn common_tags() -> Vec<&'static str> {
    vec![
        "highway", "surface", "asphalt", "unpaved", "bicycle", "yes", "no", "access", "private",
    ]
}

fn common_dict() -> TagDict {
    let mut tag_dict = TagDict::new();
    for &tag in &common_tags() {
        tag_dict.insert(tag.into());
    }
    tag_dict
}

fn apply(op: ArithOp, a: u32, b: u32) -> u32 {
    let (a, b) = (f32::from_bits(a), f32::from_bits(b));
    let r = match op {
        ArithOp::Sum => a + b,
        ArithOp::Sub => a - b,
        ArithOp::Mul => a * b,
        ArithOp::Div => a / b,
    };
    r.to_bits()
}

fn float(n: &Number) -> f32 {
    f32::from_bits(n.compute(&apply))
}

fn number(value: &Value) -> f32 {
    match value {
        Value::Number(n) => float(n),
        other => panic!("not a number: {:?}", other),
    }
}

fn num(x: f32) -> Expression {
    Expression::Literal(Value::Number(Number::Bits(x.to_bits())))
}

fn boolean(b: bool) -> Expression {
    Expression::Literal(Value::Bool(b))
}

fn text(s: &str) -> Expression {
    Expression::Literal(Value::String(s.into()))
}

fn invalid() -> Expression {
    Expression::Literal(Value::Invalid)
}

fn ident(name: &str) -> Expression {
    Expression::Ident(name.into())
}

fn block(name: &str, body: Vec<Expression>) -> Expression {
    Expression::NamedBlock(NamedBlock { defs: vec![], name: name.into(), body })
}

fn block_with(defs: Vec<(&str, Expression)>, name: &str, body: Vec<Expression>) -> Expression {
    Expression::NamedBlock(NamedBlock {
        defs: defs.into_iter().map(|(k, v)| (k.to_string(), v)).collect(),
        name: name.into(),
        body,
    })
}

fn when(clauses: Vec<(Option<Expression>, Expression)>) -> Expression {
    Expression::WhenBlock(WhenBlock(
        clauses
            .into_iter()
            .map(|(condition, value)| WhenClause {
                condition: match condition {
                    Some(test) => Condition::Test(test),
                    None => Condition::Else,
                },
                value,
            })
            .collect(),
    ))
}

fn tags(patterns: Vec<TagPattern<String>>) -> Expression {
    Expression::TagPattern(patterns)
}

fn constants(defs: Vec<(&str, Expression)>) -> Profile {
    Profile {
        name: "test".into(),
        constant_defs: defs.into_iter().map(|(k, v)| (k.to_string(), v)).collect(),
        node_penalty: None,
        way_penalty: None,
        cost_factor: None,
    }
}

fn way_penalty(expr: Expression) -> Profile {
    Profile {
        name: "test".into(),
        constant_defs: vec![],
        node_penalty: None,
        way_penalty: Some(expr),
        cost_factor: None,
    }
}

fn load(profile: &Profile) -> Result<Runtime, CompileError> {
    Runtime::from_parsed(profile, &common_dict())
}

fn constant_values(defs: Vec<(&str, Expression)>) -> Vec<Value> {
    let runtime = load(&constants(defs)).expect("create runtime");
    runtime.constants().iter().cloned().collect()
}

fn score_of(profile: &Profile, way: &TagList) -> Result<EdgeScore, RuntimeError> {
    let runtime = load(profile).expect("create runtime");
    let node = TagList::new();
    runtime.score(&node, &node, way, &GlobalTable::new())
}

fn penalty_of(expr: Expression) -> Result<f32, RuntimeError> {
    score_of(&way_penalty(expr), &TagList::new()).map(|score| float(&score.penalty))
}

fn feature(dict: &TagDict, pairs: &[(&str, &str)]) -> TagList {
    let mut list = TagList::new();
    for (key, value) in pairs {
        list.insert(
            dict.to_compact(key).expect("known key"),
            dict.to_compact(value).expect("known value"),
        );
    }
    list
}

#[test]
fn runtime_evaluate_constants_for_runtime() {
    let input = constants(vec![
        ("a", num(1.0)),
        ("b", ident("a")),
        ("c", boolean(false)),
        ("d", block("any?", vec![ident("c"), boolean(false)])),
        ("e", block("any?", vec![ident("c"), boolean(false), ident("b")])),
        ("f", block("sum", vec![ident("a"), num(2.0)])),
        ("g", block("sum", vec![invalid(), ident("a"), num(2.0)])),
    ]);
    let tag_dict = common_dict();

    let runtime = Runtime::from_parsed(&input, &tag_dict).expect("create runtime");

    let values = runtime.constants();
    assert_eq!(values.len(), 7);
    assert_eq!(number(&values[0]), 1.0);
    assert_eq!(number(&values[1]), 1.0);
    assert_eq!(values[2], Value::Bool(false));
    assert_eq!(values[3], Value::Bool(false));
    assert_eq!(values[4], Value::Bool(true));
    assert_eq!(number(&values[5]), 3.0);
    assert_eq!(values[6], Value::Invalid);
}

#[test]
fn constants_are_exact_terms() {
    let values = constant_values(vec![
        ("a", num(1.0)),
        ("f", block("sum", vec![ident("a"), num(2.0), num(4.0)])),
        ("s", block("sum", vec![num(7.0)])),
    ]);
    let one = Number::Bits(1.0f32.to_bits());
    let two = Number::Bits(2.0f32.to_bits());
    let four = Number::Bits(4.0f32.to_bits());
    assert_eq!(values[0], Value::Number(Number::Bits(0x3F80_0000)));
    assert_eq!(
        values[1],
        Value::Number(Number::Apply(
            ArithOp::Sum,
            Box::new(Number::Apply(ArithOp::Sum, Box::new(one), Box::new(two))),
            Box::new(four),
        ))
    );
    assert_eq!(values[2], Value::Number(Number::Bits(7.0f32.to_bits())));
}

#[test]
fn evaluate_globals() {
    let values = constant_values(vec![
        ("a", num(1.0)),
        ("b", ident("a")),
        ("c", boolean(false)),
        ("d", block("any?", vec![ident("c"), boolean(false)])),
        ("e", block("any?", vec![ident("c"), boolean(false), ident("b")])),
        (
            "f",
            when(vec![
                (Some(ident("c")), text("c")),
                (Some(block("any?", vec![ident("d"), ident("e")])), text("d or e")),
            ]),
        ),
        ("g", block("sum", vec![ident("a"), num(2.0)])),
        ("h", block("sum", vec![invalid(), ident("a"), num(2.0)])),
    ]);
    assert_eq!(number(&values[1]), 1.0);
    assert_eq!(values[4], Value::Bool(true));
    assert_eq!(values[5], Value::String("d or e".into()));
    assert_eq!(number(&values[6]), 3.0);
    assert_eq!(values[7], Value::Invalid);
}

#[test]
fn arithmetic_folds_from_the_left() {
    let values = constant_values(vec![
        ("sum", block("sum", vec![num(1.5), num(2.0), num(4.0)])),
        ("sub", block("sub", vec![num(10.0), num(2.0), num(3.0)])),
        ("mul", block("mul", vec![num(2.0), num(3.0), num(4.0)])),
        ("div", block("div", vec![num(24.0), num(2.0), num(3.0)])),
        ("nested", block("sum", vec![block("mul", vec![num(2.0), num(3.0)]), num(1.0)])),
    ]);
    assert_eq!(number(&values[0]), 7.5);
    assert_eq!(number(&values[1]), 5.0);
    assert_eq!(number(&values[2]), 24.0);
    assert_eq!(number(&values[3]), 4.0);
    assert_eq!(number(&values[4]), 7.0);
}

#[test]
fn invalid_operand_makes_the_block_invalid() {
    for name in ["sum", "sub", "mul", "div"] {
        let values = constant_values(vec![
            ("first", block(name, vec![invalid(), num(1.0), num(2.0)])),
            ("middle", block(name, vec![num(1.0), invalid(), num(2.0)])),
            ("last", block(name, vec![num(1.0), num(2.0), invalid()])),
            ("only", block(name, vec![invalid()])),
            ("before_a_bool", block(name, vec![num(1.0), invalid(), boolean(true)])),
        ]);
        for value in &values {
            assert_eq!(*value, Value::Invalid);
        }
    }
}

#[test]
fn operand_of_the_wrong_type_before_invalid_is_a_type_error() {
    let result = load(&constants(vec![("a", block("sum", vec![boolean(true), invalid()]))]));
    match result {
        Err(CompileError::ConstEval(RuntimeError::TypeError { have, expected })) => {
            assert_eq!(have, "Bool(true)");
            assert_eq!(expected, "invalid|number");
        }
        _ => panic!("expected a type error"),
    }
}

#[test]
fn type_error_names_a_text_in_quotes() {
    let result = load(&constants(vec![("a", block("mul", vec![num(1.0), text("a\"b")]))]));
    match result {
        Err(CompileError::ConstEval(RuntimeError::TypeError { have, expected })) => {
            assert_eq!(have, "String(\"a\\\"b\")");
            assert_eq!(expected, "invalid|number");
        }
        _ => panic!("expected a type error"),
    }
}

#[test]
fn truthiness() {
    assert!(!Value::Invalid.is_truthy());
    assert!(!Value::Bool(false).is_truthy());
    assert!(Value::Bool(true).is_truthy());
    assert!(Value::Number(Number::Bits(0.0f32.to_bits())).is_truthy());
    assert!(Value::String(String::new()).is_truthy());
}

#[test]
fn boolean_blocks() {
    let values = constant_values(vec![
        ("any_hit", block("any?", vec![boolean(false), num(0.0), boolean(false)])),
        ("any_miss", block("any?", vec![boolean(false), invalid()])),
        ("all_hit", block("all?", vec![boolean(true), num(0.0), text("")])),
        ("all_miss", block("all?", vec![boolean(true), invalid(), boolean(true)])),
        ("none_hit", block("none?", vec![boolean(false), invalid()])),
        ("none_miss", block("none?", vec![boolean(false), boolean(true)])),
    ]);
    assert_eq!(
        values,
        vec![
            Value::Bool(true),
            Value::Bool(false),
            Value::Bool(true),
            Value::Bool(false),
            Value::Bool(true),
            Value::Bool(false),
        ]
    );
}

#[test]
fn boolean_blocks_stop_at_the_deciding_argument() {
    let fails = || block("sum", vec![boolean(true)]);
    let values = constant_values(vec![
        ("any", block("any?", vec![boolean(true), fails()])),
        ("all", block("all?", vec![boolean(false), fails()])),
        ("none", block("none?", vec![boolean(true), fails()])),
    ]);
    assert_eq!(values, vec![Value::Bool(true), Value::Bool(false), Value::Bool(false)]);
}

#[test]
fn when_takes_the_first_truthy_clause() {
    let values = constant_values(vec![
        (
            "first",
            when(vec![(Some(boolean(true)), num(1.0)), (Some(boolean(true)), num(2.0))]),
        ),
        (
            "second",
            when(vec![(Some(boolean(false)), num(1.0)), (Some(num(0.0)), num(2.0))]),
        ),
        ("otherwise", when(vec![(Some(invalid()), num(1.0)), (None, num(3.0))])),
    ]);
    assert_eq!(number(&values[0]), 1.0);
    assert_eq!(number(&values[1]), 2.0);
    assert_eq!(number(&values[2]), 3.0);
}

#[test]
fn when_without_a_truthy_clause_falls_through() {
    let result = load(&constants(vec![(
        "a",
        when(vec![(Some(boolean(false)), num(1.0)), (Some(invalid()), num(2.0))]),
    )]));
    assert_eq!(result.err(), Some(CompileError::ConstEval(RuntimeError::WhenFallthrough)));

    let scored = penalty_of(when(vec![(Some(boolean(false)), num(1.0))]));
    assert_eq!(scored, Err(RuntimeError::WhenFallthrough));

    let empty = penalty_of(when(vec![]));
    assert_eq!(empty, Err(RuntimeError::WhenFallthrough));
}

#[test]
fn return_ends_the_evaluation() {
    let scored = penalty_of(block(
        "sum",
        vec![num(1.0), block("return!", vec![num(5.0)]), boolean(true)],
    ));
    assert_eq!(scored, Ok(5.0));

    let nested = penalty_of(block(
        "all?",
        vec![
            boolean(true),
            when(vec![(None, block("any?", vec![block("return!", vec![num(9.0)])]))]),
            block("sum", vec![boolean(true)]),
        ],
    ));
    assert_eq!(nested, Ok(9.0));
}

#[test]
fn return_in_a_constant_gives_the_constant_its_value() {
    let values = constant_values(vec![(
        "a",
        block("sum", vec![num(1.0), block("return!", vec![boolean(true)]), num(2.0)]),
    )]);
    assert_eq!(values[0], Value::Bool(true));
}

#[test]
fn return_is_not_reached_after_a_deciding_argument() {
    let scored = penalty_of(when(vec![
        (
            Some(block("any?", vec![boolean(true), block("return!", vec![num(5.0)])])),
            num(1.0),
        ),
        (None, num(2.0)),
    ]));
    assert_eq!(scored, Ok(1.0));
}

#[test]
fn unknown_identifier_fails_compilation() {
    let in_constant = load(&constants(vec![("a", ident("nowhere"))]));
    assert_eq!(in_constant.err(), Some(CompileError::UnknownIdent("nowhere".into())));

    let in_penalty = load(&way_penalty(block("sum", vec![num(1.0), ident("nowhere")])));
    assert_eq!(in_penalty.err(), Some(CompileError::UnknownIdent("nowhere".into())));
}

#[test]
fn unknown_identifier_fails_the_load_wherever_it_stands() {
    let in_clause =
        when(vec![(Some(boolean(false)), num(1.0)), (Some(ident("nowhere")), num(2.0))]);
    let in_value = when(vec![(Some(boolean(true)), block("sum", vec![ident("nowhere")]))]);
    let in_definition = block_with(
        vec![("x", num(1.0)), ("y", block("sum", vec![ident("x"), ident("nowhere")]))],
        "sum",
        vec![ident("x")],
    );
    for expr in [in_clause, in_value, in_definition] {
        let profile = Profile {
            name: "test".into(),
            constant_defs: vec![("a".into(), num(1.0))],
            node_penalty: None,
            way_penalty: Some(num(1.0)),
            cost_factor: Some(expr),
        };
        assert_eq!(load(&profile).err(), Some(CompileError::UnknownIdent("nowhere".into())));
    }
    let node = Profile {
        name: "test".into(),
        constant_defs: vec![],
        node_penalty: Some(ident("nowhere")),
        way_penalty: None,
        cost_factor: Some(block("eq?", vec![])),
    };
    assert_eq!(load(&node).err(), Some(CompileError::UnknownIdent("nowhere".into())));
    let constant = Profile {
        name: "test".into(),
        constant_defs: vec![
            ("a".into(), num(1.0)),
            ("b".into(), block("sum", vec![ident("a"), ident("nowhere")])),
        ],
        node_penalty: None,
        way_penalty: Some(block("eq?", vec![])),
        cost_factor: None,
    };
    assert_eq!(load(&constant).err(), Some(CompileError::UnknownIdent("nowhere".into())));
}

#[test]
fn earlier_failure_comes_first() {
    let profile = Profile {
        name: "test".into(),
        constant_defs: vec![],
        node_penalty: Some(ident("nowhere")),
        way_penalty: Some(block("eq?", vec![num(1.0)])),
        cost_factor: None,
    };
    assert_eq!(load(&profile).err(), Some(CompileError::UnknownBlockTy("eq?".into())));
    let in_block = way_penalty(block("sum", vec![block("sum", vec![]), ident("nowhere")]));
    assert_eq!(load(&in_block).err(), Some(CompileError::InvalidArity("sum".into())));
}

#[test]
fn tags_are_compacted_by_the_dictionary() {
    let dict = common_dict();
    let defs = vec![];
    let globals: [&str; 0] = [];
    let builder = Builder::new(&defs, &globals, &dict).expect("builder");
    assert_eq!(builder.compact_tag("highway"), 1);
    assert_eq!(builder.compact_tag("private"), 9);
    assert_eq!(builder.compact_tag("nowhere"), 0);
    assert_eq!(builder.compact_tag(""), 0);
    assert_eq!(builder.compact_tag("highway"), dict.to_compact("highway").expect("held"));
    assert_eq!(dict.len(), 9);
}

#[test]
fn unknown_block_fails_compilation() {
    let result = load(&way_penalty(block("eq?", vec![num(1.0)])));
    assert_eq!(result.err(), Some(CompileError::UnknownBlockTy("eq?".into())));
}

#[test]
fn definitions_are_lowered_before_the_name_of_the_block_is_checked() {
    let result =
        load(&way_penalty(block_with(vec![("x", ident("nowhere"))], "eq?", vec![num(1.0)])));
    assert_eq!(result.err(), Some(CompileError::UnknownIdent("nowhere".into())));
}

#[test]
fn wrong_number_of_arguments_fails_compilation() {
    for name in ["all?", "any?", "div", "mul", "none?", "return!", "sub", "sum"] {
        let result = load(&way_penalty(block(name, vec![])));
        assert_eq!(result.err(), Some(CompileError::InvalidArity(name.into())));
    }
    let two = load(&way_penalty(block("return!", vec![num(1.0), num(2.0)])));
    assert_eq!(two.err(), Some(CompileError::InvalidArity("return!".into())));
    assert_eq!(penalty_of(block("return!", vec![num(1.0)])), Ok(1.0));
}

#[test]
fn too_many_constants_fail_compilation() {
    let defs = |n: usize| Profile {
        name: "test".into(),
        constant_defs: (0..n).map(|i| (format!("c{}", i), num(i as f32))).collect(),
        node_penalty: None,
        way_penalty: Some(ident("c253")),
        cost_factor: None,
    };
    let runtime = load(&defs(254)).expect("create runtime");
    assert_eq!(runtime.constants().len(), 254);
    let node = TagList::new();
    let score = runtime.score(&node, &node, &node, &GlobalTable::new()).expect("score");
    assert_eq!(float(&score.penalty), 253.0);

    assert_eq!(load(&defs(255)).err(), Some(CompileError::TooManyConstants));
}

#[test]
fn too_many_variables_fail_compilation() {
    let uses = |n: usize| {
        way_penalty(block(
            "any?",
            (0..n)
                .map(|_| block_with(vec![("x", boolean(false))], "any?", vec![ident("x")]))
                .collect(),
        ))
    };
    let scored = score_of(&uses(65535), &TagList::new());
    assert_eq!(
        scored,
        Err(RuntimeError::TypeError {
            have: "Bool(false)".into(),
            expected: "number|invalid".into()
        })
    );
    assert_eq!(load(&uses(65536)).err(), Some(CompileError::TooManyVariables));
}

#[test]
fn constants_see_the_constants_before_them() {
    let values = constant_values(vec![
        ("a", num(1.0)),
        ("b", block("sum", vec![ident("a"), ident("a")])),
        ("c", block("mul", vec![ident("b"), ident("b")])),
    ]);
    assert_eq!(number(&values[2]), 4.0);
}

#[test]
fn constant_does_not_see_itself_or_later_constants() {
    let later = load(&constants(vec![("a", ident("b")), ("b", num(1.0))]));
    assert_eq!(later.err(), Some(CompileError::UnknownIdent("b".into())));

    let itself = load(&constants(vec![("a", ident("a"))]));
    assert_eq!(itself.err(), Some(CompileError::UnknownIdent("a".into())));
}

#[test]
fn constant_sees_the_last_definition_before_it() {
    let profile = Profile {
        name: "test".into(),
        constant_defs: vec![
            ("a".into(), num(1.0)),
            ("b".into(), ident("a")),
            ("a".into(), num(2.0)),
            ("c".into(), ident("a")),
        ],
        node_penalty: None,
        way_penalty: Some(block("sum", vec![ident("a"), ident("b"), ident("c")])),
        cost_factor: None,
    };
    let runtime = load(&profile).expect("create runtime");
    let values = runtime.constants();
    assert_eq!(number(&values[1]), 1.0);
    assert_eq!(number(&values[3]), 2.0);
    let node = TagList::new();
    let score = runtime.score(&node, &node, &node, &GlobalTable::new()).expect("score");
    assert_eq!(float(&score.penalty), 5.0);
}

#[test]
fn later_definition_of_a_constant_wins() {
    let profile = Profile {
        name: "test".into(),
        constant_defs: vec![("a".into(), num(1.0)), ("a".into(), num(2.0))],
        node_penalty: None,
        way_penalty: Some(ident("a")),
        cost_factor: None,
    };
    let score = score_of(&profile, &TagList::new()).expect("score");
    assert_eq!(float(&score.penalty), 2.0);
}

#[test]
fn constants_do_not_see_globals() {
    let result = load(&constants(vec![("a", ident("way.length"))]));
    assert_eq!(
        result.err(),
        Some(CompileError::ConstEval(RuntimeError::Internal(
            "bad global reference: \"way.length\"".into()
        )))
    );
}

#[test]
fn constants_do_not_see_tags() {
    let result =
        load(&constants(vec![("a", tags(vec![TagPattern::Exists("highway".to_string())]))]));
    assert_eq!(
        result.err(),
        Some(CompileError::ConstEval(RuntimeError::Internal("no tags supported here".into())))
    );
}

#[test]
fn local_definitions() {
    let expr = block_with(
        vec![("x", num(2.0)), ("y", block("mul", vec![ident("x"), num(3.0)]))],
        "sum",
        vec![ident("x"), ident("y"), ident("y")],
    );
    assert_eq!(penalty_of(expr), Ok(14.0));
}

#[test]
fn inner_definition_shadows_outer_and_vanishes() {
    let expr = block_with(
        vec![("x", num(1.0))],
        "sum",
        vec![
            block_with(vec![("x", num(10.0))], "sum", vec![ident("x")]),
            ident("x"),
        ],
    );
    assert_eq!(penalty_of(expr), Ok(11.0));

    let gone = load(&way_penalty(block(
        "sum",
        vec![block_with(vec![("x", num(10.0))], "sum", vec![ident("x")]), ident("x")],
    )));
    assert_eq!(gone.err(), Some(CompileError::UnknownIdent("x".into())));
}

#[test]
fn inner_definition_shadows_a_name_in_use() {
    let expr = block_with(
        vec![("x", num(1.0))],
        "sum",
        vec![
            ident("x"),
            block_with(vec![("x", num(10.0))], "sum", vec![ident("x")]),
            ident("x"),
        ],
    );
    assert_eq!(penalty_of(expr), Ok(12.0));
}

#[test]
fn shadowing_definition_has_a_slot_of_its_own() {
    let dict = common_dict();
    let defs = vec![];
    let globals: [&str; 0] = [];
    let mut builder = Builder::new(&defs, &globals, &dict).expect("builder");
    let expr = block_with(
        vec![("x", num(1.0))],
        "sum",
        vec![ident("x"), block_with(vec![("x", num(2.0))], "sum", vec![ident("x")])],
    );
    let unit = builder.build(&expr).expect("build");
    let literal = |x: f32| {
        Box::new(panamint::ir::Expr::Literal(Value::Number(Number::Bits(x.to_bits()))))
    };
    assert_eq!(
        unit,
        RunnableExpr {
            expr: panamint::ir::Expr::Block(
                panamint::ir::BlockTy::Sum,
                vec![
                    panamint::ir::Expr::LookupOrCompute(0, literal(1.0)),
                    panamint::ir::Expr::Block(
                        panamint::ir::BlockTy::Sum,
                        vec![panamint::ir::Expr::LookupOrCompute(1, literal(2.0))],
                    ),
                ],
            ),
            slots: 2,
        }
    );
    let node = TagList::new();
    let runtime = load(&way_penalty(expr)).expect("create runtime");
    let score = runtime.score(&node, &node, &node, &GlobalTable::new()).expect("score");
    assert_eq!(float(&score.penalty), 3.0);
}

#[test]
fn variable_keeps_its_slot_across_inner_blocks() {
    let dict = common_dict();
    let defs = vec![];
    let globals: [&str; 0] = [];
    let mut builder = Builder::new(&defs, &globals, &dict).expect("builder");
    let expr = block_with(
        vec![("x", num(1.0))],
        "sum",
        vec![block("sum", vec![ident("x")]), block("sum", vec![ident("x")]), ident("x")],
    );
    let unit = builder.build(&expr).expect("build");
    let x = || {
        panamint::ir::Expr::LookupOrCompute(
            0,
            Box::new(panamint::ir::Expr::Literal(Value::Number(Number::Bits(1.0f32.to_bits())))),
        )
    };
    assert_eq!(
        unit,
        RunnableExpr {
            expr: panamint::ir::Expr::Block(
                panamint::ir::BlockTy::Sum,
                vec![
                    panamint::ir::Expr::Block(panamint::ir::BlockTy::Sum, vec![x()]),
                    panamint::ir::Expr::Block(panamint::ir::BlockTy::Sum, vec![x()]),
                    x(),
                ],
            ),
            slots: 1,
        }
    );
}

#[test]
fn later_definition_of_a_name_is_a_new_variable() {
    let expr = block_with(
        vec![("x", num(1.0)), ("y", ident("x")), ("x", num(10.0))],
        "sum",
        vec![ident("x"), ident("y")],
    );
    assert_eq!(penalty_of(expr), Ok(11.0));

    let other_order = block_with(
        vec![("x", num(1.0)), ("y", ident("x")), ("x", num(10.0))],
        "sum",
        vec![ident("y"), ident("x")],
    );
    assert_eq!(penalty_of(other_order), Ok(11.0));
}

#[test]
fn definition_made_inside_an_inner_definition_is_a_variable_of_its_own() {
    let expr = block_with(
        vec![("x", num(1.0))],
        "sum",
        vec![
            block_with(
                vec![("y", ident("x")), ("x", num(10.0))],
                "sum",
                vec![ident("y"), ident("x")],
            ),
            ident("x"),
        ],
    );
    assert_eq!(penalty_of(expr), Ok(12.0));
}

#[test]
fn definition_does_not_see_itself_or_later_ones() {
    let itself = load(&way_penalty(block_with(vec![("x", ident("x"))], "sum", vec![ident("x")])));
    assert_eq!(itself.err(), Some(CompileError::UnknownIdent("x".into())));

    let later = load(&way_penalty(block_with(
        vec![("x", ident("y")), ("y", num(1.0))],
        "sum",
        vec![ident("x")],
    )));
    assert_eq!(later.err(), Some(CompileError::UnknownIdent("y".into())));
}

#[test]
fn definition_shadows_constant_and_global() {
    let profile = Profile {
        name: "test".into(),
        constant_defs: vec![("way.length".into(), num(1.0))],
        node_penalty: None,
        way_penalty: Some(block_with(
            vec![("way.length", num(2.0))],
            "sum",
            vec![ident("way.length")],
        )),
        cost_factor: Some(ident("way.length")),
    };
    let runtime = load(&profile).expect("create runtime");
    let mut globals = GlobalTable::new();
    globals.insert("way.length".into(), 3.0f32.to_bits());
    let node = TagList::new();
    let score = runtime.score(&node, &node, &node, &globals).expect("score");
    assert_eq!(float(&score.penalty), 2.0);
    assert_eq!(float(&score.cost_factor), 2.0);
}

#[test]
fn variables_are_given_slots_in_the_order_of_use() {
    let dict = common_dict();
    let defs = vec![];
    let globals: [&str; 0] = [];
    let mut builder = Builder::new(&defs, &globals, &dict).expect("builder");
    let expr = block_with(
        vec![("x", num(1.0)), ("y", num(2.0))],
        "sum",
        vec![ident("y"), ident("x"), ident("y")],
    );
    let unit = builder.build(&expr).expect("build");
    let literal = |x: f32| {
        Box::new(panamint::ir::Expr::Literal(Value::Number(Number::Bits(x.to_bits()))))
    };
    assert_eq!(
        unit,
        RunnableExpr {
            expr: panamint::ir::Expr::Block(
                panamint::ir::BlockTy::Sum,
                vec![
                    panamint::ir::Expr::LookupOrCompute(0, literal(2.0)),
                    panamint::ir::Expr::LookupOrCompute(1, literal(1.0)),
                    panamint::ir::Expr::LookupOrCompute(0, literal(2.0)),
                ],
            ),
            slots: 2,
        }
    );

    let next = builder.build(&block_with(vec![("z", num(1.0))], "sum", vec![ident("z")]));
    assert_eq!(next.expect("build").slots, 1);
}

#[test]
fn else_lowers_to_true() {
    let dict = common_dict();
    let defs = vec![];
    let globals: [&str; 0] = [];
    let mut builder = Builder::new(&defs, &globals, &dict).expect("builder");
    let unit = builder.build(&when(vec![(None, num(1.0))])).expect("build");
    assert_eq!(
        unit.expr,
        panamint::ir::Expr::When(vec![panamint::ir::WhenBlockClause(
            panamint::ir::Expr::Literal(Value::Bool(true)),
            panamint::ir::Expr::Literal(Value::Number(Number::Bits(1.0f32.to_bits()))),
        )])
    );
}

#[test]
fn tag_patterns_are_compacted() {
    let dict = common_dict();
    let defs = vec![];
    let globals: [&str; 0] = [];
    let mut builder = Builder::new(&defs, &globals, &dict).expect("builder");
    let unit = builder
        .build(&tags(vec![
            TagPattern::Exists("highway".to_string()),
            TagPattern::NotExists("nowhere".to_string()),
            TagPattern::OneOf(
                "surface".to_string(),
                vec!["asphalt".to_string(), "gravel".to_string(), "unpaved".to_string()],
            ),
            TagPattern::NoneOf("access".to_string(), vec!["private".to_string()]),
        ]))
        .expect("build");
    assert_eq!(
        unit.expr,
        panamint::ir::Expr::TagPattern(vec![
            TagPattern::Exists(1),
            TagPattern::NotExists(0),
            TagPattern::OneOf(2, vec![3, 0, 4]),
            TagPattern::NoneOf(8, vec![9]),
        ])
    );
}

#[test]
fn tag_patterns_test_the_feature() {
    let dict = common_dict();
    let paved = feature(&dict, &[("highway", "yes"), ("surface", "asphalt")]);
    let closed = feature(&dict, &[("highway", "yes"), ("access", "private")]);
    let pattern = |patterns| {
        way_penalty(when(vec![(Some(tags(patterns)), num(1.0)), (None, num(0.0))]))
    };
    let exists = pattern(vec![TagPattern::Exists("surface".to_string())]);
    assert_eq!(score_of(&exists, &paved).map(|s| float(&s.penalty)), Ok(1.0));
    assert_eq!(score_of(&exists, &closed).map(|s| float(&s.penalty)), Ok(0.0));

    let not_exists = pattern(vec![TagPattern::NotExists("surface".to_string())]);
    assert_eq!(score_of(&not_exists, &paved).map(|s| float(&s.penalty)), Ok(0.0));
    assert_eq!(score_of(&not_exists, &closed).map(|s| float(&s.penalty)), Ok(1.0));

    let one_of = pattern(vec![TagPattern::OneOf(
        "surface".to_string(),
        vec!["unpaved".to_string(), "asphalt".to_string()],
    )]);
    assert_eq!(score_of(&one_of, &paved).map(|s| float(&s.penalty)), Ok(1.0));
    assert_eq!(score_of(&one_of, &closed).map(|s| float(&s.penalty)), Ok(0.0));

    let none_of = pattern(vec![TagPattern::NoneOf(
        "surface".to_string(),
        vec!["unpaved".to_string()],
    )]);
    assert_eq!(score_of(&none_of, &paved).map(|s| float(&s.penalty)), Ok(1.0));
    assert_eq!(score_of(&none_of, &closed).map(|s| float(&s.penalty)), Ok(0.0));

    let both = pattern(vec![
        TagPattern::Exists("highway".to_string()),
        TagPattern::NoneOf("access".to_string(), vec!["private".to_string()]),
    ]);
    assert_eq!(score_of(&both, &paved).map(|s| float(&s.penalty)), Ok(0.0));
    assert_eq!(score_of(&both, &closed).map(|s| float(&s.penalty)), Ok(0.0));

    let none = pattern(vec![]);
    assert_eq!(score_of(&none, &paved).map(|s| float(&s.penalty)), Ok(1.0));
}

#[test]
fn undeclared_tag_key_is_absent() {
    let dict = common_dict();
    let way = feature(&dict, &[("highway", "yes"), ("surface", "asphalt")]);
    let pattern = |pattern| {
        way_penalty(when(vec![(Some(tags(vec![pattern])), num(1.0)), (None, num(0.0))]))
    };
    let holds = |profile: &Profile| score_of(profile, &way).map(|s| float(&s.penalty));
    assert_eq!(holds(&pattern(TagPattern::Exists("route".to_string()))), Ok(0.0));
    assert_eq!(holds(&pattern(TagPattern::NotExists("route".to_string()))), Ok(1.0));
    assert_eq!(
        holds(&pattern(TagPattern::OneOf("route".to_string(), vec!["yes".to_string()]))),
        Ok(0.0)
    );
    assert_eq!(
        holds(&pattern(TagPattern::NoneOf("route".to_string(), vec!["yes".to_string()]))),
        Ok(0.0)
    );
}

#[test]
fn score_without_expressions_is_the_default() {
    let runtime = load(&constants(vec![("a", num(4.0))])).expect("create runtime");
    let node = TagList::new();
    let score = runtime.score(&node, &node, &node, &GlobalTable::new()).expect("score");
    assert_eq!(
        score,
        EdgeScore {
            penalty: Number::Bits(0.0f32.to_bits()),
            cost_factor: Number::Bits(1.0f32.to_bits()),
        }
    );
}

#[test]
fn score_adds_up_nodes_and_way() {
    let dict = common_dict();
    let profile = Profile {
        name: "test".into(),
        constant_defs: vec![],
        node_penalty: Some(when(vec![
            (Some(tags(vec![TagPattern::Exists("access".to_string())])), num(2.0)),
            (None, num(0.25)),
        ])),
        way_penalty: Some(num(3.0)),
        cost_factor: Some(when(vec![
            (
                Some(tags(vec![TagPattern::OneOf(
                    "surface".to_string(),
                    vec!["unpaved".to_string()],
                )])),
                num(0.5),
            ),
            (None, num(0.0)),
        ])),
    };
    let runtime = Runtime::from_parsed(&profile, &dict).expect("create runtime");
    let source = feature(&dict, &[("access", "private")]);
    let target = TagList::new();
    let way = feature(&dict, &[("surface", "unpaved")]);
    let score = runtime.score(&source, &target, &way, &GlobalTable::new()).expect("score");
    assert_eq!(float(&score.penalty), 5.25);
    assert_eq!(float(&score.cost_factor), 1.5);

    let zero = Number::Bits(0.0f32.to_bits());
    let sum = |a: Number, b: f32| {
        Number::Apply(ArithOp::Sum, Box::new(a), Box::new(Number::Bits(b.to_bits())))
    };
    assert_eq!(score.penalty, sum(sum(sum(zero, 2.0), 0.25), 3.0));
    assert_eq!(score.cost_factor, sum(Number::Bits(1.0f32.to_bits()), 0.5));
}

#[test]
fn invalid_scores_as_impassable() {
    assert_eq!(penalty_of(invalid()), Ok(500_000.0));
    let profile = Profile {
        name: "test".into(),
        constant_defs: vec![],
        node_penalty: Some(invalid()),
        way_penalty: None,
        cost_factor: Some(invalid()),
    };
    let score = score_of(&profile, &TagList::new()).expect("score");
    assert_eq!(float(&score.penalty), 1_000_000.0);
    assert_eq!(float(&score.cost_factor), 500_001.0);
}

#[test]
fn score_that_is_no_number_is_a_type_error() {
    assert_eq!(
        penalty_of(boolean(true)),
        Err(RuntimeError::TypeError {
            have: "Bool(true)".into(),
            expected: "number|invalid".into()
        })
    );
    assert_eq!(
        penalty_of(text("slow")),
        Err(RuntimeError::TypeError {
            have: "String(\"slow\")".into(),
            expected: "number|invalid".into()
        })
    );
    assert_eq!(
        penalty_of(block("return!", vec![boolean(false)])),
        Err(RuntimeError::TypeError {
            have: "Bool(false)".into(),
            expected: "number|invalid".into()
        })
    );
}

#[test]
fn first_failure_ends_the_score() {
    let profile = Profile {
        name: "test".into(),
        constant_defs: vec![],
        node_penalty: Some(when(vec![])),
        way_penalty: Some(boolean(true)),
        cost_factor: Some(boolean(true)),
    };
    assert_eq!(score_of(&profile, &TagList::new()), Err(RuntimeError::WhenFallthrough));
}

#[test]
fn globals_are_read_by_name() {
    let profile = way_penalty(block("mul", vec![ident("way.length"), num(2.0)]));
    let runtime = load(&profile).expect("create runtime");
    let node = TagList::new();
    let mut globals = GlobalTable::new();
    globals.insert("way.length".into(), 21.0f32.to_bits());
    let score = runtime.score(&node, &node, &node, &globals).expect("score");
    assert_eq!(float(&score.penalty), 42.0);

    let missing = runtime.score(&node, &node, &node, &GlobalTable::new());
    assert_eq!(
        missing,
        Err(RuntimeError::Internal("bad global reference: \"way.length\"".into()))
    );
}

#[test]
fn globals_must_be_on_the_list() {
    let dict = common_dict();
    let profile = way_penalty(ident("way.width"));
    let refused = Runtime::from_parsed(&profile, &dict);
    assert_eq!(refused.err(), Some(CompileError::UnknownIdent("way.width".into())));

    let runtime = Runtime::with_globals(&profile, &["way.width"], &dict).expect("create runtime");
    let node = TagList::new();
    let mut globals = GlobalTable::new();
    globals.insert("way.width".into(), 3.5f32.to_bits());
    let score = runtime.score(&node, &node, &node, &globals).expect("score");
    assert_eq!(float(&score.penalty), 3.5);
}

#[test]
fn each_scoring_call_starts_with_empty_slots() {
    let dict = common_dict();
    let profile = Profile {
        name: "test".into(),
        constant_defs: vec![],
        node_penalty: Some(block_with(
            vec![(
                "x",
                when(vec![
                    (Some(tags(vec![TagPattern::Exists("access".to_string())])), num(1.0)),
                    (None, num(2.0)),
                ]),
            )],
            "sum",
            vec![ident("x"), ident("x")],
        )),
        way_penalty: None,
        cost_factor: None,
    };
    let runtime = Runtime::from_parsed(&profile, &dict).expect("create runtime");
    let source = feature(&dict, &[("access", "private")]);
    let target = TagList::new();
    let way = TagList::new();
    let score = runtime.score(&source, &target, &way, &GlobalTable::new()).expect("score");
    assert_eq!(float(&score.penalty), 6.0);
    let again = runtime.score(&target, &source, &way, &GlobalTable::new()).expect("score");
    assert_eq!(float(&again.penalty), 6.0);
}
