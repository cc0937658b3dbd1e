use panamint::error::RuntimeError;
use panamint::eval::EvalContext;
use panamint::ir::{Arity, BlockTy, Expr, WhenBlockClause};
use panamint::syntax::TagPattern;
use panamint::tags::{GlobalTable, NoGlobals, TagList};
use panamint::text::{push_decimal, same_text};
use panamint::value::{ArithOp, Number, Value, IMPASSABLE, ONE, ZERO};

fn bits(x: f32) -> Number {
    Number::Bits(x.to_bits())
}

fn literal(x: f32) -> Expr {
    Expr::Literal(Value::Number(bits(x)))
}

#[test]
fn named_numbers() {
    assert_eq!(f32::from_bits(ZERO), 0.0);
    assert_eq!(f32::from_bits(ONE), 1.0);
    assert_eq!(f32::from_bits(IMPASSABLE), 500_000.0);
}

#[test]
fn compute_calls_the_operation_bottom_up() {
    let term = Number::Apply(
        ArithOp::Sub,
        Box::new(Number::Apply(ArithOp::Mul, Box::new(Number::Bits(6)), Box::new(Number::Bits(7)))),
        Box::new(Number::Bits(2)),
    );
    let integer = |op: ArithOp, a: u32, b: u32| match op {
        ArithOp::Sum => a + b,
        ArithOp::Sub => a - b,
        ArithOp::Mul => a * b,
        ArithOp::Div => a / b,
    };
    assert_eq!(term.compute(&integer), 40);
    assert_eq!(Number::Bits(9).compute(&integer), 9);
    assert_eq!(term.clone(), term);
}

#[test]
fn values_describe_themselves() {
    assert_eq!(Value::Invalid.describe(), "Invalid");
    assert_eq!(Value::Bool(true).describe(), "Bool(true)");
    assert_eq!(Value::Bool(false).describe(), "Bool(false)");
    assert_eq!(Value::String("a b".to_string()).describe(), "String(\"a b\")");
    assert_eq!(Value::String("tab\there".to_string()).describe(), "String(\"tab\\there\")");
}

#[test]
fn texts_are_compared_by_their_characters() {
    assert!(same_text("way", "way"));
    assert!(same_text("", ""));
    assert!(same_text("été", "été"));
    assert!(!same_text("way", "ways"));
    assert!(!same_text("ways", "way"));
    assert!(!same_text("way", "Way"));
    assert!(!same_text("", "a"));
    assert!(!same_text("ét", "et"));
}

#[test]
fn texts() {
    assert_eq!(Value::String("plain".to_string()).describe(), "String(\"plain\")");
    assert_eq!(
        Value::String("a\"b\\c".to_string()).describe(),
        "String(\"a\\\"b\\\\c\")"
    );

    let mut out = String::from("n=");
    push_decimal(&mut out, 0);
    out.push(',');
    push_decimal(&mut out, 7);
    out.push(',');
    push_decimal(&mut out, 10);
    out.push(',');
    push_decimal(&mut out, 65535);
    out.push(',');
    push_decimal(&mut out, u64::MAX);
    assert_eq!(out, "n=0,7,10,65535,18446744073709551615");
}

#[test]
fn block_names_and_arities() {
    assert_eq!(BlockTy::from_name("all?"), Some(BlockTy::All));
    assert_eq!(BlockTy::from_name("any?"), Some(BlockTy::Any));
    assert_eq!(BlockTy::from_name("div"), Some(BlockTy::Div));
    assert_eq!(BlockTy::from_name("mul"), Some(BlockTy::Mul));
    assert_eq!(BlockTy::from_name("none?"), Some(BlockTy::NotAny));
    assert_eq!(BlockTy::from_name("return!"), Some(BlockTy::Return));
    assert_eq!(BlockTy::from_name("sub"), Some(BlockTy::Sub));
    assert_eq!(BlockTy::from_name("sum"), Some(BlockTy::Sum));
    assert_eq!(BlockTy::from_name("any"), None);
    assert_eq!(BlockTy::from_name("SUM"), None);
    assert_eq!(BlockTy::from_name(""), None);

    for ty in [
        BlockTy::All,
        BlockTy::Any,
        BlockTy::Div,
        BlockTy::Mul,
        BlockTy::NotAny,
        BlockTy::Sub,
        BlockTy::Sum,
    ] {
        assert_eq!(ty.arity(), Arity::Variadic);
    }
    assert_eq!(BlockTy::Return.arity(), Arity::Unary);

    assert!(!Arity::Unary.accepts(0));
    assert!(Arity::Unary.accepts(1));
    assert!(!Arity::Unary.accepts(2));
    assert!(!Arity::Variadic.accepts(0));
    assert!(Arity::Variadic.accepts(1));
    assert!(Arity::Variadic.accepts(1000));

    assert_eq!(BlockTy::Sum.operator(), Some(ArithOp::Sum));
    assert_eq!(BlockTy::Sub.operator(), Some(ArithOp::Sub));
    assert_eq!(BlockTy::Mul.operator(), Some(ArithOp::Mul));
    assert_eq!(BlockTy::Div.operator(), Some(ArithOp::Div));
    assert_eq!(BlockTy::Any.operator(), None);
    assert_eq!(BlockTy::Return.operator(), None);
}

#[test]
fn internal_errors_of_the_interpreter() {
    let constants = vec![Value::Bool(true)];
    let tags = TagList::new();
    let globals = GlobalTable::new();
    let mut context = EvalContext::create(&constants, 2, &tags, &globals);

    assert_eq!(context.evaluate(&Expr::LookupConstant(0)), Ok(Value::Bool(true)));
    assert_eq!(
        context.evaluate(&Expr::LookupConstant(1)),
        Err(RuntimeError::Internal("bad constant reference: 1".to_string()))
    );
    assert_eq!(
        context.evaluate(&Expr::LookupConstant(255)),
        Err(RuntimeError::Internal("bad constant reference: 255".to_string()))
    );
    assert_eq!(
        context.evaluate(&Expr::LookupGlobal("way.length".to_string())),
        Err(RuntimeError::Internal("bad global reference: \"way.length\"".to_string()))
    );
    assert_eq!(
        context.evaluate(&Expr::LookupOrCompute(2, Box::new(literal(1.0)))),
        Err(RuntimeError::Internal("bad variable reference: 2".to_string()))
    );
    assert_eq!(
        context.evaluate(&Expr::LookupOrCompute(65535, Box::new(literal(1.0)))),
        Err(RuntimeError::Internal("bad variable reference: 65535".to_string()))
    );
    for ty in [BlockTy::Sum, BlockTy::Sub, BlockTy::Mul, BlockTy::Div, BlockTy::Return] {
        assert_eq!(
            context.evaluate(&Expr::Block(ty, vec![])),
            Err(RuntimeError::Internal("improper arity".to_string()))
        );
    }
    assert_eq!(context.evaluate(&Expr::Block(BlockTy::Any, vec![])), Ok(Value::Bool(false)));
    assert_eq!(context.evaluate(&Expr::Block(BlockTy::All, vec![])), Ok(Value::Bool(true)));
    assert_eq!(context.evaluate(&Expr::Block(BlockTy::NotAny, vec![])), Ok(Value::Bool(true)));

    let mut constant = EvalContext::constant(&constants, 0, &NoGlobals);
    assert_eq!(
        constant.evaluate(&Expr::TagPattern(vec![TagPattern::Exists(1)])),
        Err(RuntimeError::Internal("no tags supported here".to_string()))
    );
}

#[test]
fn a_slot_is_filled_once() {
    let constants = vec![];
    let tags = TagList::new();
    let globals = GlobalTable::new();
    let mut context = EvalContext::create(&constants, 1, &tags, &globals);

    let first = Expr::LookupOrCompute(0, Box::new(literal(1.0)));
    let second = Expr::LookupOrCompute(0, Box::new(literal(2.0)));
    assert_eq!(context.evaluate(&first), Ok(Value::Number(bits(1.0))));
    assert_eq!(context.evaluate(&second), Ok(Value::Number(bits(1.0))));

    let mut fresh = EvalContext::create(&constants, 1, &tags, &globals);
    assert_eq!(fresh.evaluate(&second), Ok(Value::Number(bits(2.0))));
}

#[test]
fn a_slot_stays_empty_when_its_definition_fails() {
    let constants = vec![];
    let tags = TagList::new();
    let globals = GlobalTable::new();
    let mut context = EvalContext::create(&constants, 1, &tags, &globals);

    let failing = Expr::LookupOrCompute(0, Box::new(Expr::When(vec![])));
    assert_eq!(context.evaluate(&failing), Err(RuntimeError::WhenFallthrough));
    let returning = Expr::LookupOrCompute(
        0,
        Box::new(Expr::Block(BlockTy::Return, vec![Expr::Literal(Value::Bool(true))])),
    );
    assert_eq!(
        context.evaluate(&returning),
        Err(RuntimeError::EarlyReturn(Value::Bool(true)))
    );
    let filling = Expr::LookupOrCompute(0, Box::new(literal(3.0)));
    assert_eq!(context.evaluate(&filling), Ok(Value::Number(bits(3.0))));
}

#[test]
fn evaluation_of_each_kind_of_expression() {
    let constants = vec![Value::String("c".to_string())];
    let mut tags = TagList::new();
    tags.insert(1, 2);
    let mut globals = GlobalTable::new();
    globals.insert("way.length".to_string(), 12.5f32.to_bits());
    let mut context = EvalContext::create(&constants, 0, &tags, &globals);

    assert_eq!(context.evaluate(&Expr::Literal(Value::Invalid)), Ok(Value::Invalid));
    assert_eq!(
        context.evaluate(&Expr::LookupConstant(0)),
        Ok(Value::String("c".to_string()))
    );
    assert_eq!(
        context.evaluate(&Expr::LookupGlobal("way.length".to_string())),
        Ok(Value::Number(bits(12.5)))
    );
    assert_eq!(
        context.evaluate_block(&BlockTy::Sub, &vec![literal(1.0), literal(2.0)]),
        Ok(Value::Number(Number::Apply(ArithOp::Sub, Box::new(bits(1.0)), Box::new(bits(2.0)))))
    );
    assert_eq!(
        context.fold_block(&vec![literal(1.0), Expr::Literal(Value::Invalid)], ArithOp::Div),
        Ok(Value::Invalid)
    );
    assert_eq!(
        context.evaluate_when(&vec![
            WhenBlockClause(Expr::Literal(Value::Invalid), literal(1.0)),
            WhenBlockClause(literal(0.0), literal(2.0)),
        ]),
        Ok(Value::Number(bits(2.0)))
    );
    assert_eq!(
        context.evaluate_tag_patterns(&vec![
            TagPattern::Exists(1),
            TagPattern::NotExists(2),
            TagPattern::OneOf(1, vec![3, 2]),
            TagPattern::NoneOf(1, vec![3]),
        ]),
        Ok(Value::Bool(true))
    );
    assert_eq!(
        context.evaluate_tag_patterns(&vec![TagPattern::Exists(1), TagPattern::NoneOf(1, vec![2])]),
        Ok(Value::Bool(false))
    );
    assert_eq!(
        context.evaluate_tag_patterns(&vec![TagPattern::OneOf(2, vec![2])]),
        Ok(Value::Bool(false))
    );
    assert_eq!(
        context.evaluate_tag_patterns(&vec![TagPattern::NoneOf(2, vec![1])]),
        Ok(Value::Bool(false))
    );
}
