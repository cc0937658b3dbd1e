use panamint::builder::VariableMapping;
use panamint::ir::Expr;
use panamint::scope::NestedScope;
use panamint::value::Value;

#[test]
fn empty_scope_binds_nothing() {
    let scope: NestedScope<u32> = NestedScope::empty();
    assert_eq!(scope.depth(), 1);
    assert_eq!(scope.get("x"), None);
}

#[test]
fn set_binds_in_the_innermost_scope() {
    let mut scope = NestedScope::empty();
    scope.set("x".to_string(), 1);
    scope.push();
    scope.set("y".to_string(), 2);
    assert_eq!(scope.get("x"), Some(&1));
    assert_eq!(scope.get("y"), Some(&2));
    let inner = scope.pop();
    assert_eq!(inner.get("y"), Some(&2));
    assert_eq!(inner.get("x"), None);
    assert_eq!(scope.get("x"), Some(&1));
    assert_eq!(scope.get("y"), None);
}

#[test]
fn inner_binding_shadows_outer() {
    let mut scope = NestedScope::empty();
    scope.set("x".to_string(), 1);
    scope.push();
    assert_eq!(scope.get("x"), Some(&1));
    scope.set("x".to_string(), 2);
    assert_eq!(scope.get("x"), Some(&2));
    scope.push();
    assert_eq!(scope.get("x"), Some(&2));
    scope.pop();
    scope.pop();
    assert_eq!(scope.get("x"), Some(&1));
    assert_eq!(scope.depth(), 1);
}

#[test]
fn set_replaces_a_binding() {
    let mut scope = NestedScope::empty();
    scope.set("x".to_string(), 1);
    scope.set("y".to_string(), 5);
    scope.set("x".to_string(), 2);
    assert_eq!(scope.get("x"), Some(&2));
    assert_eq!(scope.get("y"), Some(&5));
}

#[test]
fn names_are_compared_by_their_text() {
    let mut scope = NestedScope::empty();
    scope.set("way".to_string(), 1);
    scope.set("way.length".to_string(), 2);
    scope.set("".to_string(), 3);
    assert_eq!(scope.get("way"), Some(&1));
    assert_eq!(scope.get("way.length"), Some(&2));
    assert_eq!(scope.get(""), Some(&3));
    assert_eq!(scope.get("way."), None);
}

#[test]
fn pop_can_leave_no_scope() {
    let mut scope: NestedScope<u32> = NestedScope::empty();
    scope.pop();
    assert_eq!(scope.depth(), 0);
    assert_eq!(scope.get("x"), None);
    scope.push();
    scope.set("x".to_string(), 1);
    assert_eq!(scope.get("x"), Some(&1));
}

#[test]
fn variables_get_ids_in_the_order_of_first_use() {
    let mut variables = VariableMapping::new();
    variables.add_definition("x", Expr::LookupConstant(1));
    variables.add_definition("y", Expr::LookupConstant(2));
    assert_eq!(variables.next_id(), 0);
    assert_eq!(variables.get_or_assign_id("y"), Some(0));
    assert_eq!(variables.get_or_assign_id("x"), Some(1));
    assert_eq!(variables.get_or_assign_id("y"), Some(0));
    assert_eq!(variables.add_variable(0, "x".to_string()), 2);
    assert_eq!(variables.get_or_assign_id("x"), Some(2));
    assert_eq!(variables.next_id(), 3);
}

#[test]
fn name_without_a_definition_gets_no_id() {
    let mut variables = VariableMapping::new();
    assert_eq!(variables.get_or_assign_id("x"), None);
    assert_eq!(variables.next_id(), 0);
    variables.push();
    variables.add_definition("x", Expr::LookupConstant(1));
    assert_eq!(variables.get_or_assign_id("x"), Some(0));
    variables.pop();
    assert_eq!(variables.get_or_assign_id("x"), None);
    assert_eq!(variables.next_id(), 1);
}

#[test]
fn id_is_bound_where_the_definition_is() {
    let mut variables = VariableMapping::new();
    variables.add_definition("x", Expr::LookupConstant(1));
    variables.push();
    assert_eq!(variables.get_or_assign_id("x"), Some(0));
    variables.pop();
    assert_eq!(variables.get_or_assign_id("x"), Some(0));
    variables.push();
    assert_eq!(variables.get_or_assign_id("x"), Some(0));
    assert_eq!(variables.next_id(), 1);
}

#[test]
fn shadowing_definition_gets_an_id_of_its_own() {
    let mut variables = VariableMapping::new();
    variables.add_definition("x", Expr::LookupConstant(1));
    assert_eq!(variables.get_or_assign_id("x"), Some(0));
    variables.push();
    assert_eq!(variables.get_or_assign_id("x"), Some(0));
    variables.add_definition("x", Expr::LookupConstant(2));
    assert_eq!(variables.get_or_assign_id("x"), Some(1));
    variables.pop();
    assert_eq!(variables.get_or_assign_id("x"), Some(0));
    variables.add_definition("x", Expr::LookupConstant(3));
    assert_eq!(variables.get_or_assign_id("x"), Some(2));
    assert_eq!(variables.next_id(), 3);
}

#[test]
fn scopes_are_reached_by_their_depth() {
    let mut scope = NestedScope::empty();
    scope.set("x".to_string(), 1);
    scope.push();
    scope.set("y".to_string(), 2);
    scope.push();
    assert_eq!(scope.find("x"), Some((0, &1)));
    assert_eq!(scope.find("y"), Some((1, &2)));
    assert_eq!(scope.find("z"), None);
    scope.set_in(1, "x".to_string(), 3);
    assert_eq!(scope.find("x"), Some((1, &3)));
    assert_eq!(scope.get_in(0, "x"), Some(&1));
    assert_eq!(scope.get_in(1, "x"), Some(&3));
    assert_eq!(scope.get_in(2, "x"), None);
    scope.set("x".to_string(), 4);
    scope.unset("x".to_string());
    assert_eq!(scope.get("x"), Some(&3));
    scope.pop();
    scope.unset("x".to_string());
    scope.unset("z".to_string());
    assert_eq!(scope.get("x"), Some(&1));
    assert_eq!(scope.get("y"), Some(&2));
}

#[test]
fn removed_name_can_be_bound_again() {
    let mut scope = NestedScope::empty();
    scope.set("x".to_string(), 1);
    scope.unset("x".to_string());
    assert_eq!(scope.get("x"), None);
    assert_eq!(scope.find("x"), None);
    scope.set("x".to_string(), 2);
    assert_eq!(scope.get("x"), Some(&2));
    scope.unset("y".to_string());
    assert_eq!(scope.get("x"), Some(&2));
}

#[test]
fn definitions_are_scoped() {
    let mut variables = VariableMapping::new();
    variables.add_definition("x", Expr::Literal(Value::Bool(true)));
    variables.push();
    variables.add_definition("x", Expr::LookupConstant(3));
    assert_eq!(variables.get_definition("x"), Some(&Expr::LookupConstant(3)));
    assert_eq!(variables.get_definition("y"), None);
    variables.pop();
    assert_eq!(variables.get_definition("x"), Some(&Expr::Literal(Value::Bool(true))));
}

#[test]
fn clear_hands_back_the_variables_and_starts_afresh() {
    let mut variables = VariableMapping::new();
    variables.add_definition("x", Expr::LookupConstant(3));
    assert_eq!(variables.get_or_assign_id("x"), Some(0));
    let before = variables.clear();
    assert_eq!(before.next_id(), 1);
    assert_eq!(before.get_definition("x"), Some(&Expr::LookupConstant(3)));
    assert_eq!(variables.next_id(), 0);
    assert_eq!(variables.get_definition("x"), None);
    assert_eq!(variables.get_or_assign_id("x"), None);
    variables.add_definition("y", Expr::LookupConstant(4));
    assert_eq!(variables.get_or_assign_id("y"), Some(0));
}
