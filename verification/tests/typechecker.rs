use ditto_checker::ast::expression::{Argument, Expression, FunctionBinder};
use ditto_checker::ast::name::{
    unqualified, FullyQualifiedProperName, ModuleName, Name, ProperName, QualifiedName,
    QualifiedProperName,
};
use ditto_checker::ast::types::{duplicate_type, PrimType, Type};
use ditto_checker::result::{TypeError, Warning};
use ditto_checker::supply::Supply;
use ditto_checker::table::Table;
use ditto_checker::token::Span;
use ditto_checker::typechecker::env::{Env, EnvConstructor, EnvValue};
use ditto_checker::typechecker::limits::{
    can_infer, can_typecheck, cost_within, most_referred, widest_scheme,
};
use ditto_checker::typechecker::pre_ast as pre;
use ditto_checker::typechecker::scheme::Scheme;
use ditto_checker::typechecker::state::State;
use ditto_checker::typechecker::substitution::{Constraint, Substitution};
use ditto_checker::typechecker::{
    bind, check, infer, occurs_check, split_first_owned, try_typecheck_with, typecheck,
    typecheck_with, unify, unify_else,
};

fn sp(start_offset: usize, end_offset: usize) -> Span {
    Span { start_offset, end_offset }
}

fn name(text: &str) -> Name {
    Name(text.to_string())
}

fn value_name(text: &str) -> QualifiedName {
    unqualified(name(text))
}

fn constructor_name(text: &str) -> QualifiedProperName {
    QualifiedProperName { module_name: None, value: ProperName(text.to_string()) }
}

fn prim(prim: PrimType) -> Type {
    Type::PrimConstructor(prim)
}

fn anonymous(var: usize) -> Type {
    Type::Variable { var, source_name: None }
}

fn named(var: usize, text: &str) -> Type {
    Type::Variable { var, source_name: Some(name(text)) }
}

fn function_type(parameters: Vec<Type>, return_type: Type) -> Type {
    Type::Function { parameters, return_type: Box::new(return_type) }
}

fn array_of(element: Type) -> Type {
    Type::Call { function: Box::new(prim(PrimType::Array)), arguments: vec![element] }
}

fn maybe_type() -> Type {
    Type::Constructor {
        canonical_value: FullyQualifiedProperName {
            package_name: None,
            module_name: ModuleName(vec![ProperName("Data".to_string())]),
            value: ProperName("Maybe".to_string()),
        },
        source_value: None,
    }
}

fn integer(at: usize, text: &str) -> pre::Expression {
    pre::Expression::Int { span: sp(at, at + text.len()), value: text.to_string() }
}

fn truth(at: usize) -> pre::Expression {
    pre::Expression::True { span: sp(at, at + 4) }
}

fn variable(at: usize, text: &str) -> pre::Expression {
    pre::Expression::Variable { span: sp(at, at + text.len()), variable: value_name(text) }
}

fn array(at: usize, end: usize, elements: Vec<pre::Expression>) -> pre::Expression {
    pre::Expression::Array { span: sp(at, end), elements }
}

fn call(at: usize, end: usize, function: pre::Expression, arguments: Vec<pre::Expression>) -> pre::Expression {
    pre::Expression::Call {
        span: sp(at, end),
        function: Box::new(function),
        arguments: arguments.into_iter().map(pre::Argument::Expression).collect(),
    }
}

fn binder(at: usize, text: &str, type_annotation: Option<Type>) -> pre::FunctionBinder {
    pre::FunctionBinder::Name { span: sp(at, at + text.len()), type_annotation, value: name(text) }
}

fn function(
    at: usize,
    end: usize,
    binders: Vec<pre::FunctionBinder>,
    return_type_annotation: Option<Type>,
    body: pre::Expression,
) -> pre::Expression {
    pre::Expression::Function {
        span: sp(at, end),
        binders,
        return_type_annotation,
        body: Box::new(body),
    }
}

fn module_value(text: &str, forall: Vec<usize>, signature: Type) -> EnvValue {
    EnvValue::ModuleValue {
        span: sp(0, 0),
        variable_scheme: Scheme { forall, signature },
        variable: name(text),
    }
}

fn env_with(values: Vec<(&str, Vec<usize>, Type)>) -> Env {
    let mut env = Env::new();
    for (text, forall, signature) in values {
        env.values.insert(value_name(text), module_value(text, forall, signature));
    }
    env
}

fn count_of(state: &State, text: &str) -> Option<usize> {
    state.value_references.get(&value_name(text)).copied()
}

#[test]
fn literals_have_their_fixed_types_and_leave_the_state_alone() {
    let literals = vec![
        (pre::Expression::True { span: sp(0, 4) }, PrimType::Bool),
        (pre::Expression::False { span: sp(0, 5) }, PrimType::Bool),
        (pre::Expression::Unit { span: sp(0, 4) }, PrimType::Unit),
        (pre::Expression::String { span: sp(0, 4), value: "hi".to_string() }, PrimType::String),
        (pre::Expression::Int { span: sp(0, 1), value: "5".to_string() }, PrimType::Int),
        (pre::Expression::Float { span: sp(0, 3), value: "5.0".to_string() }, PrimType::Float),
    ];
    for (literal, expected) in literals {
        let env = Env::new();
        let mut state = State::new(Supply(7));
        let typed = infer(&env, &mut state, literal).unwrap();
        assert_eq!(typed.get_type(), prim(expected));
        assert_eq!(state.supply, Supply(7));
        assert!(state.substitution.get(0).is_none());
        assert_eq!(state.value_references.len(), 0);
        assert_eq!(state.constructor_references.len(), 0);
        assert!(state.warnings.is_empty());
    }
}

#[test]
fn a_literal_keeps_its_span_and_text() {
    let env = Env::new();
    let mut state = State::default();
    let typed = infer(&env, &mut state, integer(3, "12345")).unwrap();
    assert_eq!(typed, Expression::Int { span: sp(3, 8), value: "12345".to_string() });
    assert_eq!(typed.get_span(), sp(3, 8));
}

#[test]
fn the_empty_array_has_a_fresh_element_type() {
    let env = Env::new();
    let mut state = State::new(Supply(3));
    let typed = infer(&env, &mut state, array(0, 2, vec![])).unwrap();
    assert_eq!(
        typed,
        Expression::Array { span: sp(0, 2), element_type: anonymous(3), elements: vec![] }
    );
    assert_eq!(typed.get_type(), array_of(anonymous(3)));
    assert_eq!(state.supply, Supply(4));
    assert!(state.substitution.get(3).is_none());
}

#[test]
fn an_array_of_integers_is_an_array_of_int() {
    let env = Env::new();
    let mut state = State::default();
    let typed =
        infer(&env, &mut state, array(0, 9, vec![integer(1, "1"), integer(4, "2"), integer(7, "3")])).unwrap();
    assert_eq!(typed.get_type(), array_of(prim(PrimType::Int)));
    match typed {
        Expression::Array { elements, .. } => assert_eq!(elements.len(), 3),
        other => panic!("{:?}", other),
    }
}

#[test]
fn a_mixed_array_is_refused() {
    let env = Env::new();
    let mut state = State::default();
    let result = infer(&env, &mut state, array(0, 9, vec![integer(1, "1"), truth(4)]));
    assert_eq!(
        result,
        Err(TypeError::TypesNotEqual {
            span: sp(4, 8),
            expected: prim(PrimType::Int),
            actual: prim(PrimType::Bool),
        })
    );
    let result = check(
        &env,
        &mut State::default(),
        array_of(prim(PrimType::Int)),
        array(0, 9, vec![integer(1, "1"), truth(4)]),
    );
    assert!(matches!(result, Err(TypeError::TypesNotEqual { .. })));
}

#[test]
fn a_call_with_the_wrong_number_of_arguments_is_refused() {
    let env = env_with(vec![(
        "add",
        vec![],
        function_type(vec![prim(PrimType::Int), prim(PrimType::Int)], prim(PrimType::Int)),
    )]);
    let one = call(0, 6, variable(0, "add"), vec![integer(4, "1")]);
    assert_eq!(
        infer(&env, &mut State::default(), one),
        Err(TypeError::ArgumentLengthMismatch { function_span: sp(0, 3), wanted: 2, got: 1 })
    );
    let three = call(0, 12, variable(0, "add"), vec![integer(4, "1"), integer(7, "2"), integer(10, "3")]);
    assert_eq!(
        infer(&env, &mut State::default(), three),
        Err(TypeError::ArgumentLengthMismatch { function_span: sp(0, 3), wanted: 2, got: 3 })
    );
    let two = call(0, 9, variable(0, "add"), vec![integer(4, "1"), integer(7, "2")]);
    let typed = infer(&env, &mut State::default(), two).unwrap();
    assert_eq!(typed.get_type(), prim(PrimType::Int));
}

#[test]
fn a_call_of_an_integer_is_refused() {
    let env = Env::new();
    let result = infer(&env, &mut State::default(), call(0, 4, integer(0, "5"), vec![integer(2, "1")]));
    assert_eq!(
        result,
        Err(TypeError::NotAFunction { span: sp(0, 1), actual_type: prim(PrimType::Int) })
    );
}

#[test]
fn a_named_type_variable_is_rigid() {
    // five : a = 5
    let result = typecheck(Some(named(0, "a")), integer(0, "5"), Table::new(), Vec::new());
    assert_eq!(
        result,
        Err(TypeError::TypesNotEqual {
            span: sp(0, 1),
            expected: named(0, "a"),
            actual: prim(PrimType::Int),
        })
    );
    let mut state = State::default();
    let same = unify(
        &mut state,
        sp(0, 0),
        Constraint { expected: named(0, "a"), actual: named(1, "a") },
    );
    assert_eq!(same, Ok(()));
    assert!(state.substitution.get(0).is_none());
    let other = unify(
        &mut state,
        sp(0, 0),
        Constraint { expected: named(0, "a"), actual: named(1, "b") },
    );
    assert!(matches!(other, Err(TypeError::TypesNotEqual { .. })));
}

#[test]
fn an_anonymous_variable_takes_a_named_one() {
    let mut state = State::default();
    let result =
        unify(&mut state, sp(0, 0), Constraint { expected: named(0, "a"), actual: anonymous(1) });
    assert_eq!(result, Ok(()));
    assert_eq!(state.substitution.get(1), Some(&named(0, "a")));
}

#[test]
fn a_variable_is_not_bound_to_a_type_that_holds_it() {
    let mut state = State::default();
    let infinite = function_type(vec![anonymous(0)], prim(PrimType::Int));
    let result = unify(
        &mut state,
        sp(1, 2),
        Constraint { expected: anonymous(0), actual: function_type(vec![anonymous(0)], prim(PrimType::Int)) },
    );
    assert_eq!(
        result,
        Err(TypeError::InfiniteType { span: sp(1, 2), var: 0, infinite_type: infinite })
    );
    assert!(state.substitution.get(0).is_none());
    assert_eq!(occurs_check(sp(0, 0), 1, &array_of(anonymous(2))), Ok(()));
    assert!(occurs_check(sp(0, 0), 2, &array_of(anonymous(2))).is_err());
}

#[test]
fn a_function_applied_to_itself_has_no_type() {
    // (f) -> f(f)
    let env = Env::new();
    let expression = function(
        0,
        11,
        vec![binder(1, "f", None)],
        None,
        call(7, 11, variable(7, "f"), vec![variable(9, "f")]),
    );
    let result = infer(&env, &mut State::default(), expression);
    assert_eq!(
        result,
        Err(TypeError::InfiniteType {
            span: sp(7, 8),
            var: 0,
            infinite_type: function_type(vec![anonymous(0)], anonymous(1)),
        })
    );
}

#[test]
fn binding_a_variable_to_itself_binds_nothing() {
    let mut state = State::default();
    assert_eq!(bind(&mut state, sp(0, 0), 4, anonymous(4)), Ok(()));
    assert!(state.substitution.get(4).is_none());
    assert_eq!(bind(&mut state, sp(0, 0), 4, prim(PrimType::Bool)), Ok(()));
    assert_eq!(state.substitution.get(4), Some(&prim(PrimType::Bool)));
}

#[test]
fn an_unused_parameter_earns_one_warning() {
    // (x) -> 5
    let env = Env::new();
    let mut state = State::default();
    let typed =
        infer(&env, &mut state, function(0, 8, vec![binder(1, "x", None)], None, integer(7, "5")))
            .unwrap();
    assert_eq!(state.warnings, vec![Warning::UnusedFunctionBinder { span: sp(1, 2) }]);
    assert_eq!(count_of(&state, "x"), None);
    assert_eq!(typed.get_type(), function_type(vec![anonymous(0)], prim(PrimType::Int)));
    assert_eq!(
        typed,
        Expression::Function {
            span: sp(0, 8),
            binders: vec![FunctionBinder::Name {
                span: sp(1, 2),
                binder_type: anonymous(0),
                value: name("x"),
            }],
            body: Box::new(Expression::Int { span: sp(7, 8), value: "5".to_string() }),
        }
    );
}

#[test]
fn a_used_parameter_earns_no_warning_and_leaves_no_count() {
    // (x) -> x
    let env = Env::new();
    let mut state = State::default();
    infer(&env, &mut state, function(0, 8, vec![binder(1, "x", None)], None, variable(7, "x")))
        .unwrap();
    assert!(state.warnings.is_empty());
    assert_eq!(count_of(&state, "x"), None);
}

#[test]
fn shadowing_restores_the_outer_count() {
    // k(x, (x) -> [x, x])
    let env = env_with(vec![
        ("x", vec![], prim(PrimType::Int)),
        (
            "k",
            vec![],
            function_type(
                vec![
                    prim(PrimType::Int),
                    function_type(vec![prim(PrimType::Int)], array_of(prim(PrimType::Int))),
                ],
                prim(PrimType::Int),
            ),
        ),
    ]);
    let inner = function(
        5,
        18,
        vec![binder(6, "x", None)],
        None,
        array(12, 18, vec![variable(13, "x"), variable(16, "x")]),
    );
    let expression = call(0, 19, variable(0, "k"), vec![variable(2, "x"), inner]);
    let mut state = State::default();
    let typed = infer(&env, &mut state, expression).unwrap();
    assert_eq!(typed.get_type(), prim(PrimType::Int));
    assert_eq!(count_of(&state, "x"), Some(1));
    assert_eq!(count_of(&state, "k"), Some(1));
    assert!(state.warnings.is_empty());
}

#[test]
fn an_unused_parameter_that_hides_a_counted_value_earns_a_warning() {
    // k(x, (x) -> 5)
    let env = env_with(vec![
        ("x", vec![], prim(PrimType::Int)),
        (
            "k",
            vec![],
            function_type(
                vec![
                    prim(PrimType::Int),
                    function_type(vec![prim(PrimType::Int)], prim(PrimType::Int)),
                ],
                prim(PrimType::Int),
            ),
        ),
    ]);
    let inner = function(5, 13, vec![binder(6, "x", None)], None, integer(12, "5"));
    let expression = call(0, 14, variable(0, "k"), vec![variable(2, "x"), inner]);
    let mut state = State::default();
    infer(&env, &mut state, expression).unwrap();
    assert_eq!(state.warnings, vec![Warning::UnusedFunctionBinder { span: sp(6, 7) }]);
    assert_eq!(count_of(&state, "x"), Some(1));
}

#[test]
fn two_parameters_of_one_name_are_refused() {
    // (x, x) -> x
    let env = Env::new();
    let expression = function(
        0,
        11,
        vec![binder(1, "x", None), binder(4, "x", None)],
        None,
        variable(10, "x"),
    );
    assert_eq!(
        infer(&env, &mut State::default(), expression),
        Err(TypeError::DuplicateFunctionBinder {
            previous_binder: sp(1, 2),
            duplicate_binder: sp(4, 5),
        })
    );
}

#[test]
fn applying_the_final_substitution_twice_changes_nothing() {
    // (f) -> f(1)
    let env = Env::new();
    let mut state = State::default();
    let expression = function(
        0,
        11,
        vec![binder(1, "f", None)],
        None,
        call(7, 11, variable(7, "f"), vec![integer(9, "1")]),
    );
    let typed = infer(&env, &mut state, expression).unwrap();
    let once = state.substitution.resolve_expression(&typed);
    let twice = state.substitution.resolve_expression(&once);
    assert_eq!(once, twice);
    assert_ne!(once, typed);
    assert_eq!(
        once.get_type(),
        function_type(
            vec![function_type(vec![prim(PrimType::Int)], anonymous(1))],
            anonymous(1)
        )
    );
}

#[test]
fn every_use_of_a_scheme_gets_fresh_variables() {
    // if id(true) then id(1) else 2, with id : forall a. (a) -> a
    let env = env_with(vec![(
        "id",
        vec![0],
        function_type(vec![named(0, "a")], named(0, "a")),
    )]);
    let expression = pre::Expression::If {
        span: sp(0, 30),
        condition: Box::new(call(3, 11, variable(3, "id"), vec![truth(6)])),
        true_clause: Box::new(call(17, 22, variable(17, "id"), vec![integer(20, "1")])),
        false_clause: Box::new(integer(28, "2")),
    };
    assert!(can_typecheck(&env, Supply(1), &expression));
    let (typed, value_references, _, _, warnings, supply) =
        typecheck_with(&env, Supply(1), None, expression, Table::new(), Vec::new()).unwrap();
    assert_eq!(typed.get_type(), prim(PrimType::Int));
    assert_eq!(supply, Supply(3));
    assert_eq!(value_references.get(&value_name("id")), Some(&2));
    assert!(warnings.is_empty());
    match typed {
        Expression::If { condition, true_clause, .. } => {
            assert_eq!(condition.get_type(), prim(PrimType::Bool));
            assert_eq!(true_clause.get_type(), prim(PrimType::Int));
        }
        other => panic!("{:?}", other),
    }
}

#[test]
fn an_instance_renames_the_variables_of_its_scheme() {
    let scheme = Scheme {
        forall: vec![5, 6],
        signature: function_type(vec![named(5, "a"), anonymous(6), anonymous(7)], named(5, "a")),
    };
    let mut supply = Supply(10);
    let instance = scheme.instantiate(&mut supply);
    assert_eq!(
        instance,
        function_type(vec![anonymous(10), anonymous(11), anonymous(7)], anonymous(10))
    );
    assert_eq!(supply, Supply(12));
    let again = scheme.instantiate(&mut supply);
    assert_eq!(
        again,
        function_type(vec![anonymous(12), anonymous(13), anonymous(7)], anonymous(12))
    );
}

#[test]
fn an_unknown_variable_is_reported_with_the_names_in_scope() {
    let env = env_with(vec![("x", vec![], prim(PrimType::Int))]);
    let mut state = State::default();
    let result = infer(&env, &mut state, variable(0, "y"));
    assert_eq!(
        result,
        Err(TypeError::UnknownVariable {
            span: sp(0, 1),
            variable: value_name("y"),
            names_in_scope: vec![value_name("x")],
        })
    );
    assert_eq!(count_of(&state, "y"), Some(1));
}

#[test]
fn constructors_are_looked_up_and_counted() {
    let mut env = Env::new();
    env.constructors.insert(
        constructor_name("Nothing"),
        EnvConstructor::ModuleConstructor {
            constructor_scheme: Scheme { forall: vec![], signature: maybe_type() },
            constructor: ProperName("Nothing".to_string()),
        },
    );
    let mut state = State::default();
    let reference =
        pre::Expression::Constructor { span: sp(0, 7), constructor: constructor_name("Nothing") };
    let typed = infer(&env, &mut state, reference).unwrap();
    assert_eq!(
        typed,
        Expression::LocalConstructor {
            span: sp(0, 7),
            constructor_type: maybe_type(),
            constructor: ProperName("Nothing".to_string()),
        }
    );
    assert_eq!(state.constructor_references.get(&constructor_name("Nothing")), Some(&1));
    let missing =
        pre::Expression::Constructor { span: sp(0, 4), constructor: constructor_name("Just") };
    assert_eq!(
        infer(&env, &mut state, missing),
        Err(TypeError::UnknownConstructor {
            span: sp(0, 4),
            constructor: constructor_name("Just"),
            ctors_in_scope: vec![constructor_name("Nothing")],
        })
    );
}

#[test]
fn the_branches_of_a_conditional_agree_with_the_first() {
    let env = Env::new();
    let conditional = |false_clause: pre::Expression| pre::Expression::If {
        span: sp(0, 20),
        condition: Box::new(truth(3)),
        true_clause: Box::new(integer(13, "5")),
        false_clause: Box::new(false_clause),
    };
    let typed = infer(&env, &mut State::default(), conditional(integer(19, "6"))).unwrap();
    assert_eq!(typed.get_type(), prim(PrimType::Int));
    assert_eq!(
        infer(&env, &mut State::default(), conditional(truth(19))),
        Err(TypeError::TypesNotEqual {
            span: sp(19, 23),
            expected: prim(PrimType::Int),
            actual: prim(PrimType::Bool),
        })
    );
    let not_a_condition = pre::Expression::If {
        span: sp(0, 20),
        condition: Box::new(integer(3, "1")),
        true_clause: Box::new(integer(13, "5")),
        false_clause: Box::new(integer(19, "6")),
    };
    assert_eq!(
        infer(&env, &mut State::default(), not_a_condition),
        Err(TypeError::TypesNotEqual {
            span: sp(3, 4),
            expected: prim(PrimType::Bool),
            actual: prim(PrimType::Int),
        })
    );
}

#[test]
fn a_call_of_an_unknown_function_pins_its_type() {
    // (f) -> f(1, true) : ((Int, Bool) -> $1) -> $1
    let expression = function(
        0,
        17,
        vec![binder(1, "f", None)],
        None,
        call(7, 17, variable(7, "f"), vec![integer(9, "1"), truth(12)]),
    );
    let (typed, _, _, _, warnings, supply) =
        typecheck(None, expression, Table::new(), Vec::new()).unwrap();
    assert_eq!(
        typed.get_type(),
        function_type(
            vec![function_type(vec![prim(PrimType::Int), prim(PrimType::Bool)], anonymous(1))],
            anonymous(1)
        )
    );
    assert!(warnings.is_empty());
    assert_eq!(supply, Supply(2));
}

#[test]
fn annotations_are_checked() {
    // (x: Int): Int -> x
    let expression = function(
        0,
        18,
        vec![binder(1, "x", Some(prim(PrimType::Int)))],
        Some(prim(PrimType::Int)),
        variable(17, "x"),
    );
    let annotation = function_type(vec![prim(PrimType::Int)], prim(PrimType::Int));
    let (typed, _, _, _, _, supply) =
        typecheck(Some(duplicate_type(&annotation)), expression, Table::new(), Vec::new())
            .unwrap();
    assert_eq!(typed.get_type(), annotation);
    assert_eq!(supply, Supply(0));
    // (x: Int): Bool -> x
    let wrong = function(
        0,
        19,
        vec![binder(1, "x", Some(prim(PrimType::Int)))],
        Some(prim(PrimType::Bool)),
        variable(18, "x"),
    );
    assert_eq!(
        typecheck(None, wrong, Table::new(), Vec::new()),
        Err(TypeError::TypesNotEqual {
            span: sp(18, 19),
            expected: prim(PrimType::Bool),
            actual: prim(PrimType::Int),
        })
    );
}

#[test]
fn a_mismatch_inside_composite_types_reports_the_whole_types() {
    let expected =
        || function_type(vec![prim(PrimType::Int)], array_of(array_of(prim(PrimType::Int))));
    let actual =
        || function_type(vec![prim(PrimType::Int)], array_of(array_of(prim(PrimType::Bool))));
    let mut state = State::default();
    let result =
        unify(&mut state, sp(2, 3), Constraint { expected: expected(), actual: actual() });
    assert_eq!(
        result,
        Err(TypeError::TypesNotEqual { span: sp(2, 3), expected: expected(), actual: actual() })
    );
    let given = TypeError::NotAFunction { span: sp(9, 9), actual_type: prim(PrimType::Unit) };
    let result = unify_else(
        &mut state,
        sp(2, 3),
        Constraint { expected: expected(), actual: actual() },
        Some(&given),
    );
    assert_eq!(
        result,
        Err(TypeError::NotAFunction { span: sp(9, 9), actual_type: prim(PrimType::Unit) })
    );
}

#[test]
fn unification_binds_variables_in_both_types() {
    let mut state = State::default();
    let result = unify(
        &mut state,
        sp(0, 0),
        Constraint {
            expected: function_type(vec![anonymous(0), prim(PrimType::Bool)], anonymous(0)),
            actual: function_type(vec![prim(PrimType::Int), anonymous(1)], anonymous(2)),
        },
    );
    assert_eq!(result, Ok(()));
    assert_eq!(state.substitution.apply(anonymous(0)), prim(PrimType::Int));
    assert_eq!(state.substitution.apply(anonymous(1)), prim(PrimType::Bool));
    assert_eq!(state.substitution.apply(anonymous(2)), prim(PrimType::Int));
}

#[test]
fn unification_compares_lists_as_far_as_the_shorter_goes() {
    let mut state = State::default();
    let result = unify(
        &mut state,
        sp(0, 0),
        Constraint {
            expected: function_type(
                vec![prim(PrimType::Int), prim(PrimType::Bool)],
                prim(PrimType::Int),
            ),
            actual: function_type(vec![anonymous(0)], prim(PrimType::Int)),
        },
    );
    assert_eq!(result, Ok(()));
    assert_eq!(state.substitution.get(0), Some(&prim(PrimType::Int)));
}

#[test]
fn nominal_types_unify_by_their_canonical_names() {
    let mut state = State::default();
    assert_eq!(
        unify(&mut state, sp(0, 0), Constraint { expected: maybe_type(), actual: maybe_type() }),
        Ok(())
    );
    let result = unify(
        &mut state,
        sp(0, 0),
        Constraint { expected: maybe_type(), actual: prim(PrimType::Int) },
    );
    assert!(matches!(result, Err(TypeError::TypesNotEqual { .. })));
}

#[test]
fn applying_a_substitution_follows_chains() {
    let mut substitution = Substitution::new();
    substitution.insert(0, anonymous(1));
    substitution.insert(1, array_of(anonymous(2)));
    substitution.insert(2, prim(PrimType::Int));
    assert_eq!(substitution.apply(anonymous(0)), array_of(prim(PrimType::Int)));
    assert_eq!(
        substitution.apply(function_type(vec![anonymous(1)], anonymous(3))),
        function_type(vec![array_of(prim(PrimType::Int))], anonymous(3))
    );
    let applied = substitution.apply_constraint(Constraint {
        expected: anonymous(2),
        actual: named(9, "a"),
    });
    assert_eq!(
        applied,
        Constraint { expected: prim(PrimType::Int), actual: named(9, "a") }
    );
}

#[test]
fn the_supply_hands_out_increasing_variables() {
    let mut supply = Supply::default();
    assert_eq!(supply.fresh_type(), anonymous(0));
    assert_eq!(supply.fresh_type(), anonymous(1));
    assert_eq!(supply.fresh(), 2);
    assert_eq!(supply.peek(), 3);
    assert_eq!(Supply::new(9).fresh_type(), anonymous(9));
}

#[test]
fn a_table_maps_each_key_once() {
    let mut table: Table<QualifiedName, usize> = Table::new();
    table.insert(value_name("a"), 1);
    table.insert(value_name("b"), 2);
    table.insert(value_name("a"), 3);
    assert_eq!(table.len(), 2);
    assert_eq!(table.get(&value_name("a")), Some(&3));
    assert!(table.contains_key(&value_name("b")));
    assert_eq!(table.remove(&value_name("b")), Some(2));
    assert_eq!(table.remove(&value_name("b")), None);
    assert_eq!(table.keys(), vec![value_name("a")]);
    let mut other: Table<QualifiedName, usize> = Table::new();
    other.insert(value_name("a"), 7);
    other.insert(value_name("c"), 8);
    table.extend(other);
    assert_eq!(table.get(&value_name("a")), Some(&7));
    assert_eq!(table.get(&value_name("c")), Some(&8));
    assert_eq!(table.len(), 2);
}

#[test]
fn split_first_owned_parts_the_first_from_the_rest() {
    assert_eq!(split_first_owned(Vec::<u8>::new()), None);
    assert_eq!(split_first_owned(vec![1, 2, 3]), Some((1, vec![2, 3])));
    assert_eq!(split_first_owned(vec![1]), Some((1, vec![])));
}

#[test]
fn typed_arguments_know_their_types() {
    let argument = Argument::Expression(Expression::True { span: sp(0, 4) });
    assert_eq!(argument.get_type(), prim(PrimType::Bool));
}

#[test]
fn the_cost_of_an_expression_is_taken_from_the_room() {
    // literals cost nothing
    assert_eq!(cost_within(&integer(0, "5"), 3, 0), Some(0));
    // a reference costs one more than the widest scheme has variables
    assert_eq!(cost_within(&variable(0, "x"), 3, 10), Some(6));
    assert_eq!(cost_within(&variable(0, "x"), 3, 4), Some(0));
    assert_eq!(cost_within(&variable(0, "x"), 3, 3), None);
    // an array costs one and what its elements cost
    let elements = array(0, 9, vec![variable(1, "x"), integer(4, "1"), variable(7, "y")]);
    assert_eq!(cost_within(&elements, 0, 10), Some(7));
    assert_eq!(cost_within(&elements, 0, 2), None);
    assert_eq!(cost_within(&array(0, 2, vec![]), 0, 0), None);
    // a call costs one, its function and its arguments
    let called = call(0, 7, variable(0, "f"), vec![variable(2, "x"), truth(5)]);
    assert_eq!(cost_within(&called, 1, 10), Some(5));
    // a function costs its parameters and its body
    let lambda = function(0, 11, vec![binder(1, "a", None), binder(4, "b", None)], None, called);
    assert_eq!(cost_within(&lambda, 1, 10), Some(3));
    assert_eq!(cost_within(&lambda, 1, 6), None);
    // a conditional costs its three parts
    let choice = pre::Expression::If {
        span: sp(0, 20),
        condition: Box::new(variable(3, "c")),
        true_clause: Box::new(variable(10, "x")),
        false_clause: Box::new(integer(17, "2")),
    };
    assert_eq!(cost_within(&choice, 2, 6), Some(0));
    assert_eq!(cost_within(&choice, 2, 5), None);
}

#[test]
fn room_is_measured_against_the_supply_and_the_counts() {
    let env = env_with(vec![
        ("id", vec![0], function_type(vec![named(0, "a")], named(0, "a"))),
        ("pair", vec![0, 1, 2], function_type(vec![named(0, "a"), named(1, "b")], named(2, "c"))),
    ]);
    assert_eq!(widest_scheme(&env), 3);
    assert_eq!(widest_scheme(&Env::new()), 0);

    let mut state = State::new(Supply(7));
    assert_eq!(most_referred(&state), 0);
    state.value_references.insert(value_name("id"), 4);
    state.constructor_references.insert(constructor_name("Just"), 9);
    state.value_references.insert(value_name("pair"), 2);
    assert_eq!(most_referred(&state), 9);

    // a reference costs four here
    assert!(can_infer(&env, &state, &variable(0, "id")));
    state.supply = Supply(usize::MAX - 4);
    assert!(can_infer(&env, &state, &variable(0, "id")));
    state.supply = Supply(usize::MAX - 3);
    assert!(!can_infer(&env, &state, &variable(0, "id")));
    // a literal always has room
    state.supply = Supply(usize::MAX);
    assert!(can_infer(&env, &state, &integer(0, "5")));
    // the empty array needs one variable
    assert!(!can_infer(&env, &state, &array(0, 2, vec![])));
    state.supply = Supply(usize::MAX - 1);
    assert!(can_infer(&env, &state, &array(0, 2, vec![])));
    // the counts need room too
    state.supply = Supply(0);
    state.value_references.insert(value_name("id"), usize::MAX - 3);
    assert!(!can_infer(&env, &state, &variable(0, "id")));
    assert!(can_infer(&env, &state, &integer(0, "5")));

    assert!(can_typecheck(&env, Supply(0), &variable(0, "id")));
    assert!(!can_typecheck(&env, Supply(usize::MAX - 2), &variable(0, "id")));
}

#[test]
fn what_reading_the_expression_gave_is_handed_on() {
    // (x) -> 5, read with one warning and two references to types
    let expression = function(0, 8, vec![binder(1, "x", None)], None, integer(7, "5"));
    let mut type_references = Table::new();
    type_references.insert(constructor_name("Int"), 2);
    type_references.insert(constructor_name("Maybe"), 1);
    let earlier = Warning::UnusedFunctionBinder { span: sp(40, 41) };
    let (_, _, _, types, warnings, supply) = typecheck_with(
        &Env::new(),
        Supply(3),
        None,
        expression,
        type_references.clone(),
        vec![earlier.clone()],
    )
    .unwrap();
    assert_eq!(types, type_references);
    assert_eq!(warnings, vec![earlier, Warning::UnusedFunctionBinder { span: sp(1, 2) }]);
    assert_eq!(supply, Supply(4));
}

#[test]
fn a_check_that_could_run_out_of_numbers_is_not_made() {
    let env = Env::new();
    let found = try_typecheck_with(
        &env,
        Supply(usize::MAX - 1),
        None,
        array(0, 2, vec![]),
        Table::new(),
        Vec::new(),
    );
    let (typed, _, _, _, _, supply) = found.unwrap().unwrap();
    assert_eq!(typed.get_type(), array_of(anonymous(usize::MAX - 1)));
    assert_eq!(supply, Supply(usize::MAX));

    let found = try_typecheck_with(
        &env,
        Supply(usize::MAX),
        None,
        array(0, 2, vec![]),
        Table::new(),
        Vec::new(),
    );
    assert_eq!(found, None);

    // a literal draws no variable
    let found = try_typecheck_with(
        &env,
        Supply(usize::MAX),
        Some(prim(PrimType::Int)),
        integer(0, "5"),
        Table::new(),
        Vec::new(),
    );
    assert_eq!(found.unwrap().unwrap().0.get_type(), prim(PrimType::Int));

    // an error is an outcome too
    let found = try_typecheck_with(
        &env,
        Supply(0),
        Some(prim(PrimType::Bool)),
        integer(0, "5"),
        Table::new(),
        Vec::new(),
    );
    assert_eq!(
        found,
        Some(Err(TypeError::TypesNotEqual {
            span: sp(0, 1),
            expected: prim(PrimType::Bool),
            actual: prim(PrimType::Int),
        }))
    );
}
