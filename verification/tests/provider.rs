use stack::provider::container::Provider;
use stack::provider::descriptor::{Signature, TypeDescriptor};
use stack::provider::error::ProviderError;
use stack::provider::function::{Candidate, Constructor, Invoke, Outcome};
use std::cell::Cell;
use std::rc::Rc;

const CONTEXT: u64 = 0;
const X: u64 = 1;
const Y: u64 = 2;
const A: u64 = 3;
const B: u64 = 4;
const Z: u64 = 9;

fn ty(id: u64) -> TypeDescriptor {
    TypeDescriptor::new(id)
}

fn types(ids: &[u64]) -> Vec<TypeDescriptor> {
    ids.iter().map(|id| ty(*id)).collect()
}

#[derive(Debug, Clone, PartialEq)]
enum Value {
    Context,
    Number(u64),
    Text(String),
}

/// What a test function does when it is invoked.
#[derive(Clone)]
enum Behaviour {
    /// Hands back the given values and no error.
    Give(Vec<Value>),
    /// Hands back one number: the sum of its numeric inputs plus the offset.
    Sum(u64),
    /// Hands back the given values and the given error.
    Fail(Vec<Value>, String),
}

#[derive(Clone)]
struct Function {
    behaviour: Behaviour,
    calls: Rc<Cell<u32>>,
}

impl Function {
    fn new(behaviour: Behaviour) -> Self {
        Function { behaviour, calls: Rc::new(Cell::new(0)) }
    }
}

impl Invoke for Function {
    type Value = Value;
    type Error = String;

    fn invoke(&self, args: &Vec<&Value>) -> Outcome<Value, String> {
        self.calls.set(self.calls.get() + 1);
        match &self.behaviour {
            Behaviour::Give(values) => Outcome::new(values.clone(), None),
            Behaviour::Sum(offset) => {
                let mut sum = *offset;
                for arg in args.iter() {
                    if let Value::Number(n) = arg {
                        sum += n;
                    }
                }
                Outcome::new(vec![Value::Number(sum)], None)
            }
            Behaviour::Fail(values, error) => Outcome::new(values.clone(), Some(error.clone())),
        }
    }
}

fn callable(
    id: u64,
    inputs: &[u64],
    outputs: &[u64],
    fallible: bool,
    function: &Function,
) -> Candidate<Function> {
    Candidate::Callable(Constructor::new(
        id,
        Signature::new(types(inputs), types(outputs), fallible),
        function.clone(),
    ))
}

#[test]
fn get_before_construct_finds_nothing() {
    let provider: Provider<Function> = Provider::new();
    assert_eq!(provider.get(ty(Z)), None);
}

#[test]
fn construct_resolves_a_chain_and_run_recomputes() {
    let make_x = Function::new(Behaviour::Give(vec![Value::Number(7)]));
    let make_y = Function::new(Behaviour::Sum(100));
    let mut provider: Provider<Function> = Provider::new();
    let registered = provider.register(vec![
        callable(1, &[], &[X], false, &make_x),
        callable(2, &[X], &[Y], false, &make_y),
    ]);
    assert!(matches!(registered, Ok(())));
    assert!(matches!(provider.construct(ty(CONTEXT), Value::Context), Ok(())));
    assert_eq!(provider.get(ty(X)), Some(&Value::Number(7)));
    assert_eq!(provider.get(ty(Y)), Some(&Value::Number(107)));
    assert_eq!(provider.get(ty(CONTEXT)), Some(&Value::Context));
    assert_eq!(make_x.calls.get(), 1);
    assert_eq!(make_y.calls.get(), 1);

    let recompute = Function::new(Behaviour::Sum(1000));
    let fresh = provider.run(ty(Y), &callable(3, &[X], &[Y], true, &recompute));
    assert!(matches!(fresh, Ok(Value::Number(1007))));
    assert_eq!(recompute.calls.get(), 1);
    assert_eq!(provider.get(ty(Y)), Some(&Value::Number(107)));
}

#[test]
fn construct_does_not_depend_on_registration_order() {
    let make_x = Function::new(Behaviour::Give(vec![Value::Number(7)]));
    let make_y = Function::new(Behaviour::Sum(100));
    let mut provider: Provider<Function> = Provider::new();
    let _ = provider.register(vec![
        callable(2, &[X], &[Y], false, &make_y),
        callable(1, &[], &[X], false, &make_x),
    ]);
    assert!(matches!(provider.construct(ty(CONTEXT), Value::Context), Ok(())));
    assert_eq!(provider.get(ty(X)), Some(&Value::Number(7)));
    assert_eq!(provider.get(ty(Y)), Some(&Value::Number(107)));
}

#[test]
fn construct_resolves_a_long_chain_registered_backwards() {
    let mut provider: Provider<Function> = Provider::new();
    let step = Function::new(Behaviour::Sum(1));
    let mut candidates = Vec::new();
    for k in (1..=40u64).rev() {
        candidates.push(callable(k, &[100 + k - 1], &[100 + k], false, &step));
    }
    let _ = provider.register(candidates);
    assert!(matches!(provider.construct(ty(100), Value::Number(0)), Ok(())));
    assert_eq!(provider.get(ty(140)), Some(&Value::Number(40)));
    assert_eq!(step.calls.get(), 40);
}

#[test]
fn a_constructor_with_the_seed_as_input_runs() {
    let from_context = Function::new(Behaviour::Give(vec![Value::Text("db".to_string())]));
    let mut provider: Provider<Function> = Provider::new();
    let _ = provider.register(vec![callable(1, &[CONTEXT], &[X], false, &from_context)]);
    assert!(matches!(provider.construct(ty(CONTEXT), Value::Context), Ok(())));
    assert_eq!(provider.get(ty(X)), Some(&Value::Text("db".to_string())));
}

#[test]
fn a_cycle_is_reported_and_nothing_is_made() {
    let make_a = Function::new(Behaviour::Give(vec![Value::Number(1)]));
    let make_b = Function::new(Behaviour::Give(vec![Value::Number(2)]));
    let mut provider: Provider<Function> = Provider::new();
    let _ = provider.register(vec![
        callable(10, &[B], &[A], false, &make_a),
        callable(11, &[A], &[B], false, &make_b),
    ]);
    let result = provider.construct(ty(CONTEXT), Value::Context);
    match result {
        Err(ProviderError::MaybeCyclicDependency { stuck }) => assert_eq!(stuck, vec![10, 11]),
        _ => panic!("expected a cyclic dependency"),
    }
    assert_eq!(provider.get(ty(A)), None);
    assert_eq!(provider.get(ty(B)), None);
    assert_eq!(make_a.calls.get(), 0);
    assert_eq!(make_b.calls.get(), 0);
}

#[test]
fn an_unsatisfiable_constructor_is_stuck_after_the_others_ran() {
    let make_x = Function::new(Behaviour::Give(vec![Value::Number(7)]));
    let needs_z = Function::new(Behaviour::Give(vec![Value::Number(8)]));
    let mut provider: Provider<Function> = Provider::new();
    let _ = provider.register(vec![
        callable(1, &[Z], &[Y], false, &needs_z),
        callable(2, &[], &[X], false, &make_x),
    ]);
    let result = provider.construct(ty(CONTEXT), Value::Context);
    match result {
        Err(ProviderError::MaybeCyclicDependency { stuck }) => assert_eq!(stuck, vec![1]),
        _ => panic!("expected a stall"),
    }
    assert_eq!(provider.get(ty(X)), Some(&Value::Number(7)));
    assert_eq!(provider.get(ty(Y)), None);
    assert_eq!(needs_z.calls.get(), 0);
}

#[test]
fn a_constructor_with_several_inputs_runs_once() {
    let make_x = Function::new(Behaviour::Give(vec![Value::Number(7)]));
    let make_y = Function::new(Behaviour::Give(vec![Value::Number(5)]));
    let join = Function::new(Behaviour::Sum(0));
    let mut provider: Provider<Function> = Provider::new();
    let _ = provider.register(vec![
        callable(3, &[X, Y, CONTEXT], &[A], false, &join),
        callable(1, &[], &[X], false, &make_x),
        callable(2, &[], &[Y], false, &make_y),
    ]);
    assert!(matches!(provider.construct(ty(CONTEXT), Value::Context), Ok(())));
    assert_eq!(provider.get(ty(A)), Some(&Value::Number(12)));
    assert_eq!(join.calls.get(), 1);
}

#[test]
fn registering_a_constructor_twice_runs_it_once() {
    let make_x = Function::new(Behaviour::Give(vec![Value::Number(7)]));
    let mut provider: Provider<Function> = Provider::new();
    let _ = provider.register(vec![callable(1, &[], &[X], false, &make_x)]);
    let _ = provider.register(vec![
        callable(1, &[], &[X], false, &make_x),
        callable(1, &[], &[X], false, &make_x),
    ]);
    assert!(matches!(provider.construct(ty(CONTEXT), Value::Context), Ok(())));
    assert_eq!(make_x.calls.get(), 1);
}

#[test]
fn register_stops_at_a_plain_value() {
    let make_x = Function::new(Behaviour::Give(vec![Value::Number(7)]));
    let make_y = Function::new(Behaviour::Give(vec![Value::Number(8)]));
    let mut provider: Provider<Function> = Provider::new();
    let result = provider.register(vec![
        callable(1, &[], &[X], false, &make_x),
        Candidate::Plain(Value::Number(3)),
        callable(2, &[], &[Y], false, &make_y),
    ]);
    assert!(matches!(result, Err(ProviderError::NotAFunction)));
    assert_eq!(make_x.calls.get(), 0);
    assert!(matches!(provider.construct(ty(CONTEXT), Value::Context), Ok(())));
    assert_eq!(provider.get(ty(X)), Some(&Value::Number(7)));
    assert_eq!(provider.get(ty(Y)), None);
    assert_eq!(make_y.calls.get(), 0);
}

#[test]
fn register_touches_no_instance() {
    let make_x = Function::new(Behaviour::Give(vec![Value::Number(7)]));
    let mut provider: Provider<Function> = Provider::new();
    let _ = provider.register(vec![callable(1, &[], &[X], false, &make_x)]);
    assert_eq!(provider.get(ty(X)), None);
    assert_eq!(make_x.calls.get(), 0);
}

#[test]
fn a_constructor_error_aborts_and_keeps_what_was_made() {
    let make_x = Function::new(Behaviour::Give(vec![Value::Number(7)]));
    let broken = Function::new(Behaviour::Fail(vec![Value::Number(0)], "no database".to_string()));
    let never = Function::new(Behaviour::Give(vec![Value::Number(1)]));
    let mut provider: Provider<Function> = Provider::new();
    let _ = provider.register(vec![
        callable(1, &[], &[X], false, &make_x),
        callable(2, &[X], &[Y], true, &broken),
        callable(3, &[Y], &[A], false, &never),
    ]);
    let result = provider.construct(ty(CONTEXT), Value::Context);
    match result {
        Err(ProviderError::Failed(error)) => assert_eq!(error, "no database"),
        _ => panic!("expected the constructor's error"),
    }
    assert_eq!(provider.get(ty(X)), Some(&Value::Number(7)));
    assert_eq!(provider.get(ty(Y)), Some(&Value::Number(0)));
    assert_eq!(provider.get(ty(A)), None);
    assert_eq!(broken.calls.get(), 1);
    assert_eq!(never.calls.get(), 0);
}

#[test]
fn a_constructor_of_another_shape_than_declared_is_refused() {
    let two_values = Function::new(Behaviour::Give(vec![Value::Number(1), Value::Number(2)]));
    let mut provider: Provider<Function> = Provider::new();
    let _ = provider.register(vec![callable(1, &[], &[X], false, &two_values)]);
    let result = provider.construct(ty(CONTEXT), Value::Context);
    assert!(matches!(result, Err(ProviderError::InvalidConstructorReturn)));
    assert_eq!(provider.get(ty(X)), None);

    let undeclared_error = Function::new(Behaviour::Fail(vec![Value::Number(1)], "e".to_string()));
    let mut provider: Provider<Function> = Provider::new();
    let _ = provider.register(vec![callable(1, &[], &[X], false, &undeclared_error)]);
    let result = provider.construct(ty(CONTEXT), Value::Context);
    assert!(matches!(result, Err(ProviderError::InvalidConstructorReturn)));
    assert_eq!(provider.get(ty(X)), None);
}

#[test]
fn a_later_output_of_the_same_type_wins() {
    let twice = Function::new(Behaviour::Give(vec![Value::Number(1), Value::Number(2)]));
    let mut provider: Provider<Function> = Provider::new();
    let _ = provider.register(vec![callable(1, &[], &[X, X], false, &twice)]);
    assert!(matches!(provider.construct(ty(CONTEXT), Value::Context), Ok(())));
    assert_eq!(provider.get(ty(X)), Some(&Value::Number(2)));
}

#[test]
fn construct_overwrites_the_seed_type_when_a_constructor_makes_it() {
    let remake = Function::new(Behaviour::Give(vec![Value::Number(5)]));
    let mut provider: Provider<Function> = Provider::new();
    let _ = provider.register(vec![callable(1, &[], &[CONTEXT], false, &remake)]);
    assert!(matches!(provider.construct(ty(CONTEXT), Value::Context), Ok(())));
    assert_eq!(provider.get(ty(CONTEXT)), Some(&Value::Number(5)));
}

#[test]
fn run_reports_a_missing_input_without_invoking() {
    let f = Function::new(Behaviour::Sum(0));
    let mut provider: Provider<Function> = Provider::new();
    assert!(matches!(provider.construct(ty(CONTEXT), Value::Context), Ok(())));
    let result = provider.run(ty(Y), &callable(1, &[CONTEXT, X, Z], &[Y], true, &f));
    match result {
        Err(ProviderError::NotProvided { ty: missing }) => assert_eq!(missing, ty(X)),
        _ => panic!("expected a missing input"),
    }
    assert_eq!(f.calls.get(), 0);
}

#[test]
fn just_run_reports_a_missing_input_without_invoking() {
    let f = Function::new(Behaviour::Give(vec![]));
    let provider: Provider<Function> = Provider::new();
    let result = provider.just_run(&callable(1, &[Z], &[], true, &f));
    match result {
        Err(ProviderError::NotProvided { ty: missing }) => assert_eq!(missing, ty(Z)),
        _ => panic!("expected a missing input"),
    }
    assert_eq!(f.calls.get(), 0);
}

#[test]
fn update_reports_a_missing_input_without_invoking() {
    let f = Function::new(Behaviour::Give(vec![Value::Number(1)]));
    let mut provider: Provider<Function> = Provider::new();
    let result = provider.update(&callable(1, &[Z], &[X], false, &f));
    match result {
        Err(ProviderError::NotProvided { ty: missing }) => assert_eq!(missing, ty(Z)),
        _ => panic!("expected a missing input"),
    }
    assert_eq!(f.calls.get(), 0);
    assert_eq!(provider.get(ty(X)), None);
}

#[test]
fn run_asks_for_one_value_and_the_error_channel() {
    let f = Function::new(Behaviour::Sum(0));
    let provider: Provider<Function> = Provider::new();
    let not_fallible = provider.run(ty(Y), &callable(1, &[], &[Y], false, &f));
    assert!(matches!(not_fallible, Err(ProviderError::InvalidFunctionReturn)));
    let other_type = provider.run(ty(Y), &callable(1, &[], &[X], true, &f));
    assert!(matches!(other_type, Err(ProviderError::InvalidFunctionReturn)));
    let two_values = provider.run(ty(Y), &callable(1, &[], &[Y, Y], true, &f));
    assert!(matches!(two_values, Err(ProviderError::InvalidFunctionReturn)));
    let shape_before_inputs = provider.run(ty(Y), &callable(1, &[Z], &[X], true, &f));
    assert!(matches!(shape_before_inputs, Err(ProviderError::InvalidFunctionReturn)));
    assert_eq!(f.calls.get(), 0);
    let plain = provider.run(ty(Y), &Candidate::Plain(Value::Number(1)));
    assert!(matches!(plain, Err(ProviderError::NotAFunction)));
}

#[test]
fn run_hands_on_the_error_of_the_function() {
    let f = Function::new(Behaviour::Fail(vec![Value::Number(0)], "boom".to_string()));
    let provider: Provider<Function> = Provider::new();
    let result = provider.run(ty(Y), &callable(1, &[], &[Y], true, &f));
    match result {
        Err(ProviderError::Failed(error)) => assert_eq!(error, "boom"),
        _ => panic!("expected the function's error"),
    }
}

#[test]
fn run_refuses_an_outcome_of_another_shape() {
    let f = Function::new(Behaviour::Give(vec![]));
    let provider: Provider<Function> = Provider::new();
    let result = provider.run(ty(Y), &callable(1, &[], &[Y], true, &f));
    assert!(matches!(result, Err(ProviderError::InvalidFunctionReturn)));
}

#[test]
fn just_run_runs_for_effect() {
    let f = Function::new(Behaviour::Give(vec![]));
    let mut provider: Provider<Function> = Provider::new();
    assert!(matches!(provider.construct(ty(CONTEXT), Value::Context), Ok(())));
    let result = provider.just_run(&callable(1, &[CONTEXT], &[], true, &f));
    assert!(matches!(result, Ok(())));
    assert_eq!(f.calls.get(), 1);

    let with_value = provider.just_run(&callable(1, &[], &[X], true, &f));
    assert!(matches!(with_value, Err(ProviderError::InvalidFunctionReturn)));
    let no_channel = provider.just_run(&callable(1, &[], &[], false, &f));
    assert!(matches!(no_channel, Err(ProviderError::InvalidFunctionReturn)));
    let plain = provider.just_run(&Candidate::Plain(Value::Context));
    assert!(matches!(plain, Err(ProviderError::NotAFunction)));
    assert_eq!(f.calls.get(), 1);

    let failing = Function::new(Behaviour::Fail(vec![], "down".to_string()));
    let result = provider.just_run(&callable(1, &[], &[], true, &failing));
    match result {
        Err(ProviderError::Failed(error)) => assert_eq!(error, "down"),
        _ => panic!("expected the function's error"),
    }
}

#[test]
fn update_replaces_instances() {
    let make_x = Function::new(Behaviour::Give(vec![Value::Number(7)]));
    let mut provider: Provider<Function> = Provider::new();
    let _ = provider.register(vec![callable(1, &[], &[X], false, &make_x)]);
    assert!(matches!(provider.construct(ty(CONTEXT), Value::Context), Ok(())));

    let refresh = Function::new(Behaviour::Give(vec![
        Value::Number(8),
        Value::Text("new".to_string()),
    ]));
    let result = provider.update(&callable(2, &[X], &[X, Y], false, &refresh));
    assert!(matches!(result, Ok(())));
    assert_eq!(provider.get(ty(X)), Some(&Value::Number(8)));
    assert_eq!(provider.get(ty(Y)), Some(&Value::Text("new".to_string())));
    assert_eq!(provider.get(ty(CONTEXT)), Some(&Value::Context));

    let plain = provider.update(&Candidate::Plain(Value::Context));
    assert!(matches!(plain, Err(ProviderError::NotAFunction)));
    assert_eq!(provider.get(ty(X)), Some(&Value::Number(8)));
}

#[test]
fn update_stores_the_values_and_hands_on_the_error() {
    let failing = Function::new(Behaviour::Fail(vec![Value::Number(3)], "late".to_string()));
    let mut provider: Provider<Function> = Provider::new();
    let result = provider.update(&callable(1, &[], &[X], true, &failing));
    match result {
        Err(ProviderError::Failed(error)) => assert_eq!(error, "late"),
        _ => panic!("expected the function's error"),
    }
    assert_eq!(provider.get(ty(X)), Some(&Value::Number(3)));

    let misshapen = Function::new(Behaviour::Give(vec![]));
    let result = provider.update(&callable(1, &[], &[X], true, &misshapen));
    assert!(matches!(result, Err(ProviderError::InvalidFunctionReturn)));
    assert_eq!(provider.get(ty(X)), Some(&Value::Number(3)));
}

#[test]
fn a_failed_constructor_stays_pending() {
    let broken = Function::new(Behaviour::Fail(vec![], "first".to_string()));
    let mut provider: Provider<Function> = Provider::new();
    let _ = provider.register(vec![callable(1, &[], &[], true, &broken)]);
    assert!(matches!(
        provider.construct(ty(CONTEXT), Value::Context),
        Err(ProviderError::Failed(_))
    ));
    assert!(matches!(
        provider.construct(ty(CONTEXT), Value::Context),
        Err(ProviderError::Failed(_))
    ));
    assert_eq!(broken.calls.get(), 2);
}

#[test]
fn settle_stores_and_removes() {
    let f = Function::new(Behaviour::Give(vec![]));
    let mut provider: Provider<Function> = Provider::new();
    let _ = provider.register(vec![
        callable(1, &[], &[X], false, &f),
        callable(2, &[], &[Y], true, &f),
    ]);
    let settled = provider.settle(0, Outcome::new(vec![Value::Number(4)], None));
    assert!(matches!(settled, Ok(())));
    assert_eq!(provider.get(ty(X)), Some(&Value::Number(4)));
    let failed = provider.settle(0, Outcome::new(vec![Value::Number(5)], Some("e".to_string())));
    assert!(matches!(failed, Err(ProviderError::Failed(_))));
    assert_eq!(provider.get(ty(Y)), Some(&Value::Number(5)));
    let refused = provider.settle(0, Outcome::new(vec![], None));
    assert!(matches!(refused, Err(ProviderError::InvalidConstructorReturn)));
    assert_eq!(f.calls.get(), 0);
}

#[test]
fn resolve_hands_out_the_instances_in_order() {
    let mut provider: Provider<Function> = Provider::new();
    let give = Function::new(Behaviour::Give(vec![Value::Number(1), Value::Number(2)]));
    assert!(matches!(provider.update(&callable(1, &[], &[X, Y], false, &give)), Ok(())));
    let found = provider.resolve(&types(&[Y, X, Y]));
    assert_eq!(
        found,
        Ok(vec![&Value::Number(2), &Value::Number(1), &Value::Number(2)])
    );
    assert_eq!(provider.resolve(&types(&[X, Z, A])), Err(ty(Z)));
    assert_eq!(provider.resolve(&types(&[])), Ok(vec![]));
}
