use stack::provider::descriptor::{Signature, TypeDescriptor};
use stack::provider::error::ProviderError;
use stack::provider::function::{Candidate, Constructor, Invoke, Outcome};
use stack::provider::guard::SharedProvider;
use std::sync::atomic::{AtomicU64, Ordering};
use std::sync::Arc;

const SEED: u64 = 0;
const LEFT: u64 = 1;
const RIGHT: u64 = 2;
const SAME: u64 = 3;

fn ty(id: u64) -> TypeDescriptor {
    TypeDescriptor::new(id)
}

#[derive(Clone)]
enum Step {
    /// Hands back the next number of the counter, twice.
    Pair(Arc<AtomicU64>),
    /// Hands back 1 if its two inputs are equal, else 0.
    Compare,
    /// Hands back nothing.
    Nothing,
}

impl Invoke for Step {
    type Value = u64;
    type Error = String;

    fn invoke(&self, args: &Vec<&u64>) -> Outcome<u64, String> {
        match self {
            Step::Pair(counter) => {
                let n = counter.fetch_add(1, Ordering::SeqCst) + 1;
                Outcome::new(vec![n, n], None)
            }
            Step::Compare => {
                let same = if args[0] == args[1] { 1 } else { 0 };
                Outcome::new(vec![same], None)
            }
            Step::Nothing => Outcome::new(vec![], None),
        }
    }
}

fn callable(id: u64, inputs: &[u64], outputs: &[u64], fallible: bool, step: Step) -> Candidate<Step> {
    Candidate::Callable(Constructor::new(
        id,
        Signature::new(
            inputs.iter().map(|i| ty(*i)).collect(),
            outputs.iter().map(|o| ty(*o)).collect(),
            fallible,
        ),
        step,
    ))
}

#[test]
fn a_guarded_container_works_like_a_plain_one() {
    let shared: SharedProvider<Step> = SharedProvider::new();
    assert_eq!(shared.get(ty(LEFT)), None);
    let counter = Arc::new(AtomicU64::new(0));
    let registered = shared.register(vec![callable(
        1,
        &[SEED],
        &[LEFT, RIGHT],
        false,
        Step::Pair(counter.clone()),
    )]);
    assert!(matches!(registered, Ok(())));
    assert!(matches!(shared.construct(ty(SEED), 99), Ok(())));
    assert_eq!(shared.get(ty(SEED)), Some(99));
    assert_eq!(shared.get(ty(LEFT)), Some(1));
    assert_eq!(shared.get(ty(RIGHT)), Some(1));

    let compare = callable(2, &[LEFT, RIGHT], &[SAME], true, Step::Compare);
    assert!(matches!(shared.run(ty(SAME), &compare), Ok(1)));
    assert_eq!(shared.get(ty(SAME)), None);

    let refresh = callable(3, &[], &[LEFT, RIGHT], false, Step::Pair(counter.clone()));
    assert!(matches!(shared.update(&refresh), Ok(())));
    assert_eq!(shared.get(ty(LEFT)), Some(2));
    assert_eq!(shared.get(ty(RIGHT)), Some(2));

    let nothing = callable(4, &[SEED], &[], true, Step::Nothing);
    assert!(matches!(shared.just_run(&nothing), Ok(())));
}

#[test]
fn a_guarded_container_reports_the_same_errors() {
    let shared: SharedProvider<Step> = SharedProvider::new();
    let plain = shared.register(vec![Candidate::Plain(5)]);
    assert!(matches!(plain, Err(ProviderError::NotAFunction)));
    let missing = shared.run(ty(SAME), &callable(2, &[LEFT, RIGHT], &[SAME], true, Step::Compare));
    match missing {
        Err(ProviderError::NotProvided { ty: missing }) => assert_eq!(missing, ty(LEFT)),
        _ => panic!("expected a missing input"),
    }
    let missing = shared.just_run(&callable(4, &[SEED], &[], true, Step::Nothing));
    assert!(matches!(missing, Err(ProviderError::NotProvided { .. })));
    let missing = shared.update(&callable(4, &[SEED], &[], true, Step::Nothing));
    assert!(matches!(missing, Err(ProviderError::NotProvided { .. })));
    let _ = shared.register(vec![
        callable(1, &[LEFT], &[RIGHT], false, Step::Nothing),
        callable(2, &[RIGHT], &[LEFT], false, Step::Nothing),
    ]);
    match shared.construct(ty(SEED), 1) {
        Err(ProviderError::MaybeCyclicDependency { stuck }) => assert_eq!(stuck, vec![1, 2]),
        _ => panic!("expected a cyclic dependency"),
    }
    assert_eq!(shared.get(ty(LEFT)), None);
    assert_eq!(shared.get(ty(RIGHT)), None);
}

#[test]
fn readers_see_the_outputs_of_an_update_together() {
    let shared: Arc<SharedProvider<Step>> = Arc::new(SharedProvider::new());
    let counter = Arc::new(AtomicU64::new(0));
    let refresh = callable(1, &[], &[LEFT, RIGHT], false, Step::Pair(counter.clone()));
    let compare = callable(2, &[LEFT, RIGHT], &[SAME], true, Step::Compare);
    let writer = shared.clone();
    let reader = shared.clone();
    for round in 1..=200u64 {
        assert!(matches!(writer.update(&refresh), Ok(())));
        assert!(matches!(reader.run(ty(SAME), &compare), Ok(1)));
        assert_eq!(reader.get(ty(LEFT)), Some(round));
        assert_eq!(reader.get(ty(RIGHT)), Some(round));
    }
    assert_eq!(counter.load(Ordering::SeqCst), 200);
}
