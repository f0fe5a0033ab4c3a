use stack::provider::descriptor::{Signature, TypeDescriptor};
use stack::provider::function::{Constructor, Invoke, Outcome};
use stack::provider::registry::{declares, Registry};
use stack::provider::store::ValueStore;

fn ty(id: u64) -> TypeDescriptor {
    TypeDescriptor::new(id)
}

fn constructor(id: u64, inputs: &[u64]) -> Constructor<u8> {
    Constructor::new(
        id,
        Signature::new(inputs.iter().map(|i| ty(*i)).collect(), vec![], false),
        0,
    )
}

#[test]
fn store_holds_one_instance_per_type() {
    let mut store: ValueStore<&str> = ValueStore::new();
    assert_eq!(store.get(ty(1)), None);
    assert!(!store.contains(ty(1)));
    store.insert(ty(1), "first");
    store.insert(ty(2), "other");
    store.insert(ty(1), "second");
    assert_eq!(store.get(ty(1)), Some(&"second"));
    assert_eq!(store.get(ty(2)), Some(&"other"));
    assert!(store.contains(ty(2)));
    assert!(!store.contains(ty(3)));
}

#[test]
fn insert_all_writes_position_by_position() {
    let mut store: ValueStore<u32> = ValueStore::new();
    store.insert(ty(1), 0);
    store.insert_all(&vec![ty(1), ty(2), ty(1)], vec![10, 20, 30]);
    assert_eq!(store.get(ty(1)), Some(&30));
    assert_eq!(store.get(ty(2)), Some(&20));
    store.insert_all(&vec![ty(3)], vec![1, 2, 3]);
    assert_eq!(store.get(ty(3)), Some(&1));
    store.insert_all(&vec![ty(4), ty(5)], vec![7]);
    assert_eq!(store.get(ty(4)), Some(&7));
    assert_eq!(store.get(ty(5)), None);
    store.insert_all(&vec![], vec![]);
    assert_eq!(store.get(ty(1)), Some(&30));
}

#[test]
fn descriptors_are_equal_by_identity() {
    assert_eq!(ty(4), ty(4));
    assert_ne!(ty(4), ty(5));
    assert_eq!(ty(4).id, 4);
}

#[test]
fn signature_shapes() {
    let one = Signature::new(vec![], vec![ty(1)], true);
    assert!(one.yields_one(ty(1)));
    assert!(!one.yields_one(ty(2)));
    assert!(!one.yields_nothing());
    assert!(!Signature::new(vec![], vec![ty(1)], false).yields_one(ty(1)));
    assert!(!Signature::new(vec![], vec![ty(1), ty(1)], true).yields_one(ty(1)));
    assert!(Signature::new(vec![ty(1)], vec![], true).yields_nothing());
    assert!(!Signature::new(vec![], vec![], false).yields_nothing());
}

#[test]
fn outcome_shape() {
    let fallible = Signature::new(vec![], vec![ty(1)], true);
    let infallible = Signature::new(vec![], vec![ty(1)], false);
    let plain: Outcome<u8, u8> = Outcome::new(vec![1], None);
    let failed: Outcome<u8, u8> = Outcome::new(vec![1], Some(2));
    let short: Outcome<u8, u8> = Outcome::new(vec![], None);
    assert!(plain.has_shape(&fallible));
    assert!(plain.has_shape(&infallible));
    assert!(failed.has_shape(&fallible));
    assert!(!failed.has_shape(&infallible));
    assert!(!short.has_shape(&fallible));
}

#[test]
fn registry_keeps_each_identity_once() {
    let mut registry: Registry<u8> = Registry::new();
    assert_eq!(registry.len(), 0);
    registry.enlist(constructor(7, &[1, 2]));
    registry.enlist(constructor(8, &[2]));
    registry.enlist(constructor(7, &[3]));
    registry.enlist(constructor(9, &[]));
    assert_eq!(registry.len(), 3);
    assert_eq!(registry.ids(), vec![7, 8, 9]);
    assert!(registry.knows(8));
    assert!(!registry.knows(1));
    assert_eq!(registry.get(0).signature.inputs, vec![ty(1), ty(2)]);
    assert_eq!(registry.consumers(ty(2)), vec![7, 8]);
    assert_eq!(registry.consumers(ty(1)), vec![7]);
    assert_eq!(registry.consumers(ty(3)), Vec::<u64>::new());
    let removed = registry.remove(0);
    assert_eq!(removed.id, 7);
    assert_eq!(registry.ids(), vec![8, 9]);
    assert_eq!(registry.consumers(ty(2)), vec![8]);
    assert!(!registry.knows(7));
}

#[test]
fn declares_looks_for_a_type() {
    assert!(declares(&vec![ty(1), ty(2)], ty(2)));
    assert!(!declares(&vec![ty(1), ty(2)], ty(3)));
    assert!(!declares(&vec![], ty(3)));
}

struct Doubler;

impl Invoke for Doubler {
    type Value = u64;
    type Error = String;

    fn invoke(&self, args: &Vec<&u64>) -> Outcome<u64, String> {
        Outcome::new(vec![*args[0] * 2], None)
    }
}

#[test]
fn a_function_is_invoked_on_its_arguments() {
    let x = 21u64;
    let out = Doubler.invoke(&vec![&x]);
    assert_eq!(out.values, vec![42]);
    let sig = Signature::new(vec![TypeDescriptor::new(1)], vec![TypeDescriptor::new(2)], true);
    assert!(out.has_shape(&sig));
}

