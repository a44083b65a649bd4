use di_registry::registry::Dependencies;
use di_registry::value::{Kind, SharedCounter, Value};

#[test]
fn shared_counter_single_storage_semantics() {
    let mut deps = Dependencies::new();
    deps.register("count", Value::Shared(SharedCounter::new(0))).ok().unwrap();

    let handle_a = match deps.resolve("count", Kind::Shared) {
        Ok(Value::Shared(c)) => c,
        _ => panic!("the counter was registered"),
    };
    let handle_b = match deps.resolve("count", Kind::Shared) {
        Ok(Value::Shared(c)) => c,
        _ => panic!("the counter was registered"),
    };

    let (seen, written) = handle_a.increment();
    assert_eq!(seen, 0);
    assert_eq!(written, 1);
    assert_eq!(handle_a.get(), 1);
    assert_eq!(handle_b.get(), 1);
}

#[test]
fn shared_counter_set_and_get() {
    let c = SharedCounter::new(5);
    let d = c.handle();
    c.set(9);
    assert_eq!(d.get(), 9);
}

#[test]
fn shared_counter_wraps_at_the_top() {
    let c = SharedCounter::new(u64::MAX);
    let (seen, written) = c.increment();
    assert_eq!(seen, u64::MAX);
    assert_eq!(written, 0);
}
