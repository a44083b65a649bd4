use di_registry::registry::{Constructor, Dependencies, Error, Resolve};
use di_registry::value::{Kind, Value};

fn int_value(v: &Value) -> i64 {
    match v {
        Value::Int(i) => *i,
        _ => panic!("expected an integer value"),
    }
}

#[test]
fn missing_key_resolve_fails_but_run_constructors_is_empty() {
    let deps = Dependencies::new();
    match deps.resolve("nothing", Kind::Int) {
        Err(Error::MissingBinding { key }) => assert_eq!(key, "nothing"),
        _ => panic!("expected a missing binding"),
    }
    match deps.run_constructors("nothing", Value::Int(7)) {
        Ok(scope) => {
            assert_eq!(int_value(&scope.parent), 7);
            assert_eq!(scope.children.len(), 0);
        },
        Err(_) => panic!("an empty fan-out is not an error"),
    }
}

#[test]
fn resolve_returns_registered_value_and_checks_kind() {
    let mut deps = Dependencies::new();
    deps.register("answer", Value::Int(42)).ok().unwrap();
    match deps.resolve("answer", Kind::Int) {
        Ok(v) => assert_eq!(int_value(&v), 42),
        Err(_) => panic!("expected the registered value"),
    }
    match deps.resolve("answer", Kind::Text) {
        Err(Error::TypeMismatch { key, expected, actual }) => {
            assert_eq!(key, "answer");
            assert_eq!(expected, Kind::Text);
            assert_eq!(actual, Kind::Int);
        },
        _ => panic!("expected a type mismatch"),
    }
}

#[test]
fn duplicate_binding_is_rejected_and_original_kept() {
    let mut deps = Dependencies::new();
    deps.register("k", Value::Int(1)).ok().unwrap();
    match deps.register("k", Value::Int(2)) {
        Err(Error::DuplicateBinding { key, existing, attempted }) => {
            assert_eq!(key, "k");
            assert_eq!(int_value(&existing), 1);
            assert_eq!(int_value(&attempted), 2);
        },
        _ => panic!("expected a conflict"),
    }
    match deps.resolve("k", Kind::Int) {
        Ok(v) => assert_eq!(int_value(&v), 1),
        Err(_) => panic!("the original binding must remain"),
    }
}

#[test]
fn constructors_fire_in_registration_order() {
    let mut deps = Dependencies::new();
    deps.add("k", Constructor::Const(Value::Int(1)));
    deps.add("k", Constructor::Const(Value::Int(2)));
    deps.add("k", Constructor::Const(Value::Int(3)));
    let scope = match deps.run_constructors("k", Value::Int(0)) {
        Ok(s) => s,
        Err(_) => panic!("all three constructors succeed"),
    };
    let got: Vec<i64> = scope.children.iter().map(int_value).collect();
    assert_eq!(got, vec![1, 2, 3]);
}

#[test]
fn nested_resolution_completes_depth_first() {
    let mut deps = Dependencies::new();
    deps.add("inner", Constructor::Const(Value::Int(10)));
    deps.add("inner", Constructor::WrapParent);
    deps.add(
        "outer",
        Constructor::Nested { key: "inner".to_string(), seed: Value::Int(5) },
    );
    deps.add("outer", Constructor::Const(Value::Int(99)));
    let scope = match deps.run_constructors("outer", Value::Int(0)) {
        Ok(s) => s,
        Err(_) => panic!("resolution succeeds"),
    };
    assert_eq!(scope.children.len(), 2);
    match &scope.children[0] {
        Value::Tree { parent, children } => {
            assert_eq!(int_value(parent), 5);
            assert_eq!(children.len(), 2);
            assert_eq!(int_value(&children[0]), 10);
            match &children[1] {
                Value::Wrap(inner) => assert_eq!(int_value(inner), 5),
                _ => panic!("the second inner child wraps the inner seed"),
            }
        },
        _ => panic!("the nested scope is fully embedded in the first child"),
    }
    assert_eq!(int_value(&scope.children[1]), 99);
}

#[test]
fn end_to_end_derived_child_embeds_base() {
    let mut deps = Dependencies::new();
    deps.register("base", Value::Int(1)).ok().unwrap();
    deps.add("derived", Constructor::WrapParent);
    let seed = match deps.resolve("base", Kind::Int) {
        Ok(v) => v,
        Err(_) => panic!("base was registered"),
    };
    let scope = match deps.run_constructors("derived", seed) {
        Ok(s) => s,
        Err(_) => panic!("resolution succeeds"),
    };
    assert_eq!(scope.children.len(), 1);
    match &scope.children[0] {
        Value::Wrap(b) => assert_eq!(int_value(b), 1),
        _ => panic!("the child embeds the base value"),
    }
}

#[test]
fn resolve_trait_consumes_the_parent() {
    let mut deps = Dependencies::new();
    deps.add("k", Constructor::WrapParent);
    let scope = match Value::Int(8).resolve("k", &deps) {
        Ok(s) => s,
        Err(_) => panic!("resolution succeeds"),
    };
    assert_eq!(int_value(&scope.parent), 8);
    assert_eq!(scope.children.len(), 1);
}

#[test]
fn constructor_reading_missing_binding_fails_whole_fanout() {
    let mut deps = Dependencies::new();
    deps.add("k", Constructor::Const(Value::Int(1)));
    deps.add("k", Constructor::UseBinding("absent".to_string()));
    match deps.run_constructors("k", Value::Int(0)) {
        Err(Error::ConstructorFailure { key, cause }) => {
            assert_eq!(key, "k");
            match *cause {
                Error::MissingBinding { key: inner } => assert_eq!(inner, "absent"),
                _ => panic!("the cause is the missing binding"),
            }
        },
        _ => panic!("a failing constructor fails the fan-out as a whole"),
    }
}

#[test]
fn constructor_cycle_is_reported_not_followed() {
    let mut deps = Dependencies::new();
    deps.add(
        "loop",
        Constructor::Nested { key: "loop".to_string(), seed: Value::Int(0) },
    );
    let mut err = match deps.run_constructors("loop", Value::Int(0)) {
        Err(e) => e,
        Ok(_) => panic!("a cycle among constructor keys must be reported"),
    };
    loop {
        match err {
            Error::ConstructorFailure { key, cause } => {
                assert_eq!(key, "loop");
                err = *cause;
            },
            Error::DepthExceeded { key } => {
                assert_eq!(key, "loop");
                break;
            },
            _ => panic!("the chain ends at the depth bound"),
        }
    }
}

#[test]
fn use_binding_copies_the_bound_value() {
    let mut deps = Dependencies::new();
    deps.register("source", Value::Text("hello".to_string())).ok().unwrap();
    deps.add("k", Constructor::UseBinding("source".to_string()));
    let scope = match deps.run_constructors("k", Value::Int(0)) {
        Ok(s) => s,
        Err(_) => panic!("the binding exists"),
    };
    match &scope.children[0] {
        Value::Text(s) => assert_eq!(s, "hello"),
        _ => panic!("the child copies the bound text"),
    }
}

#[test]
fn repeated_runs_rebuild_from_scratch() {
    let mut deps = Dependencies::new();
    deps.add("k", Constructor::Const(Value::Int(4)));
    for _ in 0..3 {
        let scope = match deps.run_constructors("k", Value::Int(0)) {
            Ok(s) => s,
            Err(_) => panic!("resolution succeeds"),
        };
        assert_eq!(scope.children.len(), 1);
        assert_eq!(int_value(&scope.children[0]), 4);
    }
}
