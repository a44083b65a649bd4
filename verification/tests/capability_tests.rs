use di_registry::capability::{Capability, Provider, Transform};
use di_registry::registry::{Dependencies, Error};
use di_registry::value::{Kind, Value};

fn text_value(v: &Value) -> &str {
    match v {
        Value::Text(s) => s.as_str(),
        _ => panic!("expected a text value"),
    }
}

#[test]
fn basic_di() {
    let mut deps = Dependencies::new();
    let my_binding = Capability::new("MyBinding", Kind::Text);
    my_binding.put(&mut deps, Value::Text("FooBar".to_string())).ok().unwrap();

    let bound = match my_binding.get(&deps) {
        Ok(v) => v,
        Err(_) => panic!("the binding was stored"),
    };
    assert_eq!(text_value(&bound), "FooBar");

    let my_provided_binding = Provider {
        source: Capability::new("MyBinding", Kind::Text),
        transform: Transform::TextPrefix(3),
    };
    let provided = match my_provided_binding.get(&deps) {
        Ok(v) => v,
        Err(_) => panic!("the provider derives from the stored binding"),
    };
    assert_eq!(text_value(&provided), "Foo");
}

#[test]
fn access_before_bound_is_missing() {
    let deps = Dependencies::new();
    let cap = Capability::new("MyBinding", Kind::Text);
    match cap.get(&deps) {
        Err(Error::MissingBinding { key }) => assert_eq!(key, "MyBinding"),
        _ => panic!("an unbound capability reports a missing binding"),
    }
}

#[test]
fn rebinding_is_rejected() {
    let mut deps = Dependencies::new();
    let cap = Capability::new("C", Kind::Text);
    cap.put(&mut deps, Value::Text("first".to_string())).ok().unwrap();
    match cap.put(&mut deps, Value::Text("second".to_string())) {
        Err(Error::DuplicateBinding { key, existing, attempted }) => {
            assert_eq!(key, "C");
            assert_eq!(text_value(&existing), "first");
            assert_eq!(text_value(&attempted), "second");
        },
        _ => panic!("a capability is bound at most once"),
    }
    match cap.get(&deps) {
        Ok(v) => assert_eq!(text_value(&v), "first"),
        Err(_) => panic!("the first binding remains"),
    }
}

#[test]
fn put_asserts_the_shape_centrally() {
    let mut deps = Dependencies::new();
    let cap = Capability::new("C", Kind::Text);
    match cap.put(&mut deps, Value::Int(3)) {
        Err(Error::TypeMismatch { key, expected, actual }) => {
            assert_eq!(key, "C");
            assert_eq!(expected, Kind::Text);
            assert_eq!(actual, Kind::Int);
        },
        _ => panic!("a wrong shape is turned away at the store"),
    }
    assert!(matches!(cap.get(&deps), Err(Error::MissingBinding { .. })));
}

#[test]
fn provider_recomputes_without_caching() {
    let mut deps = Dependencies::new();
    let cap = Capability::new("T", Kind::Text);
    cap.put(&mut deps, Value::Text("abcdef".to_string())).ok().unwrap();
    let p = Provider {
        source: Capability::new("T", Kind::Text),
        transform: Transform::TextPrefix(4),
    };
    for _ in 0..2 {
        match p.get(&deps) {
            Ok(v) => assert_eq!(text_value(&v), "abcd"),
            Err(_) => panic!("the source is bound"),
        }
    }
}

#[test]
fn provider_prefix_clamps_to_length() {
    let mut deps = Dependencies::new();
    let cap = Capability::new("T", Kind::Text);
    cap.put(&mut deps, Value::Text("ab".to_string())).ok().unwrap();
    let p = Provider {
        source: Capability::new("T", Kind::Text),
        transform: Transform::TextPrefix(10),
    };
    match p.get(&deps) {
        Ok(v) => assert_eq!(text_value(&v), "ab"),
        Err(_) => panic!("the source is bound"),
    }
}
