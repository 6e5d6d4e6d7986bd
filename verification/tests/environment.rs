use kala::environment_record::{EnvironmentRecord, JSValue, Variable};

#[test]
fn environment_record_scope_test_simple() {
    let scope = &mut EnvironmentRecord::new();

    let declare_let = |scope: &mut EnvironmentRecord, name: &str, value: Option<JSValue>| {
        let _ = scope.initialize_mutable_binding(&name.to_string(), value);
    };

    let declare_const = |scope: &mut EnvironmentRecord, name: &str, value: Option<JSValue>| {
        let _ = scope.initialize_immutable_binding(&name.to_string(), value);
    };

    let set_var = |scope: &mut EnvironmentRecord, name: &str, value: JSValue| {
        scope.set_mutable_binding(&name.to_string(), value).unwrap();
    };

    let assert_error = |scope: &mut EnvironmentRecord, name: &str| {
        assert!(scope.get_mutable_binding(&name.to_string()).is_err());
    };

    let assert_var = |scope: &mut EnvironmentRecord, name: &str, value: JSValue| {
        assert_eq!(scope.resolve_binding(&name.to_string()), value);
    };

    println!("1");
    declare_let(scope, "a", Some(JSValue::number(1)));
    assert_var(scope, "a", JSValue::number(1));

    println!("2");
    declare_const(scope, "b", Some(JSValue::number(2)));
    assert_var(scope, "b", JSValue::number(2));

    println!("3");
    set_var(scope, "a", JSValue::number(3));
    assert_var(scope, "a", JSValue::number(3));

    println!("4");
    assert_error(scope, "b"); // error on const variable set

    println!("5");
    declare_let(scope, "c", None);
    assert_var(scope, "c", JSValue::undefined());

    println!("6");
    set_var(scope, "c", JSValue::number(4));
    assert_var(scope, "c", JSValue::number(4));

    println!("7");
    scope.enter();
    {
        println!("8");
        assert_var(scope, "a", JSValue::number(3));
        declare_const(scope, "a", Some(JSValue::number(11)));
        assert_var(scope, "a", JSValue::number(11));

        println!("9");
        assert_var(scope, "b", JSValue::number(2));
        declare_let(scope, "b", Some(JSValue::number(12)));
        assert_var(scope, "b", JSValue::number(12));

        println!("10");
        assert_error(scope, "x"); // error on undeclared variable
        declare_let(scope, "x", Some(JSValue::number(13)));
        assert_var(scope, "x", JSValue::number(13));

        println!("11");
        assert_var(scope, "c", JSValue::number(4));
        set_var(scope, "c", JSValue::number(14));
        assert_var(scope, "c", JSValue::number(14));
    };

    println!("11");
    scope.exit();

    println!("12");
    assert_var(scope, "a", JSValue::number(3));
    assert_var(scope, "b", JSValue::number(2));
    assert_var(scope, "c", JSValue::number(14));
    assert_error(scope, "x"); // error on undeclared variable

    set_var(scope, "a", JSValue::number(5));
    assert_var(scope, "a", JSValue::number(5));
    assert_error(scope, "b"); // error on const variable set
}

#[test]
fn environment_errors_and_messages() {
    let mut env = EnvironmentRecord::new();
    assert_eq!(env.depth(), 1);
    let x = "x".to_string();
    assert_eq!(
        env.get_mutable_binding(&x).unwrap_err(),
        "ReferenceError: x is not defined"
    );
    assert_eq!(
        env.get_immutable_binding(&x).unwrap_err(),
        "ReferenceError: x is not defined"
    );
    env.initialize_immutable_binding(&x, Some(JSValue::number(1))).unwrap();
    assert_eq!(
        env.set_mutable_binding(&x, JSValue::number(2)).unwrap_err(),
        "Cannot assign to constant variable x"
    );
    assert_eq!(
        env.initialize_mutable_binding(&x, None).unwrap_err(),
        "SyntaxError: redeclaration of formal parameter \"x\""
    );
    assert_eq!(env.get_immutable_binding(&x).unwrap(), Variable::new(JSValue::number(1), false));
    assert_eq!(env.resolve_binding(&"y".to_string()), JSValue::undefined());
}

#[test]
fn environment_exit_restores() {
    let mut env = EnvironmentRecord::new();
    let a = "a".to_string();
    let b = "b".to_string();
    env.initialize_mutable_binding(&a, Some(JSValue::number(1))).unwrap();
    env.enter();
    assert_eq!(env.depth(), 2);
    env.initialize_mutable_binding(&a, Some(JSValue::number(2))).unwrap();
    env.initialize_mutable_binding(&b, Some(JSValue::number(3))).unwrap();
    assert_eq!(env.resolve_binding(&a), JSValue::number(2));
    env.exit();
    assert_eq!(env.depth(), 1);
    assert_eq!(env.resolve_binding(&a), JSValue::number(1));
    assert!(env.get_immutable_binding(&b).is_err());
}

#[test]
fn environment_closure() {
    let mut env = EnvironmentRecord::new();
    let a = "a".to_string();
    env.initialize_mutable_binding(&a, Some(JSValue::number(7))).unwrap();
    let inner = env.closure(vec![a.clone()]).unwrap();
    assert_eq!(inner.resolve_binding(&a), JSValue::number(7));
    assert_eq!(inner.depth(), 1);
    assert!(env.closure(vec!["missing".to_string()]).is_none());
    let mut v = Variable::new(JSValue::number(1), true);
    v.set(JSValue::number(2));
    assert_eq!(v.get(), JSValue::number(2));
    assert!(v.is_mutable());
}

#[test]
fn environment_assigns_through_mutable_binding() {
    let mut env = EnvironmentRecord::new();
    let y = "y".to_string();
    env.initialize_mutable_binding(&y, Some(JSValue::number(1))).unwrap();
    {
        let var = env.get_mutable_binding(&y).unwrap();
        assert_eq!(var.get(), JSValue::number(1));
        var.set(JSValue::number(7));
    }
    assert_eq!(env.resolve_binding(&y), JSValue::number(7));
}
