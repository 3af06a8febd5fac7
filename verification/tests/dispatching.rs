//! The dispatch bridge: trampoline resolution, the automatic duplication
//! method, and the conversion of abnormal host termination.

use mrusty::{HostOutcome, MethodCall, Mruby, PanicPayload, TypeToken};

#[derive(Clone, Copy, PartialEq, Debug)]
struct Cont {
    value: i32,
}

#[test]
fn dispatch_resolves_a_host_method() {
    let mut mruby: Mruby<Cont> = Mruby::new();
    let token = TypeToken(1);
    mruby.def_class(token, "Cont");
    mruby.def_method(token, "job", 42);

    let sym = mruby.intern("job");
    let receiver = mruby.obj(token, Cont { value: 2 });

    match mruby.call_method(token, sym, receiver) {
        MethodCall::Run { method, receiver } => {
            assert_eq!(method, 42);
            assert_eq!(*receiver.to_obj(&mruby, token).unwrap(), Cont { value: 2 });
        },
        MethodCall::Done(_) => panic!("expected the host closure to be handed back"),
    }
}

#[test]
fn dispatch_resolves_a_class_method() {
    let mut mruby: Mruby<Cont> = Mruby::new();
    let token = TypeToken(1);
    mruby.def_class(token, "Cont");
    mruby.def_class_method(token, "job", 7);

    let sym = mruby.intern("job");
    let receiver = mruby.nil();

    match mruby.call_class_method(token, sym, receiver) {
        MethodCall::Run { method, .. } => assert_eq!(method, 7),
        MethodCall::Done(_) => panic!("expected the host closure to be handed back"),
    }
}

#[test]
fn dispatch_unknown_class_raises() {
    let mut mruby: Mruby<Cont> = Mruby::new();
    let sym = mruby.intern("job");
    let receiver = mruby.nil();

    match mruby.call_method(TypeToken(9), sym, receiver) {
        MethodCall::Done(v) => assert_eq!(v.to_bool().unwrap(), false),
        _ => panic!("expected completion"),
    }
    let exc = mruby.exception.as_ref().unwrap();
    assert_eq!(exc.class, "TypeError");
    assert_eq!(exc.message, "Class not found.");
}

#[test]
fn dispatch_unknown_method_raises() {
    let mut mruby: Mruby<Cont> = Mruby::new();
    let token = TypeToken(1);
    mruby.def_class(token, "Cont");

    let sym = mruby.intern("absent");
    let receiver = mruby.obj(token, Cont { value: 2 });

    match mruby.call_method(token, sym, receiver) {
        MethodCall::Done(_) => {},
        _ => panic!("expected completion"),
    }
    let exc = mruby.exception.as_ref().unwrap();
    assert_eq!(exc.class, "TypeError");
    assert_eq!(exc.message, "Method not found.");
}

#[test]
fn dispatch_automatic_dup() {
    let mut mruby: Mruby<Cont> = Mruby::new();
    let token = TypeToken(1);
    mruby.def_class(token, "Cont");

    let sym = mruby.intern("dup");
    let receiver = mruby.obj(token, Cont { value: 5 });

    match mruby.call_method(token, sym, receiver) {
        MethodCall::Done(copy) => {
            assert_eq!(*copy.to_obj(&mruby, token).unwrap(), Cont { value: 5 });
        },
        _ => panic!("expected the duplication to complete inside the bridge"),
    }
}

#[test]
fn panic_with_text_becomes_a_script_exception() {
    let mut mruby: Mruby<Cont> = Mruby::new();

    let result = mruby.finish_method(HostOutcome::Panicked(PanicPayload::Text(String::from(
        "host gave up",
    ))));

    assert_eq!(result.to_bool().unwrap(), false);
    let exc = mruby.exception.as_ref().unwrap();
    assert_eq!(exc.class, "RustPanic");
    assert_eq!(exc.message, "host gave up");
}

#[test]
fn opaque_panic_becomes_an_empty_message() {
    let mut mruby: Mruby<Cont> = Mruby::new();

    mruby.finish_method(HostOutcome::Panicked(PanicPayload::Opaque));

    let exc = mruby.exception.as_ref().unwrap();
    assert_eq!(exc.class, "RustPanic");
    assert_eq!(exc.message, "");
}

#[test]
fn normal_return_passes_through() {
    let mut mruby: Mruby<Cont> = Mruby::new();

    let value = mruby.fixnum(3);
    let result = mruby.finish_method(HostOutcome::Returned(value));

    assert_eq!(result.to_i32().unwrap(), 3);
    assert!(mruby.exception.is_none());
}

#[test]
fn call_builtin_plus() {
    let mut mruby: Mruby<Cont> = Mruby::new();

    let one = mruby.fixnum(1);
    let two = mruby.fixnum(2);
    let result = one.call(&mut mruby, "+", vec![two]).unwrap();

    assert_eq!(result.to_i32().unwrap(), 3);
}

#[test]
fn call_unknown_method_is_a_runtime_error() {
    let mut mruby: Mruby<Cont> = Mruby::new();

    let one = mruby.fixnum(1);
    match one.call(&mut mruby, "zap", vec![]) {
        Err(mrusty::MrubyError::Runtime(msg)) => {
            assert_eq!(msg, "NoMethodError: undefined method 'zap'");
        },
        _ => panic!("expected a runtime error"),
    }
}

#[test]
fn call_builtin_equality() {
    let mut mruby: Mruby<Cont> = Mruby::new();

    let four = mruby.run("2 + 2").unwrap();
    let five = mruby.fixnum(5);
    assert_eq!(four.call(&mut mruby, "==", vec![five]).unwrap().to_bool().unwrap(), false);

    let other_four = mruby.fixnum(4);
    assert_eq!(four.call(&mut mruby, "==", vec![other_four]).unwrap().to_bool().unwrap(), true);

    let a = mruby.string("ab");
    let b = mruby.string("ab");
    assert_eq!(a.call(&mut mruby, "==", vec![b]).unwrap().to_bool().unwrap(), true);

    let c = mruby.string("cd");
    assert_eq!(a.call(&mut mruby, "==", vec![c]).unwrap().to_bool().unwrap(), false);

    let nil = mruby.nil();
    assert_eq!(a.call(&mut mruby, "==", vec![nil]).unwrap().to_bool().unwrap(), false);
}

#[test]
fn fixnum_addition_wraps() {
    let mut mruby: Mruby<Cont> = Mruby::new();

    let max = mruby.fixnum(i32::MAX);
    let one = mruby.fixnum(1);
    let wrapped = max.call(&mut mruby, "+", vec![one]).unwrap();

    assert_eq!(wrapped.to_i32().unwrap(), i32::MIN);
}

#[test]
fn fixnum_to_s() {
    let mut mruby: Mruby<Cont> = Mruby::new();

    let cases: Vec<(i32, &str)> = vec![
        (0, "0"),
        (7, "7"),
        (120, "120"),
        (-1291657, "-1291657"),
        (i32::MAX, "2147483647"),
        (i32::MIN, "-2147483648"),
    ];
    for (n, expected) in cases {
        let value = mruby.fixnum(n);
        let rendered = value.call(&mut mruby, "to_s", vec![]).unwrap();
        assert_eq!(rendered.to_str().unwrap(), expected);
    }
}

#[test]
fn interning_is_stable() {
    let mut mruby: Mruby<Cont> = Mruby::new();

    let a = mruby.intern("work");
    let b = mruby.intern("rest");
    let c = mruby.intern("work");

    assert_eq!(a, c);
    assert_ne!(a, b);
}

#[test]
fn call_nil_predicate_and_dup() {
    let mut mruby: Mruby<Cont> = Mruby::new();

    let nil = mruby.nil();
    assert_eq!(nil.call(&mut mruby, "nil?", vec![]).unwrap().to_bool().unwrap(), true);

    let one = mruby.fixnum(1);
    assert_eq!(one.call(&mut mruby, "nil?", vec![]).unwrap().to_bool().unwrap(), false);

    let copy = one.call(&mut mruby, "dup", vec![]).unwrap();
    assert_eq!(copy.to_i32().unwrap(), 1);
}
