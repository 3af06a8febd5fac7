//! Interpreter-level behaviour: lifecycle, the class table, instances and
//! primitive values.

use mrusty::{Mruby, MrubyError, TypeToken};

#[test]
fn test_open_close() {
    let mruby: Mruby<()> = Mruby::new();
    drop(mruby);
}

#[test]
fn test_class_defined() {
    let mruby: Mruby<()> = Mruby::new();

    assert!(mruby.class_defined("Object"));
}

#[test]
fn test_define_class() {
    let mut mruby: Mruby<()> = Mruby::new();

    assert!(mruby.class_get("Object").is_some());
    mruby.define_class("Mine");

    assert!(mruby.class_defined("Mine"));
}

#[test]
fn test_define_module() {
    let mut mruby: Mruby<()> = Mruby::new();

    mruby.define_module("Mine");
    assert!(mruby.module_get("Mine").is_some());
}

#[test]
fn test_include_module() {
    let mut mruby: Mruby<()> = Mruby::new();

    let new_module = mruby.define_module("Mine");
    let kernel = mruby.module_get("Kernel").unwrap();

    mruby.include_module(kernel, new_module);
}

#[test]
fn test_prepend_module() {
    let mut mruby: Mruby<()> = Mruby::new();

    let new_module = mruby.define_module("Mine");
    let kernel = mruby.module_get("Kernel").unwrap();

    mruby.prepend_module(kernel, new_module);
}

#[test]
fn test_obj_new() {
    let mruby: Mruby<()> = Mruby::new();

    let obj_class = mruby.class_get("Object").unwrap();

    let _obj = mruby.obj_new(obj_class);
}

#[derive(Clone, Copy, PartialEq, Debug)]
struct Cont {
    value: i32,
}

#[test]
fn test_obj() {
    let mut mruby: Mruby<Cont> = Mruby::new();

    let token = TypeToken(1);
    mruby.def_class(token, "Cont");

    let obj = mruby.obj(token, Cont { value: 3 });
    let obj = obj.to_obj(&mruby, token).unwrap();

    assert_eq!(obj.value, 3);
}

#[test]
fn test_create_run_proc() {
    let mut mruby: Mruby<()> = Mruby::new();

    let result = mruby.run("1 + 1").unwrap();

    assert_eq!(result.to_i32().unwrap(), 2);
}

#[test]
fn test_bool_true() {
    let mruby: Mruby<()> = Mruby::new();

    let bool_true = mruby.bool(true);
    assert_eq!(bool_true.to_bool().unwrap(), true);
}

#[test]
fn test_bool_false() {
    let mruby: Mruby<()> = Mruby::new();

    let bool_false = mruby.bool(false);
    assert_eq!(bool_false.to_bool().unwrap(), false);
}

#[test]
fn test_fixnum() {
    let mruby: Mruby<()> = Mruby::new();

    let number = mruby.fixnum(-1291657);
    assert_eq!(number.to_i32().unwrap(), -1291657);
}

#[test]
fn test_string() {
    let mruby: Mruby<()> = Mruby::new();

    let string_value = mruby.string("qwerty");
    assert_eq!(string_value.to_str().unwrap(), "qwerty");
}

#[test]
fn test_nil() {
    let mut mruby: Mruby<()> = Mruby::new();

    let nil = mruby.nil();
    let result = nil.call(&mut mruby, "to_s", vec![]).unwrap();

    assert_eq!(result.to_str().unwrap(), "");
}

#[test]
fn test_symbol() {
    let mruby: Mruby<()> = Mruby::new();

    let sym = mruby.symbol("hi");
    assert_eq!(sym.to_str().unwrap(), "hi");
}

#[test]
fn test_array_to_vec() {
    let mruby: Mruby<()> = Mruby::new();

    let one = mruby.fixnum(1);
    let two = mruby.string("x");
    let array = mruby.array(vec![one, two]);

    let items = array.to_vec().unwrap();
    assert_eq!(items.len(), 2);
    assert_eq!(items[0].to_i32().unwrap(), 1);
    assert_eq!(items[1].to_str().unwrap(), "x");
}

#[test]
fn test_cast_errors_name_expected_types() {
    let mruby: Mruby<()> = Mruby::new();

    match mruby.fixnum(1).to_bool() {
        Err(MrubyError::Cast(expected)) => assert_eq!(expected, "TrueClass or FalseClass"),
        _ => panic!("expected a cast error"),
    }
    match mruby.string("x").to_i32() {
        Err(MrubyError::Cast(expected)) => assert_eq!(expected, "Fixnum"),
        _ => panic!("expected a cast error"),
    }
    match mruby.fixnum(1).to_str() {
        Err(MrubyError::Cast(expected)) => assert_eq!(expected, "String"),
        _ => panic!("expected a cast error"),
    }
    match mruby.nil().to_vec() {
        Err(MrubyError::Cast(expected)) => assert_eq!(expected, "Array"),
        _ => panic!("expected a cast error"),
    }
}

#[test]
fn test_nil_is_falsy() {
    let mruby: Mruby<()> = Mruby::new();

    assert_eq!(mruby.nil().to_bool().unwrap(), false);
}

#[test]
fn test_error_messages() {
    assert_eq!(
        MrubyError::Cast(String::from("Fixnum")).message(),
        "Cast error: expected Fixnum"
    );
    assert_eq!(
        MrubyError::Undef.message(),
        "Undefined error: type is not defined"
    );
    assert_eq!(
        MrubyError::Runtime(String::from("boom")).message(),
        "Runtime error: boom"
    );
    assert_eq!(
        MrubyError::Filetype.message(),
        "Filetype error: script needs a compatible (.rb, .mrb) extension"
    );
    assert_eq!(MrubyError::Undef.description(), "mruby undefined error");
}
