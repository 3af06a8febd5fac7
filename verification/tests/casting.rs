//! Foreign-object injection, casting and reference counting.

use mrusty::{Mruby, MrubyError, TypeToken};

#[derive(Clone, Copy, PartialEq, Debug)]
struct Point {
    x: i32,
    y: i32,
}

#[test]
fn round_trip_inject_cast() {
    let mut mruby: Mruby<Point> = Mruby::new();
    let token = TypeToken(4);
    mruby.def_class(token, "Point");

    let value = mruby.obj(token, Point { x: 2, y: 5 });
    let back = value.to_obj(&mruby, token).unwrap();

    assert_eq!(*back, Point { x: 2, y: 5 });
}

#[test]
fn cast_to_unregistered_type_is_undefined() {
    let mut mruby: Mruby<Point> = Mruby::new();
    let registered = TypeToken(4);
    let unregistered = TypeToken(99);
    mruby.def_class(registered, "Point");

    let value = mruby.obj(registered, Point { x: 1, y: 1 });
    match value.to_obj(&mruby, unregistered) {
        Err(MrubyError::Undef) => {},
        _ => panic!("expected an undefined-type error"),
    }
    match mruby.fixnum(7).to_obj(&mruby, unregistered) {
        Err(MrubyError::Undef) => {},
        _ => panic!("expected an undefined-type error"),
    }
    match mruby.nil().to_obj(&mruby, unregistered) {
        Err(MrubyError::Undef) => {},
        _ => panic!("expected an undefined-type error"),
    }
}

#[test]
fn cast_with_stale_class_name_is_undefined() {
    let mut mruby: Mruby<Point> = Mruby::new();
    let token = TypeToken(4);
    mruby.def_class(token, "First");

    let value = mruby.obj(token, Point { x: 1, y: 2 });

    // Re-registration records a new name; the old instance's dynamic
    // class name no longer matches it.
    mruby.def_class(token, "Second");

    match value.to_obj(&mruby, token) {
        Err(MrubyError::Undef) => {},
        _ => panic!("expected an undefined-type error"),
    }
}

#[test]
fn cast_across_same_named_registrations_is_a_cast_error() {
    let mut mruby: Mruby<Point> = Mruby::new();
    let first = TypeToken(1);
    let second = TypeToken(2);
    mruby.def_class(first, "Point");
    mruby.def_class(second, "Point");

    let value = mruby.obj(first, Point { x: 1, y: 2 });

    // The names agree, but the foreign-data descriptors differ.
    match value.to_obj(&mruby, second) {
        Err(MrubyError::Cast(expected)) => assert_eq!(expected, "Data"),
        _ => panic!("expected a cast error"),
    }
}

#[test]
fn dup_then_finalize_keeps_the_other_cast_valid() {
    let mut mruby: Mruby<Point> = Mruby::new();
    let token = TypeToken(4);
    mruby.def_class(token, "Point");

    let value = mruby.obj(token, Point { x: 8, y: 9 });
    let clone = value.dup(&mut mruby);
    mruby.finalize(clone);

    let back = value.to_obj(&mruby, token).unwrap();
    assert_eq!(*back, Point { x: 8, y: 9 });
}

#[test]
fn finalizing_the_last_wrapper_frees_the_object() {
    let mut mruby: Mruby<Point> = Mruby::new();
    let token = TypeToken(4);
    mruby.def_class(token, "Point");

    let value = mruby.obj(token, Point { x: 8, y: 9 });
    let keep = value.dup(&mut mruby);

    // Two counted references: finalizing both frees the slot.
    mruby.finalize(value);
    let raw_copy = match &keep.value {
        mrusty::MrValue::Instance { class, data } => {
            mrusty::Value::new(mrusty::MrValue::Instance { class: *class, data: *data })
        },
        _ => panic!("expected a foreign-data value"),
    };
    mruby.finalize(raw_copy);

    match keep.to_obj(&mruby, token) {
        Err(MrubyError::Cast(expected)) => assert_eq!(expected, "Data"),
        Err(MrubyError::Undef) => panic!("name check should still pass"),
        _ => panic!("expected the slot to be free"),
    }
}

#[test]
fn init_attaches_to_a_fresh_instance() {
    let mut mruby: Mruby<Point> = Mruby::new();
    let token = TypeToken(4);
    mruby.def_class(token, "Point");

    let class = mruby.class_get("Point").unwrap();
    let instance = mruby.obj_new(class);
    let value = instance.init(&mut mruby, token, Point { x: 6, y: 7 });

    assert_eq!(*value.to_obj(&mruby, token).unwrap(), Point { x: 6, y: 7 });
}

#[test]
fn to_option_is_none_for_plain_values() {
    let mut mruby: Mruby<Point> = Mruby::new();
    let token = TypeToken(4);
    mruby.def_class(token, "Point");

    assert!(mruby.nil().to_option(&mruby, token).unwrap().is_none());
    assert!(mruby.fixnum(3).to_option(&mruby, token).unwrap().is_none());

    let value = mruby.obj(token, Point { x: 0, y: 1 });
    let some = value.to_option(&mruby, token).unwrap();
    assert_eq!(*some.unwrap(), Point { x: 0, y: 1 });
}

#[test]
fn option_constructor() {
    let mut mruby: Mruby<Point> = Mruby::new();
    let token = TypeToken(4);
    mruby.def_class(token, "Point");

    let none = mruby.option(token, None);
    assert!(none.to_bool().unwrap() == false);

    let some = mruby.option(token, Some(Point { x: 1, y: 2 }));
    assert_eq!(*some.to_obj(&mruby, token).unwrap(), Point { x: 1, y: 2 });
}

#[test]
fn class_name_lookup() {
    let mut mruby: Mruby<Point> = Mruby::new();
    let token = TypeToken(4);
    mruby.def_class(token, "Point");

    assert_eq!(mruby.class_name(token).unwrap(), "Point");
    match mruby.class_name(TypeToken(5)) {
        Err(MrubyError::Undef) => {},
        _ => panic!("expected an undefined-type error"),
    }
}

#[test]
fn value_class_names() {
    let mut mruby: Mruby<Point> = Mruby::new();
    let token = TypeToken(4);
    mruby.def_class(token, "Point");

    assert_eq!(mruby.nil().class_name(&mruby), "NilClass");
    assert_eq!(mruby.bool(true).class_name(&mruby), "TrueClass");
    assert_eq!(mruby.bool(false).class_name(&mruby), "FalseClass");
    assert_eq!(mruby.fixnum(1).class_name(&mruby), "Fixnum");
    assert_eq!(mruby.string("s").class_name(&mruby), "String");
    assert_eq!(mruby.symbol("s").class_name(&mruby), "Symbol");
    let value = mruby.obj(token, Point { x: 0, y: 0 });
    assert_eq!(value.class_name(&mruby), "Point");
}
