//! The `require` primitive, the module registry and file execution.

use mrusty::{Loader, Mruby, MrubyError, MrubyFile, RegOp, TypeToken};

struct Cont;

impl MrubyFile for Cont {
    fn require() -> Loader {
        vec![RegOp::DefClass { token: TypeToken(11), name: String::from("Container") }]
    }
}

#[test]
fn require_runs_loaders_once() {
    let mut mruby: Mruby<()> = Mruby::new();
    mruby.def_file::<Cont>("cont");

    assert!(!mruby.class_defined("Container"));

    let first = mruby.run("require 'cont'").unwrap();
    assert_eq!(first.to_bool().unwrap(), true);
    assert!(mruby.class_defined("Container"));

    let classes_after_first = mruby.classes.len();
    let second = mruby.run("require 'cont'").unwrap();
    assert_eq!(second.to_bool().unwrap(), false);
    assert_eq!(mruby.classes.len(), classes_after_first);
}

#[test]
fn require_missing_names_both_extensions() {
    let mut mruby: Mruby<()> = Mruby::new();

    match mruby.run("require 'missing'") {
        Err(MrubyError::Runtime(msg)) => {
            assert_eq!(msg, "RuntimeError: cannot load missing.rb or missing.mrb");
        },
        _ => panic!("expected a runtime error"),
    }
}

#[test]
fn require_loads_a_stored_file_once() {
    let mut mruby: Mruby<()> = Mruby::new();
    mruby.mount_file("mod1.rb", "42");

    let first = mruby.run("require 'mod1'").unwrap();
    assert_eq!(first.to_bool().unwrap(), true);

    let second = mruby.run("require 'mod1'").unwrap();
    assert_eq!(second.to_bool().unwrap(), false);
}

#[test]
fn require_restores_the_source_name() {
    let mut mruby: Mruby<()> = Mruby::new();
    mruby.filename("main.rb");
    mruby.mount_file("mod1.rb", "42");

    mruby.run("require 'mod1'").unwrap();

    assert_eq!(mruby.filename, Some(String::from("main.rb")));
}

#[test]
fn nested_requires() {
    let mut mruby: Mruby<()> = Mruby::new();
    mruby.mount_file("outer.rb", "require 'inner'");
    mruby.mount_file("inner.rb", "7");

    let result = mruby.run("require 'outer'").unwrap();
    assert_eq!(result.to_bool().unwrap(), true);

    assert_eq!(mruby.required.len(), 2);
    assert_eq!(mruby.required[0], "outer");
    assert_eq!(mruby.required[1], "inner");
}

#[test]
fn require_surfaces_script_errors() {
    let mut mruby: Mruby<()> = Mruby::new();
    mruby.mount_file("bad.rb", "'' + 1");

    match mruby.run("require 'bad'") {
        Err(MrubyError::Runtime(msg)) => {
            assert_eq!(
                msg,
                "RuntimeError: Runtime error: TypeError: expected String"
            );
        },
        _ => panic!("expected a runtime error"),
    }
}

#[test]
fn execute_source_file_error_message() {
    let mut mruby: Mruby<()> = Mruby::new();
    mruby.mount_file("script.rb", "'' + 1");

    match mruby.execute("script.rb") {
        Err(MrubyError::Runtime(msg)) => assert_eq!(msg, "TypeError: expected String"),
        _ => panic!("expected a runtime error"),
    }

    let result = mruby.run("true").unwrap();
    assert_eq!(result.to_bool().unwrap(), true);
}

#[test]
fn execute_sets_the_source_name() {
    let mut mruby: Mruby<()> = Mruby::new();
    mruby.mount_file("dir/script.rb", "1");

    let result = mruby.execute("dir/script.rb").unwrap();
    assert_eq!(result.to_i32().unwrap(), 1);
    assert_eq!(mruby.filename, Some(String::from("script.rb")));
}

#[test]
fn execute_unknown_extension_is_a_filetype_error() {
    let mut mruby: Mruby<()> = Mruby::new();
    mruby.mount_file("script.txt", "1");

    match mruby.execute("script.txt") {
        Err(MrubyError::Filetype) => {},
        _ => panic!("expected a filetype error"),
    }
    match mruby.execute("noextension") {
        Err(MrubyError::Filetype) => {},
        _ => panic!("expected a filetype error"),
    }
}

#[test]
fn execute_missing_file_is_an_io_error() {
    let mut mruby: Mruby<()> = Mruby::new();

    match mruby.execute("absent.rb") {
        Err(MrubyError::Io(msg)) => assert_eq!(msg, "cannot open absent.rb"),
        _ => panic!("expected an io error"),
    }
}

#[test]
fn runb_checks_the_header() {
    let mut mruby: Mruby<()> = Mruby::new();

    let result = mruby.runb("RITE1 + 1").unwrap();
    assert_eq!(result.to_i32().unwrap(), 2);

    match mruby.runb("junk") {
        Err(MrubyError::Runtime(msg)) => assert_eq!(msg, "invalid bytecode"),
        _ => panic!("expected a runtime error"),
    }
}

#[test]
fn execute_compiled_file() {
    let mut mruby: Mruby<()> = Mruby::new();
    mruby.mount_file("mod2.mrb", "RITE41 + 1");

    let result = mruby.execute("mod2.mrb").unwrap();
    assert_eq!(result.to_i32().unwrap(), 42);
}

#[test]
fn run_results() {
    let mut mruby: Mruby<()> = Mruby::new();

    assert_eq!(mruby.run("2 + 2").unwrap().to_i32().unwrap(), 4);
    assert_eq!(mruby.run("'ab' + 'cd'").unwrap().to_str().unwrap(), "abcd");
    assert_eq!(mruby.run("false").unwrap().to_bool().unwrap(), false);
    assert!(mruby.run("nil").unwrap().to_bool().unwrap() == false);
    assert_eq!(mruby.run("1291657").unwrap().to_i32().unwrap(), 1291657);

    match mruby.run("'' + 1") {
        Err(MrubyError::Runtime(msg)) => assert_eq!(msg, "TypeError: expected String"),
        _ => panic!("expected a runtime error"),
    }
    match mruby.run("1 + 'x'") {
        Err(MrubyError::Runtime(msg)) => assert_eq!(msg, "TypeError: expected Integer"),
        _ => panic!("expected a runtime error"),
    }
    match mruby.run("nil + 1") {
        Err(MrubyError::Runtime(msg)) => {
            assert_eq!(msg, "NoMethodError: undefined method '+'");
        },
        _ => panic!("expected a runtime error"),
    }
    match mruby.run("@!?") {
        Err(MrubyError::Runtime(msg)) => assert_eq!(msg, "SyntaxError: invalid syntax"),
        _ => panic!("expected a runtime error"),
    }
}

#[test]
fn run_empty_script_is_nil() {
    let mut mruby: Mruby<()> = Mruby::new();

    let value = mruby.run("").unwrap();
    assert_eq!(value.call(&mut mruby, "nil?", vec![]).unwrap().to_bool().unwrap(), true);

    let blank = mruby.run("  \n\t ").unwrap();
    assert_eq!(blank.call(&mut mruby, "nil?", vec![]).unwrap().to_bool().unwrap(), true);
}

#[test]
fn integer_literals_have_nine_digits_at_most() {
    let mut mruby: Mruby<()> = Mruby::new();

    assert_eq!(mruby.run("999999999").unwrap().to_i32().unwrap(), 999999999);

    match mruby.run("1234567890") {
        Err(MrubyError::Runtime(msg)) => assert_eq!(msg, "SyntaxError: invalid syntax"),
        _ => panic!("expected a syntax error"),
    }
}

#[test]
fn run_unchecked_leaves_the_exception_active() {
    let mut mruby: Mruby<()> = Mruby::new();

    mruby.run_unchecked("'' + 1");

    match &mruby.exception {
        Some(exc) => {
            assert_eq!(exc.class, "TypeError");
            assert_eq!(exc.message, "expected String");
        },
        None => panic!("expected the exception to stay active"),
    }

    // A later checked run starts clean.
    assert_eq!(mruby.run("true").unwrap().to_bool().unwrap(), true);
}
