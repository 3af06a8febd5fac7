//! The laws the bridge keeps, stated over the state model and proved from
//! the runtime's contracts.

use vstd::prelude::*;

use crate::err::ErrView;
use crate::eval::{
    spec_apply_loaders, spec_apply_op, spec_apply_ops, spec_candidate, spec_eval_script,
    spec_execute, spec_require, spec_run, spec_runb, EvalVal, StmtView,
};
use crate::runtime::{
    lemma_name_find, lemma_reg_find, name_find, spec_dup, spec_finalize, spec_obj, spec_to_obj,
    RegOp, StateView, TypeToken,
};

verus! {

/// A sequence is a prefix of any extension of itself.
proof fn lemma_prefix_push(ns: Seq<Seq<char>>, name: Seq<char>)
    ensures
        ns.is_prefix_of(ns.push(name)),
{
    assert(ns =~= ns.push(name).subrange(0, ns.len() as int));
}

/// Prefixes chain.
proof fn lemma_prefix_trans(a: Seq<Seq<char>>, b: Seq<Seq<char>>, c: Seq<Seq<char>>)
    requires
        a.is_prefix_of(b),
        b.is_prefix_of(c),
    ensures
        a.is_prefix_of(c),
{
    assert(a =~= c.subrange(0, a.len() as int));
}

/// A name a sequence holds is found in it.
proof fn lemma_name_present(ns: Seq<Seq<char>>, name: Seq<char>, i: int)
    requires
        0 <= i < ns.len(),
        ns[i] == name,
    ensures
        name_find(ns, name, 0) is Some,
{
    lemma_name_find(ns, name, 0);
}

/// Loader registration steps never touch the required-set.
proof fn lemma_apply_op_required<O>(s: StateView<O>, op: RegOp)
    ensures
        spec_apply_op(s, op).required == s.required,
{
}

/// Applying a loader's steps never touches the required-set.
proof fn lemma_apply_ops_required<O>(s: StateView<O>, ops: Seq<RegOp>)
    ensures
        spec_apply_ops(s, ops).required == s.required,
    decreases ops.len(),
{
    if ops.len() > 0 {
        lemma_apply_op_required(s, ops[0]);
        lemma_apply_ops_required(spec_apply_op(s, ops[0]), ops.drop_first());
    }
}

/// Applying a module's loaders never touches the required-set.
proof fn lemma_apply_loaders_required<O>(s: StateView<O>, loaders: Seq<Seq<RegOp>>)
    ensures
        spec_apply_loaders(s, loaders).required == s.required,
    decreases loaders.len(),
{
    if loaders.len() > 0 {
        lemma_apply_ops_required(s, loaders[0]);
        lemma_apply_loaders_required(spec_apply_ops(s, loaders[0]), loaders.drop_first());
    }
}

/// Evaluating a script only extends the required-set.
proof fn lemma_eval_required<O>(s: StateView<O>, src: Seq<char>, fuel: nat)
    ensures
        s.required.is_prefix_of(spec_eval_script(s, src, fuel).0.required),
    decreases fuel, 2int,
{
    match crate::eval::parse(crate::eval::tokens_from(src, 0)) {
        Some(StmtView::Require(name)) => {
            lemma_require_required(s, name, fuel);
        },
        _ => {
            assert(s.required =~= spec_eval_script(s, src, fuel).0.required.subrange(
                0,
                s.required.len() as int,
            ));
        },
    }
}

/// `require` only extends the required-set.
proof fn lemma_require_required<O>(s: StateView<O>, name: Seq<char>, fuel: nat)
    ensures
        s.required.is_prefix_of(spec_require(s, name, fuel).0.required),
    decreases fuel, 1int,
{
    let r = spec_require(s, name, fuel);
    if s.is_required(name) {
        assert(s.required =~= r.0.required.subrange(0, s.required.len() as int));
    } else {
        match s.file_index(name) {
            Some(fi) => {
                let s1 = StateView { required: s.required.push(name), ..s };
                lemma_apply_loaders_required(s1, s.files[fi].loaders);
                lemma_prefix_push(s.required, name);
            },
            None => match spec_candidate(s, name) {
                None => {
                    assert(s.required =~= r.0.required.subrange(0, s.required.len() as int));
                },
                Some(path) => {
                    if fuel == 0 {
                        assert(s.required =~= r.0.required.subrange(
                            0,
                            s.required.len() as int,
                        ));
                    } else {
                        let s1 = StateView { required: s.required.push(name), ..s };
                        lemma_execute_required(s1, path, (fuel - 1) as nat);
                        lemma_prefix_push(s.required, name);
                        lemma_prefix_trans(
                            s.required,
                            s1.required,
                            spec_execute(s1, path, (fuel - 1) as nat).0.required,
                        );
                    }
                },
            },
        }
    }
}

/// Checked runs only extend the required-set.
proof fn lemma_run_required<O>(s: StateView<O>, src: Seq<char>, fuel: nat)
    ensures
        s.required.is_prefix_of(spec_run(s, src, fuel).0.required),
    decreases fuel, 3int,
{
    lemma_eval_required(StateView { exception: None, ..s }, src, fuel);
}

/// Compiled runs only extend the required-set.
proof fn lemma_runb_required<O>(s: StateView<O>, src: Seq<char>, fuel: nat)
    ensures
        s.required.is_prefix_of(spec_runb(s, src, fuel).0.required),
    decreases fuel, 4int,
{
    if src.len() >= 4 && src.subrange(0, 4) == "RITE"@ {
        lemma_run_required(s, src.subrange(4, src.len() as int), fuel);
    } else {
        assert(s.required =~= spec_runb(s, src, fuel).0.required.subrange(
            0,
            s.required.len() as int,
        ));
    }
}

/// Executing a file only extends the required-set.
proof fn lemma_execute_required<O>(s: StateView<O>, path: Seq<char>, fuel: nat)
    ensures
        s.required.is_prefix_of(spec_execute(s, path, fuel).0.required),
    decreases fuel, 5int,
{
    let r = spec_execute(s, path, fuel);
    match crate::eval::spec_ext(path) {
        None => {
            assert(s.required =~= r.0.required.subrange(0, s.required.len() as int));
        },
        Some(ext) => {
            let s1 = StateView { filename: Some(crate::eval::spec_basename(path)), ..s };
            match s1.fs_index(path) {
                None => {
                    assert(s.required =~= r.0.required.subrange(0, s.required.len() as int));
                },
                Some(fi) => {
                    let contents = s1.fs[fi].contents;
                    if ext == "rb"@ {
                        lemma_run_required(s1, contents, fuel);
                    } else if ext == "mrb"@ {
                        lemma_runb_required(s1, contents, fuel);
                    } else {
                        assert(s.required =~= r.0.required.subrange(
                            0,
                            s.required.len() as int,
                        ));
                    }
                },
            }
        },
    }
}

/// Requiring a module again is `false` and changes nothing: no loader
/// runs again and no file is read again.
pub proof fn lemma_require_second_noop<O>(s: StateView<O>, name: Seq<char>, fuel: nat)
    requires
        s.is_required(name),
    ensures
        spec_require(s, name, fuel) == (s, EvalVal::Bool(false)),
{
}

/// Requiring a module with registered loaders for the first time marks it
/// required and runs its loaders exactly once: the state becomes the
/// loader fold over the marked state, and a second `require` of the same
/// name answers `false` without changing anything.
pub proof fn lemma_require_once_loaders<O>(
    s: StateView<O>,
    name: Seq<char>,
    fuel: nat,
    fuel2: nat,
)
    requires
        !s.is_required(name),
        s.file_index(name) is Some,
    ensures
        ({
            let fi = s.file_index(name)->0;
            let marked = StateView { required: s.required.push(name), ..s };
            let r = spec_require(s, name, fuel);
            &&& r.0 == spec_apply_loaders(marked, s.files[fi].loaders)
            &&& r.1 == EvalVal::Bool(true)
            &&& r.0.is_required(name)
            &&& spec_require(r.0, name, fuel2) == (r.0, EvalVal::Bool(false))
        }),
{
    let fi = s.file_index(name)->0;
    let marked = StateView { required: s.required.push(name), ..s };
    let r = spec_require(s, name, fuel);
    lemma_apply_loaders_required(marked, s.files[fi].loaders);
    lemma_name_present(r.0.required, name, s.required.len() as int);
    lemma_require_second_noop(r.0, name, fuel2);
}

/// Requiring a module backed only by a stored file for the first time
/// marks it required before executing it, so even a failing load is not
/// retried by a second `require`, which answers `false` and changes
/// nothing.
pub proof fn lemma_require_once_file<O>(s: StateView<O>, name: Seq<char>, fuel: nat, fuel2: nat)
    requires
        !s.is_required(name),
        s.file_index(name) is None,
        spec_candidate(s, name) is Some,
        fuel >= 1,
    ensures
        ({
            let r = spec_require(s, name, fuel);
            &&& r.1 == EvalVal::Bool(true)
            &&& r.0.is_required(name)
            &&& spec_require(r.0, name, fuel2) == (r.0, EvalVal::Bool(false))
        }),
{
    let path = spec_candidate(s, name)->0;
    let s1 = StateView { required: s.required.push(name), ..s };
    let r = spec_require(s, name, fuel);
    lemma_execute_required(s1, path, (fuel - 1) as nat);
    let re = spec_execute(s1, path, (fuel - 1) as nat);
    assert(s1.required =~= re.0.required.subrange(0, s1.required.len() as int));
    assert(s1.required[s.required.len() as int] == name);
    assert(re.0.required[s.required.len() as int] == name);
    lemma_name_present(r.0.required, name, s.required.len() as int);
    lemma_require_second_noop(r.0, name, fuel2);
}

/// Injecting a host object into a fresh value of its registered type and
/// casting back yields the object: the round trip of `obj` and `to_obj`.
pub proof fn lemma_obj_to_obj_round_trip<O>(s: StateView<O>, token: TypeToken, o: O)
    requires
        s.wf(),
        s.reg_index(token) is Some,
        s.heap.len() <= usize::MAX,
    ensures
        ({
            let r = spec_obj(s, token, o);
            spec_to_obj(r.0, r.1, token) == Ok::<O, ErrView>(o)
        }),
{
    lemma_reg_find(s.registry, token, 0);
    let i = s.reg_index(token)->0;
    let reg = s.registry[i];
    let r = spec_obj(s, token, o);
    assert(r.0.registry == s.registry);
    assert(crate::runtime::spec_type_name(r.0, r.1) == r.0.classes[reg.class as int].name);
    assert(r.0.heap[s.heap.len() as int].obj == Some(o));
}

/// Casting any value to a type that was never registered fails with
/// `Undef`, whatever the value's runtime representation.
pub proof fn lemma_cast_unregistered<O>(s: StateView<O>, v: crate::value::MrValue, token: TypeToken)
    requires
        s.reg_index(token) is None,
    ensures
        spec_to_obj(s, v, token) == Err::<O, ErrView>(ErrView::Undef),
{
}

/// Casting a value whose dynamic class name differs from the name
/// recorded for a registered type fails with `Undef`, even when a live
/// foreign datum is attached.
pub proof fn lemma_cast_name_mismatch<O>(s: StateView<O>, v: crate::value::MrValue, token: TypeToken)
    requires
        s.reg_index(token) is Some,
        crate::runtime::spec_type_name(s, v) != s.registry[s.reg_index(token)->0].name,
    ensures
        spec_to_obj(s, v, token) == Err::<O, ErrView>(ErrView::Undef),
{
}

/// Duplicating a wrapper of a foreign object and finalizing one of the
/// two leaves the other's cast valid: the reference count reaches the
/// duplicate before the finalizer takes it back, so it never prematurely
/// reaches zero.
pub proof fn lemma_dup_finalize_keeps_object<O>(s: StateView<O>, token: TypeToken, o: O)
    requires
        s.wf(),
        s.reg_index(token) is Some,
        s.heap.len() <= usize::MAX,
    ensures
        ({
            let r = spec_obj(s, token, o);
            let s2 = spec_dup(r.0, r.1);
            let s3 = spec_finalize(s2, r.1);
            spec_to_obj(s3, r.1, token) == Ok::<O, ErrView>(o)
        }),
{
    lemma_reg_find(s.registry, token, 0);
    let i = s.reg_index(token)->0;
    let reg = s.registry[i];
    let r = spec_obj(s, token, o);
    let slot = s.heap.len() as int;
    assert(r.0.heap[slot].count == 1);
    let s2 = spec_dup(r.0, r.1);
    assert(s2.heap[slot].count == 2);
    assert(s2.heap[slot].obj == Some(o));
    let s3 = spec_finalize(s2, r.1);
    assert(s3.heap[slot].count == 1);
    assert(s3.heap[slot].obj == Some(o));
    assert(s3.registry == s.registry);
    assert(crate::runtime::spec_type_name(s3, r.1) == s3.classes[reg.class as int].name);
}

} // verus!
