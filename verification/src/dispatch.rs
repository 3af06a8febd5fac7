//! The dispatch bridge: the trampoline the scripting runtime enters for
//! any method of a registered type, and the conversion of abnormal
//! host-side termination into a script exception.

use vstd::prelude::*;

use crate::runtime::{
    method_find, spec_dup, ExcView, MethodEntry, Mruby, StateView, TypeToken,
};
use crate::value::{mr_equiv, MrValue, Value};

verus! {

/// What a host closure's abnormal termination carried: a string-like
/// payload with its text, or anything else.
#[derive(Debug)]
pub enum PanicPayload {
    Text(String),
    Opaque,
}

/// The message extracted from a termination payload: its text when it is
/// string-like, else empty.
pub open spec fn spec_payload_text(p: PanicPayload) -> Seq<char> {
    match p {
        PanicPayload::Text(s) => s@,
        PanicPayload::Opaque => ""@,
    }
}

/// How one dispatched host closure invocation ended: a normal return with
/// its value, or abnormal termination with its payload.
#[derive(Debug)]
pub enum HostOutcome {
    Returned(Value),
    Panicked(PanicPayload),
}

/// What the trampoline asks of its caller: run the host closure with the
/// given handle on the receiver, or nothing more - the call completed
/// inside the bridge, by raising or by the automatic duplication.
#[derive(Debug)]
pub enum MethodCall {
    Run { method: usize, receiver: Value },
    Done(Value),
}

/// Resolving a dispatched call: the entry for `sym` in `token`'s instance
/// or class dispatch table, or the message of the `TypeError` to raise.
pub open spec fn spec_resolve<O>(
    s: StateView<O>,
    token: TypeToken,
    sym: usize,
    class_table: bool,
) -> Result<MethodEntry, Seq<char>> {
    match s.reg_index(token) {
        None => Err("Class not found."@),
        Some(i) => {
            let table = if class_table {
                s.registry[i].class_methods
            } else {
                s.registry[i].methods
            };
            match method_find(table, sym, 0) {
                None => Err("Method not found."@),
                Some(j) => Ok(table[j].1),
            }
        },
    }
}

/// Looks up `sym` in one dispatch table.
#[verifier::loop_isolation(false)]
fn lookup_method(table: &Vec<(usize, MethodEntry)>, sym: usize) -> (r: Option<MethodEntry>)
    ensures
        match method_find(table@, sym, 0) {
            Some(j) => r matches Some(e) && e == table@[j].1,
            None => r is None,
        },
{
    let n = table.len();
    let mut i: usize = 0;
    while i < n
        invariant
            i <= n,
            method_find(table@, sym, 0) == method_find(table@, sym, i as int),
        decreases n - i,
    {
        if table[i].0 == sym {
            return Some(table[i].1);
        }
        i = i + 1;
    }
    None
}

impl<O> Mruby<O> {
    /// The trampoline entered when a script calls an instance method of
    /// the type registered for `token`.  The closure is re-resolved from
    /// the dispatch table by the call's method symbol; a missing table or
    /// entry raises a `TypeError` and completes with `nil`; the automatic
    /// duplication completes inside the bridge; a host closure is handed
    /// back for the caller to run, with the receiver.
    pub fn call_method(&mut self, token: TypeToken, sym: usize, receiver: Value) -> (r: MethodCall)
        ensures
            match spec_resolve(old(self)@, token, sym, false) {
                Err(msg) => {
                    &&& final(self)@ == (StateView {
                        exception: Some(ExcView { class: "TypeError"@, message: msg }),
                        ..old(self)@
                    })
                    &&& r matches MethodCall::Done(v) && v.value == MrValue::Nil
                },
                Ok(MethodEntry::Host(h)) => {
                    &&& final(self)@ == old(self)@
                    &&& r matches MethodCall::Run { method, receiver: rv } && method == h && rv
                        == receiver
                },
                Ok(MethodEntry::Dup) => {
                    &&& final(self)@ == spec_dup(old(self)@, receiver.value)
                    &&& r matches MethodCall::Done(v) && mr_equiv(v.value, receiver.value)
                },
            },
    {
        self.dispatch(token, sym, receiver, false)
    }

    /// The trampoline entered when a script calls a class method of the
    /// type registered for `token`; as `call_method`, over the class
    /// dispatch table.
    pub fn call_class_method(&mut self, token: TypeToken, sym: usize, receiver: Value) -> (r:
        MethodCall)
        ensures
            match spec_resolve(old(self)@, token, sym, true) {
                Err(msg) => {
                    &&& final(self)@ == (StateView {
                        exception: Some(ExcView { class: "TypeError"@, message: msg }),
                        ..old(self)@
                    })
                    &&& r matches MethodCall::Done(v) && v.value == MrValue::Nil
                },
                Ok(MethodEntry::Host(h)) => {
                    &&& final(self)@ == old(self)@
                    &&& r matches MethodCall::Run { method, receiver: rv } && method == h && rv
                        == receiver
                },
                Ok(MethodEntry::Dup) => {
                    &&& final(self)@ == spec_dup(old(self)@, receiver.value)
                    &&& r matches MethodCall::Done(v) && mr_equiv(v.value, receiver.value)
                },
            },
    {
        self.dispatch(token, sym, receiver, true)
    }

    /// Shared resolution for the two trampolines.
    fn dispatch(&mut self, token: TypeToken, sym: usize, receiver: Value, class_table: bool) -> (r:
        MethodCall)
        ensures
            match spec_resolve(old(self)@, token, sym, class_table) {
                Err(msg) => {
                    &&& final(self)@ == (StateView {
                        exception: Some(ExcView { class: "TypeError"@, message: msg }),
                        ..old(self)@
                    })
                    &&& r matches MethodCall::Done(v) && v.value == MrValue::Nil
                },
                Ok(MethodEntry::Host(h)) => {
                    &&& final(self)@ == old(self)@
                    &&& r matches MethodCall::Run { method, receiver: rv } && method == h && rv
                        == receiver
                },
                Ok(MethodEntry::Dup) => {
                    &&& final(self)@ == spec_dup(old(self)@, receiver.value)
                    &&& r matches MethodCall::Done(v) && mr_equiv(v.value, receiver.value)
                },
            },
    {
        let i = match self.lookup_reg(token) {
            Some(i) => i,
            None => {
                let v = self.raise("TypeError", "Class not found.");
                return MethodCall::Done(v);
            },
        };
        let entry = if class_table {
            lookup_method(&self.registry[i].class_methods, sym)
        } else {
            lookup_method(&self.registry[i].methods, sym)
        };
        match entry {
            None => {
                let v = self.raise("TypeError", "Method not found.");
                MethodCall::Done(v)
            },
            Some(MethodEntry::Host(h)) => MethodCall::Run { method: h, receiver },
            Some(MethodEntry::Dup) => {
                let v = receiver.dup(self);
                MethodCall::Done(v)
            },
        }
    }

    /// Completes a dispatched call from the outcome of the host closure's
    /// run.  A normal return propagates the value to the scripting
    /// runtime; abnormal termination never crosses the dispatch boundary:
    /// it is converted into an active script exception of the
    /// host-failure class, whose message is the termination payload's
    /// text, or empty when the payload is not string-like.
    pub fn finish_method(&mut self, outcome: HostOutcome) -> (r: Value)
        ensures
            match outcome {
                HostOutcome::Returned(v) => final(self)@ == old(self)@ && r == v,
                HostOutcome::Panicked(p) => final(self)@ == (StateView {
                    exception: Some(
                        ExcView { class: "RustPanic"@, message: spec_payload_text(p) },
                    ),
                    ..old(self)@
                }) && r.value == MrValue::Nil,
            },
    {
        match outcome {
            HostOutcome::Returned(v) => v,
            HostOutcome::Panicked(PanicPayload::Text(s)) => self.raise("RustPanic", s.as_str()),
            HostOutcome::Panicked(PanicPayload::Opaque) => self.raise("RustPanic", ""),
        }
    }
}

} // verus!
