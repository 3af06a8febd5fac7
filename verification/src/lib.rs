//! An embedding bridge for a small scripting runtime.
//!
//! Host code registers native types, values and methods into an embedded
//! interpreter and scripts call back into host code through a dispatch
//! table.  The interpreter state itself is held as explicit data, so the
//! whole bridge - registries, value casting, reference counting of foreign
//! objects, method dispatch and the `require` module loader - is verified.

pub mod err;
pub mod value;
pub mod runtime;
pub mod dispatch;
pub mod eval;
pub mod laws;

pub use dispatch::{HostOutcome, MethodCall, PanicPayload};
pub use err::MrubyError;
pub use runtime::{Loader, MethodEntry, Mruby, MrubyFile, RegOp, TypeToken};
pub use value::{MrValue, Value};
