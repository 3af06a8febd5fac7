//! Error values returned by the checked entry points of the bridge.

use vstd::prelude::*;

verus! {

/// Spec-level mirror of [`MrubyError`], with string payloads as `Seq<char>`.
///
/// Spec functions that describe how the runtime produces errors build
/// values of this type; [`MrubyError::matches`] ties an executable error
/// to its mirror.
pub enum ErrView {
    Cast(Seq<char>),
    Undef,
    Runtime(Seq<char>),
    Filetype,
    Io(Seq<char>),
}

/// An `enum` containing all possible types of errors.
#[derive(Debug)]
pub enum MrubyError {
    /// type cast error; carries the name of the expected type
    Cast(String),
    /// undefined type error
    Undef,
    /// runtime error; carries the rendered message of the script exception
    Runtime(String),
    /// unrecognized file type error
    Filetype,
    /// file access error; carries a description of the failed access
    Io(String),
}

impl View for MrubyError {
    type V = ErrView;

    open spec fn view(&self) -> ErrView {
        match self {
            MrubyError::Cast(s) => ErrView::Cast(s@),
            MrubyError::Undef => ErrView::Undef,
            MrubyError::Runtime(s) => ErrView::Runtime(s@),
            MrubyError::Filetype => ErrView::Filetype,
            MrubyError::Io(s) => ErrView::Io(s@),
        }
    }
}

/// The rendered text of an error, as a sequence of characters.
pub open spec fn spec_err_message(e: ErrView) -> Seq<char> {
    match e {
        ErrView::Cast(expected) => "Cast error: expected "@ + expected,
        ErrView::Undef => "Undefined error: type is not defined"@,
        ErrView::Runtime(msg) => "Runtime error: "@ + msg,
        ErrView::Filetype => "Filetype error: script needs a compatible (.rb, .mrb) extension"@,
        ErrView::Io(msg) => msg,
    }
}

impl MrubyError {
    /// Does this error realize the given spec-level mirror?
    pub open spec fn matches(&self, e: ErrView) -> bool {
        self@ == e
    }

    /// The rendered text of the error, suitable for surfacing to a script.
    pub fn message(&self) -> (r: String)
        ensures
            r@ == spec_err_message(self@),
    {
        match self {
            MrubyError::Cast(expected) => {
                String::from_str("Cast error: expected ").concat(expected.as_str())
            },
            MrubyError::Undef => String::from_str("Undefined error: type is not defined"),
            MrubyError::Runtime(msg) => String::from_str("Runtime error: ").concat(msg.as_str()),
            MrubyError::Filetype => {
                String::from_str("Filetype error: script needs a compatible (.rb, .mrb) extension")
            },
            MrubyError::Io(msg) => msg.clone(),
        }
    }

    /// A short fixed description of the error kind.
    pub fn description(&self) -> (r: String)
        ensures
            r@ == match self@ {
                ErrView::Cast(_) => "mruby value cast error"@,
                ErrView::Undef => "mruby undefined error"@,
                ErrView::Runtime(_) => "mruby runtime error"@,
                ErrView::Filetype => "filetype mismatch"@,
                ErrView::Io(_) => "io error"@,
            },
    {
        match self {
            MrubyError::Cast(_) => String::from_str("mruby value cast error"),
            MrubyError::Undef => String::from_str("mruby undefined error"),
            MrubyError::Runtime(_) => String::from_str("mruby runtime error"),
            MrubyError::Filetype => String::from_str("filetype mismatch"),
            MrubyError::Io(_) => String::from_str("io error"),
        }
    }
}

} // verus!
