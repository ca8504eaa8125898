//! The errors of the class grammar and of validation.

use vstd::prelude::*;
use vstd::string::*;

verus! {

/// What went wrong.
#[derive(Clone, Copy, PartialEq, Eq, Debug, Structural)]
pub enum ErrorKind {
    /// The tokens do not match the grammar.
    Syntax,
    /// A member carries `const` more than once.
    DuplicateConstant,
    /// A member carries `static` more than once.
    DuplicateStatic,
    /// A static method declares a receiver.
    StaticReceiver,
    /// The member is a data field, which the grammar reserves and does not accept yet.
    Unimplemented,
}

/// An error with the span of the text that caused it.
#[derive(Debug)]
pub struct ClassError {
    pub kind: ErrorKind,
    pub message: String,
    pub span: proc_macro2::Span,
}

/// An error as the grammar fixes it: kind and message always, the span where this
/// library picks it. Where the span is `None` the underlying parser chose it.
pub ghost struct Failure {
    pub kind: ErrorKind,
    pub message: Seq<char>,
    pub span: Option<proc_macro2::Span>,
}

impl Failure {
    /// A grammar error.
    pub open spec fn syntax(message: Seq<char>, span: Option<proc_macro2::Span>) -> Failure {
        Failure { kind: ErrorKind::Syntax, message, span }
    }

    /// `const` was repeated; `span` is the repeated keyword.
    pub open spec fn duplicate_constant(span: proc_macro2::Span) -> Failure {
        Failure {
            kind: ErrorKind::DuplicateConstant,
            message: "Duplicate modifier `const`."@,
            span: Some(span),
        }
    }

    /// `static` was repeated; `span` is the repeated keyword.
    pub open spec fn duplicate_static(span: proc_macro2::Span) -> Failure {
        Failure {
            kind: ErrorKind::DuplicateStatic,
            message: "Duplicate modifier `static`."@,
            span: Some(span),
        }
    }

    /// A static method has a receiver; `span` is where the receiver begins.
    pub open spec fn static_receiver(span: proc_macro2::Span) -> Failure {
        Failure {
            kind: ErrorKind::StaticReceiver,
            message: "Static class methods cannot have a reciever."@,
            span: Some(span),
        }
    }

    /// A data field was met.
    pub open spec fn unimplemented(span: proc_macro2::Span) -> Failure {
        Failure {
            kind: ErrorKind::Unimplemented,
            message: "ClassAttribute not implemented yet."@,
            span: Some(span),
        }
    }
}

impl ClassError {
    /// Whether this error is the one that `failure` describes.
    pub open spec fn conforms(&self, failure: Failure) -> bool {
        &&& self.kind == failure.kind
        &&& self.message@ == failure.message
        &&& failure.span matches Some(span) ==> self.span == span
    }

    pub fn syntax(message: String, span: proc_macro2::Span) -> (e: ClassError)
        ensures
            e.conforms(Failure::syntax(message@, Some(span))),
            e.conforms(Failure::syntax(message@, None)),
            e.span == span,
    {
        ClassError { kind: ErrorKind::Syntax, message, span }
    }

    pub fn duplicate_constant(span: proc_macro2::Span) -> (e: ClassError)
        ensures
            e.conforms(Failure::duplicate_constant(span)),
    {
        ClassError {
            kind: ErrorKind::DuplicateConstant,
            message: String::from_str("Duplicate modifier `const`."),
            span,
        }
    }

    pub fn duplicate_static(span: proc_macro2::Span) -> (e: ClassError)
        ensures
            e.conforms(Failure::duplicate_static(span)),
    {
        ClassError {
            kind: ErrorKind::DuplicateStatic,
            message: String::from_str("Duplicate modifier `static`."),
            span,
        }
    }

    pub fn static_receiver(span: proc_macro2::Span) -> (e: ClassError)
        ensures
            e.conforms(Failure::static_receiver(span)),
    {
        ClassError {
            kind: ErrorKind::StaticReceiver,
            message: String::from_str("Static class methods cannot have a reciever."),
            span,
        }
    }

    pub fn unimplemented(span: proc_macro2::Span) -> (e: ClassError)
        ensures
            e.conforms(Failure::unimplemented(span)),
    {
        ClassError {
            kind: ErrorKind::Unimplemented,
            message: String::from_str("ClassAttribute not implemented yet."),
            span,
        }
    }
}

} // verus!
