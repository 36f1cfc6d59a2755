use vstd::prelude::*;

verus! {

/// The ways in which the interpreter core can fail.
#[derive(Debug, Clone, Copy, PartialEq, Eq, Structural)]
pub enum BelError {
    /// A symbol is bound neither in the locals nor in the globals.
    UnboundSymbol,
    /// An object of the wrong variant stands where a symbol or a pair is required.
    TypeMismatch,
    /// Too many arguments for a function, or a special form with the wrong number of items.
    ArityMismatch,
    /// A value used as a list is neither nil nor a pair.
    MalformedList,
    /// A closure literal that lacks the `lit clo nil` prefix, its parameters or its body.
    MalformedFunction,
    /// A call of a name that is not bound in the globals.
    UnknownFunction,
    /// Evaluation of a character or a stream, or application of a macro.
    NotImplemented,
    /// Text that does not read as exactly one object.
    ParseError,
    /// Evaluation nested deeper than the interpreter's depth limit.
    RecursionLimitExceeded,
}

} // verus!
