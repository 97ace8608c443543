use vstd::prelude::*;
use crate::position::Position;

verus! {

/// A failure raised while loading a script, before the virtual machine runs:
/// by the pre-parser, the tokenizer, or the grouping pass.  Loading is
/// fail-fast: the first such error aborts the whole load.
#[derive(Debug, Clone, Copy, PartialEq, Eq, Structural)]
pub enum LoadErrorKind {
    /// The input ended while a quoted string literal was still being fused.
    UnterminatedString,
    /// A `}` with no open scope, or an open `{` left at the end of the input.
    UnbalancedScope,
    /// A statement that requires a trailing `;` did not end with one.
    MissingSemicolon,
    /// A declaration tried to give a value to an already-valued declaration.
    DoubleInitialization,
    /// A word that matches no rule of the grammar in the current state.
    UnexpectedToken,
    /// A trailing `;` on a word where no statement was ready to close.
    UnexpectedSemicolon,
    /// `(type)`, `=` or a static value with no variable name before it.
    MissingVariableName,
    /// `<-` / `<=` with no assignable target before it, or an event pipe
    /// with no target to receive it.
    MissingDynamicTarget,
    /// A `#` with no event name after it.
    MissingEventName,
}

/// A load failure together with the best-known source position.  A few
/// whole-stream failures carry no position at all.
#[derive(Debug, Clone, Copy, PartialEq, Eq)]
pub struct LoadError {
    pub kind: LoadErrorKind,
    pub pos: Option<Position>,
}

/// A failure raised while the virtual machine executes a loaded script.
/// Execution is fail-fast: the first such error aborts the run.
#[derive(Debug, Clone, Copy, PartialEq, Eq, Structural)]
pub enum RuntimeErrorKind {
    /// An event name that the registry does not know.
    UnknownEvent,
    /// An event was fed a number of parameters its contract refuses.
    ParamCountMismatch,
    /// An event rejected one of the parameters fed to it.
    InvalidParameter,
    /// A declaration for a name that already exists in the innermost scope.
    VariableAlreadyExists,
    /// An assignment to a name no scope holds.
    VariableNotFound,
    /// A declaration with no initial value.
    MissingInitialValue,
    /// A value whose type tag differs from the target's, with no cast asked.
    TypeMismatch,
    /// A requested cast whose rendered text does not re-parse under the
    /// target type's literal grammar.
    CastFailure,
    /// A `}` that would pop the last remaining scope.
    EmptyScopeStack,
    /// A dynamic source that is neither a variable, a quoted string literal,
    /// nor an integer literal.
    InvalidDynamicSource,
    /// A field name that an event-typed value does not expose.
    EventFieldNotFound,
    /// A raw, unconsumed word reached execution: a tokenizer defect.
    UnconsumedToken,
    /// A dynamic source naming the event being dispatched itself, which this
    /// design deliberately leaves unsupported, as are declarations of the
    /// floating-point tags, whose values the verified core cannot hold.
    NotSupported,
    /// A declared type name outside the recognized set.
    UnknownType,
    /// `null` assigned to a variable whose declared type lacks the leading
    /// `?` nullability marker.
    NullNotAllowed,
    /// A division or modulo event fed a zero divisor.  The chosen policy is
    /// an explicit fatal error, never a sentinel value.
    DivisionByZero,
    /// An arithmetic event whose exact result does not fit the signed
    /// 128-bit internal accumulator.
    ArithmeticOverflow,
    /// Nested event dispatch deeper than the fixed recursion budget.
    RecursionLimitExceeded,
}

/// A runtime failure together with the best-known source position.
#[derive(Debug, Clone, Copy, PartialEq, Eq)]
pub struct RuntimeError {
    pub kind: RuntimeErrorKind,
    pub pos: Option<Position>,
}

impl LoadError {
    pub fn at(kind: LoadErrorKind, pos: Position) -> (e: LoadError)
        ensures
            e == (LoadError { kind, pos: Some(pos) }),
    {
        LoadError { kind, pos: Some(pos) }
    }

    pub fn global(kind: LoadErrorKind) -> (e: LoadError)
        ensures
            e == (LoadError { kind, pos: None::<Position> }),
    {
        LoadError { kind, pos: None }
    }
}

impl RuntimeError {
    pub fn at(kind: RuntimeErrorKind, pos: Position) -> (e: RuntimeError)
        ensures
            e == (RuntimeError { kind, pos: Some(pos) }),
    {
        RuntimeError { kind, pos: Some(pos) }
    }

    pub fn global(kind: RuntimeErrorKind) -> (e: RuntimeError)
        ensures
            e == (RuntimeError { kind, pos: None::<Position> }),
    {
        RuntimeError { kind, pos: None }
    }
}

} // verus!
