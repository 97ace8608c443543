use vstd::prelude::*;
use crate::position::Position;

verus! {

/// A parsed instruction.  Each variant carries the text the tokenizer pulled
/// out of the word stream.
///
/// - `Listener(name)` opens a listener block bound to an event name.
/// - `CallEvent(name, params)` calls an event, with its ordered raw
///   parameter expressions once the statement has closed.
/// - `ScopeStart` / `ScopeEnd` are `{` and `}`.
/// - `Raw(text)` is a word no rule has consumed yet.
/// - `InitVariable(name, declared_type, is_static_value, cast_requested,
///   value)` declares a variable; `value` holds the literal (static) or the
///   dynamic source text once assigned.
/// - `InitVariableEvent(name, event, params)` declares a variable capturing
///   the result of an event call.
/// - `VariableStaticSet(name, literal)` reassigns from a literal.
/// - `VariableDynamicSet(name, source, cast_requested)` reassigns from a
///   dynamically resolved source.
/// - `VariableEventSet(name, event, params)` reassigns from an event call.
#[derive(Debug)]
pub enum TokenType {
    Listener(String),
    CallEvent(String, Option<Vec<String>>),
    ScopeStart,
    ScopeEnd,
    Raw(String),
    InitVariable(String, String, bool, bool, Option<String>),
    InitVariableEvent(String, String, Option<Vec<String>>),
    VariableStaticSet(String, String),
    VariableDynamicSet(String, String, bool),
    VariableEventSet(String, String, Option<Vec<String>>),
}

/// A token together with the source position it came from.
#[derive(Debug)]
pub struct Token {
    pub token: TokenType,
    pub pos: Position,
}

/// The mathematical shape of a `TokenType`: every piece of text a sequence
/// of characters.
#[verifier::ext_equal]
pub enum TokS {
    Listener(Seq<char>),
    CallEvent(Seq<char>, Option<Seq<Seq<char>>>),
    ScopeStart,
    ScopeEnd,
    Raw(Seq<char>),
    InitVariable(Seq<char>, Seq<char>, bool, bool, Option<Seq<char>>),
    InitVariableEvent(Seq<char>, Seq<char>, Option<Seq<Seq<char>>>),
    VariableStaticSet(Seq<char>, Seq<char>),
    VariableDynamicSet(Seq<char>, Seq<char>, bool),
    VariableEventSet(Seq<char>, Seq<char>, Option<Seq<Seq<char>>>),
}

/// The mathematical shape of a `Token`.
#[verifier::ext_equal]
pub struct TokenS {
    pub tok: TokS,
    pub pos: Position,
}

impl View for TokenType {
    type V = TokS;

    open spec fn view(&self) -> TokS {
        match self {
            TokenType::Listener(name) => TokS::Listener(name@),
            TokenType::CallEvent(name, params) => TokS::CallEvent(name@, params.deep_view()),
            TokenType::ScopeStart => TokS::ScopeStart,
            TokenType::ScopeEnd => TokS::ScopeEnd,
            TokenType::Raw(text) => TokS::Raw(text@),
            TokenType::InitVariable(name, typ, is_static, cast, value) => TokS::InitVariable(
                name@,
                typ@,
                *is_static,
                *cast,
                value.deep_view(),
            ),
            TokenType::InitVariableEvent(name, event, params) => TokS::InitVariableEvent(
                name@,
                event@,
                params.deep_view(),
            ),
            TokenType::VariableStaticSet(name, value) => TokS::VariableStaticSet(name@, value@),
            TokenType::VariableDynamicSet(name, source, cast) => TokS::VariableDynamicSet(
                name@,
                source@,
                *cast,
            ),
            TokenType::VariableEventSet(name, event, params) => TokS::VariableEventSet(
                name@,
                event@,
                params.deep_view(),
            ),
        }
    }
}

impl DeepView for TokenType {
    type V = TokS;

    open spec fn deep_view(&self) -> TokS {
        self.view()
    }
}

impl View for Token {
    type V = TokenS;

    open spec fn view(&self) -> TokenS {
        TokenS { tok: self.token@, pos: self.pos }
    }
}

impl DeepView for Token {
    type V = TokenS;

    open spec fn deep_view(&self) -> TokenS {
        self.view()
    }
}

} // verus!
