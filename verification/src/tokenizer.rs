use vstd::prelude::*;
use vstd::string::StrSliceExecFns;
use vstd::string::StringExecFns;
use crate::errors::LoadError;
use crate::errors::LoadErrorKind;
use crate::position::Position;
use crate::textutil::ends_with_char;
use crate::textutil::starts_with_char;
use crate::textutil::str_eq;
use crate::textutil::strip_first;
use crate::textutil::strip_last;
use crate::textutil::substring;
use crate::token::TokS;
use crate::token::Token;
use crate::token::TokenS;
use crate::token::TokenType;

verus! {

/// The tokenizer's pending state between words: the running brace depth,
/// the pending-assignment flags, the name of the currently open listener,
/// the parameter list of an event call still accumulating, the tokens
/// emitted so far, and the non-fatal warnings gathered along the way.
pub struct TokState {
    pub depth: int,
    pub static_pending: bool,
    pub dynamic_pending: bool,
    pub cast_pending: bool,
    pub listener: Option<Seq<char>>,
    pub params: Seq<Seq<char>>,
    pub toks: Seq<TokenS>,
    pub warns: Seq<(Position, Seq<char>)>,
}

pub open spec fn init_tok() -> TokState {
    TokState {
        depth: 0,
        static_pending: false,
        dynamic_pending: false,
        cast_pending: false,
        listener: None,
        params: Seq::empty(),
        toks: Seq::empty(),
        warns: Seq::empty(),
    }
}

/// The index of the first `(` in `s`, or `s.len()` if there is none.
pub open spec fn lparen_idx(s: Seq<char>) -> int
    decreases s.len(),
{
    if s.len() == 0 {
        0
    } else if s.first() == '(' {
        0
    } else {
        1 + lparen_idx(s.drop_first())
    }
}

pub proof fn lemma_lparen_idx_char(s: Seq<char>)
    ensures
        0 <= lparen_idx(s) <= s.len(),
        lparen_idx(s) < s.len() ==> s[lparen_idx(s)] == '(',
    decreases s.len(),
{
    if s.len() > 0 && s.first() != '(' {
        lemma_lparen_idx_char(s.drop_first());
        if lparen_idx(s) < s.len() {
            assert(s.drop_first()[lparen_idx(s) - 1] == s[lparen_idx(s)]);
        }
    }
}

pub proof fn lemma_lparen_idx_at(s: Seq<char>, k: int)
    requires
        0 <= k <= s.len(),
        forall|t: int| 0 <= t < k ==> s[t] != '(',
        k == s.len() || s[k] == '(',
    ensures
        lparen_idx(s) == k,
    decreases k,
{
    if k > 0 {
        let d = s.drop_first();
        assert forall|t: int| 0 <= t < k - 1 implies d[t] != '(' by {
            assert(d[t] == s[t + 1]);
        }
        if k - 1 < d.len() {
            assert(d[k - 1] == s[k]);
        }
        lemma_lparen_idx_at(d, k - 1);
    }
}

/// One word of the tokenizer, from state `st`.
///
/// Branches are tried in priority order, mirroring the grammar: event call
/// (`#name`), standalone `(type)` completion, combined `name(type)`
/// declaration, `=`, `<-`/`<=`, braces, then the pending static or dynamic
/// assignment, and finally a bare raw word; a word before any listener is
/// open opens one.  A trailing `;` closes the statements that demand one
/// and is an `UnexpectedSemicolon` anywhere else.
pub open spec fn tok_step(st: TokState, item: (Position, Seq<char>)) -> Result<
    TokState,
    LoadError,
> {
    let pos = item.0;
    let w0 = item.1;
    let semi = w0.len() > 0 && w0.last() == ';';
    let w = if semi {
        w0.drop_last()
    } else {
        w0
    };
    if st.listener is None {
        if semi {
            Err(LoadError { kind: LoadErrorKind::UnexpectedSemicolon, pos: Some(pos) })
        } else {
            Ok(
                TokState {
                    listener: Some(w),
                    toks: st.toks.push(TokenS { tok: TokS::Listener(w), pos }),
                    warns: if w.len() > 0 && w.last() == '{' {
                        st.warns.push((pos, w))
                    } else {
                        st.warns
                    },
                    ..st
                },
            )
        }
    } else if w.len() > 0 && w.first() == '#' {
        let name = w.drop_first();
        if name.len() == 0 {
            Err(LoadError { kind: LoadErrorKind::MissingEventName, pos: Some(pos) })
        } else if st.dynamic_pending {
            if st.toks.len() == 0 {
                Err(LoadError { kind: LoadErrorKind::MissingDynamicTarget, pos: Some(pos) })
            } else {
                let last = st.toks.last();
                match last.tok {
                    TokS::InitVariable(vn, typ, _is, _cast, value) => if value is Some {
                        Err(
                            LoadError {
                                kind: LoadErrorKind::MissingDynamicTarget,
                                pos: Some(pos),
                            },
                        )
                    } else {
                        Ok(
                            TokState {
                                dynamic_pending: !semi,
                                toks: st.toks.drop_last().push(
                                    TokenS { tok: TokS::InitVariableEvent(vn, name, None), pos },
                                ),
                                ..st
                            },
                        )
                    },
                    TokS::Raw(vn) => Ok(
                        TokState {
                            dynamic_pending: !semi,
                            toks: st.toks.drop_last().push(
                                TokenS { tok: TokS::VariableEventSet(vn, name, None), pos },
                            ),
                            ..st
                        },
                    ),
                    _ => Err(
                        LoadError { kind: LoadErrorKind::MissingDynamicTarget, pos: Some(pos) },
                    ),
                }
            }
        } else {
            Ok(
                TokState {
                    dynamic_pending: !semi,
                    toks: st.toks.push(TokenS { tok: TokS::CallEvent(name, None), pos }),
                    ..st
                },
            )
        }
    } else if w.len() > 0 && w.first() == '(' && w.last() == ')' {
        if semi {
            Err(LoadError { kind: LoadErrorKind::UnexpectedSemicolon, pos: Some(pos) })
        } else {
            let typ = w.subrange(1, w.len() - 1);
            if st.toks.len() > 0 && st.toks.last().tok is Raw {
                let vn = st.toks.last().tok->Raw_0;
                Ok(
                    TokState {
                        toks: st.toks.drop_last().push(
                            TokenS { tok: TokS::InitVariable(vn, typ, true, false, None), pos },
                        ),
                        ..st
                    },
                )
            } else {
                Err(LoadError { kind: LoadErrorKind::MissingVariableName, pos: Some(pos) })
            }
        }
    } else if !st.static_pending && !st.dynamic_pending && w.len() > 0 && w.last() == ')' && 0
        < lparen_idx(w) < w.len() {
        if semi {
            Err(LoadError { kind: LoadErrorKind::UnexpectedSemicolon, pos: Some(pos) })
        } else {
            let cut = lparen_idx(w);
            let vn = w.take(cut);
            let typ = w.subrange(cut + 1, w.len() - 1);
            Ok(
                TokState {
                    toks: st.toks.push(
                        TokenS { tok: TokS::InitVariable(vn, typ, true, false, None), pos },
                    ),
                    ..st
                },
            )
        }
    } else if w == "="@ {
        if st.toks.len() > 0 && (st.toks.last().tok is Raw || st.toks.last().tok
            is InitVariable) {
            if semi {
                Err(LoadError { kind: LoadErrorKind::UnexpectedSemicolon, pos: Some(pos) })
            } else {
                Ok(TokState { static_pending: true, ..st })
            }
        } else {
            Err(LoadError { kind: LoadErrorKind::MissingVariableName, pos: Some(pos) })
        }
    } else if w == "<-"@ || w == "<="@ {
        if st.toks.len() > 0 && (st.toks.last().tok is Raw || st.toks.last().tok is InitVariable
            || st.toks.last().tok is CallEvent || st.toks.last().tok is InitVariableEvent
            || st.toks.last().tok is VariableEventSet) {
            if semi {
                Err(LoadError { kind: LoadErrorKind::UnexpectedSemicolon, pos: Some(pos) })
            } else {
                Ok(TokState { dynamic_pending: true, cast_pending: w == "<="@, ..st })
            }
        } else {
            Err(LoadError { kind: LoadErrorKind::MissingDynamicTarget, pos: Some(pos) })
        }
    } else if w == "{"@ {
        if semi {
            Err(LoadError { kind: LoadErrorKind::UnexpectedSemicolon, pos: Some(pos) })
        } else {
            Ok(
                TokState {
                    depth: st.depth + 1,
                    toks: st.toks.push(TokenS { tok: TokS::ScopeStart, pos }),
                    ..st
                },
            )
        }
    } else if w == "}"@ {
        if st.depth - 1 < 0 {
            Err(LoadError { kind: LoadErrorKind::UnbalancedScope, pos: Some(pos) })
        } else if semi {
            Err(LoadError { kind: LoadErrorKind::UnexpectedSemicolon, pos: Some(pos) })
        } else {
            Ok(
                TokState {
                    depth: st.depth - 1,
                    listener: if st.depth - 1 == 0 {
                        None
                    } else {
                        st.listener
                    },
                    toks: st.toks.push(TokenS { tok: TokS::ScopeEnd, pos }),
                    ..st
                },
            )
        }
    } else if st.static_pending {
        if st.toks.len() == 0 {
            if semi {
                Ok(TokState { static_pending: false, ..st })
            } else {
                Err(LoadError { kind: LoadErrorKind::MissingSemicolon, pos: Some(pos) })
            }
        } else {
            let last = st.toks.last();
            match last.tok {
                TokS::Raw(vn) => if semi {
                    Ok(
                        TokState {
                            static_pending: false,
                            toks: st.toks.drop_last().push(
                                TokenS { tok: TokS::VariableStaticSet(vn, w), pos },
                            ),
                            ..st
                        },
                    )
                } else {
                    Err(LoadError { kind: LoadErrorKind::MissingSemicolon, pos: Some(pos) })
                },
                TokS::InitVariable(vn, typ, _is, _cast, value) => if value is Some {
                    Err(LoadError { kind: LoadErrorKind::DoubleInitialization, pos: Some(pos) })
                } else if semi {
                    Ok(
                        TokState {
                            static_pending: false,
                            toks: st.toks.drop_last().push(
                                TokenS {
                                    tok: TokS::InitVariable(vn, typ, true, false, Some(w)),
                                    pos,
                                },
                            ),
                            ..st
                        },
                    )
                } else {
                    Err(LoadError { kind: LoadErrorKind::MissingSemicolon, pos: Some(pos) })
                },
                _ => Err(LoadError { kind: LoadErrorKind::MissingVariableName, pos: Some(pos) }),
            }
        }
    } else if st.dynamic_pending {
        if st.toks.len() == 0 {
            if semi {
                Ok(st)
            } else {
                Err(LoadError { kind: LoadErrorKind::MissingSemicolon, pos: Some(pos) })
            }
        } else {
            let last = st.toks.last();
            match last.tok {
                TokS::Raw(vn) => if semi {
                    Ok(
                        TokState {
                            dynamic_pending: false,
                            toks: st.toks.drop_last().push(
                                TokenS {
                                    tok: TokS::VariableDynamicSet(vn, w, st.cast_pending),
                                    pos,
                                },
                            ),
                            ..st
                        },
                    )
                } else {
                    Err(LoadError { kind: LoadErrorKind::MissingSemicolon, pos: Some(pos) })
                },
                TokS::InitVariable(vn, typ, _is, _cast, value) => if value is Some {
                    Err(LoadError { kind: LoadErrorKind::DoubleInitialization, pos: Some(pos) })
                } else if semi {
                    Ok(
                        TokState {
                            dynamic_pending: false,
                            toks: st.toks.drop_last().push(
                                TokenS {
                                    tok: TokS::InitVariable(
                                        vn,
                                        typ,
                                        false,
                                        st.cast_pending,
                                        Some(w),
                                    ),
                                    pos,
                                },
                            ),
                            ..st
                        },
                    )
                } else {
                    Err(LoadError { kind: LoadErrorKind::MissingSemicolon, pos: Some(pos) })
                },
                TokS::CallEvent(en, _old) => if semi {
                    Ok(
                        TokState {
                            dynamic_pending: false,
                            params: Seq::empty(),
                            toks: st.toks.drop_last().push(
                                TokenS {
                                    tok: TokS::CallEvent(en, Some(st.params.push(w))),
                                    pos,
                                },
                            ),
                            ..st
                        },
                    )
                } else {
                    Ok(TokState { params: st.params.push(w), ..st })
                },
                TokS::InitVariableEvent(vn, en, _old) => if semi {
                    Ok(
                        TokState {
                            dynamic_pending: false,
                            params: Seq::empty(),
                            toks: st.toks.drop_last().push(
                                TokenS {
                                    tok: TokS::InitVariableEvent(
                                        vn,
                                        en,
                                        Some(st.params.push(w)),
                                    ),
                                    pos,
                                },
                            ),
                            ..st
                        },
                    )
                } else {
                    Ok(TokState { params: st.params.push(w), ..st })
                },
                TokS::VariableEventSet(vn, en, _old) => if semi {
                    Ok(
                        TokState {
                            dynamic_pending: false,
                            params: Seq::empty(),
                            toks: st.toks.drop_last().push(
                                TokenS {
                                    tok: TokS::VariableEventSet(vn, en, Some(st.params.push(w))),
                                    pos,
                                },
                            ),
                            ..st
                        },
                    )
                } else {
                    Ok(TokState { params: st.params.push(w), ..st })
                },
                _ => Err(LoadError { kind: LoadErrorKind::MissingVariableName, pos: Some(pos) }),
            }
        }
    } else if semi {
        Err(LoadError { kind: LoadErrorKind::UnexpectedSemicolon, pos: Some(pos) })
    } else {
        Ok(TokState { toks: st.toks.push(TokenS { tok: TokS::Raw(w), pos }), ..st })
    }
}

/// The tokenizer folded over a word stream, aborting at the first error.
pub open spec fn tok_run(st: TokState, items: Seq<(Position, Seq<char>)>) -> Result<
    TokState,
    LoadError,
>
    decreases items.len(),
{
    if items.len() == 0 {
        Ok(st)
    } else {
        match tok_run(st, items.drop_last()) {
            Err(e) => Err(e),
            Ok(s2) => tok_step(s2, items.last()),
        }
    }
}

/// What the tokenizer returns for a whole word stream: the tokens and the
/// warnings, or the first error; scopes left open at the end of the stream
/// are an `UnbalancedScope` with no position.
pub open spec fn tokenize_spec(items: Seq<(Position, Seq<char>)>) -> Result<
    (Seq<TokenS>, Seq<(Position, Seq<char>)>),
    LoadError,
> {
    match tok_run(init_tok(), items) {
        Err(e) => Err(e),
        Ok(st) => if st.depth > 0 {
            Err(LoadError { kind: LoadErrorKind::UnbalancedScope, pos: None })
        } else {
            Ok((st.toks, st.warns))
        },
    }
}

/// A tokenizer error reached on a prefix is the result of the whole run.
pub proof fn lemma_tok_run_err_propagates(items: Seq<(Position, Seq<char>)>, i: int)
    requires
        0 <= i <= items.len(),
        tok_run(init_tok(), items.take(i)) is Err,
    ensures
        tok_run(init_tok(), items) == tok_run(init_tok(), items.take(i)),
    decreases items.len() - i,
{
    if i == items.len() {
        assert(items.take(i) =~= items);
    } else {
        assert(items.take(i + 1).drop_last() =~= items.take(i));
        lemma_tok_run_err_propagates(items, i + 1);
    }
}

/// Scope balance during tokenization: every intermediate state the
/// tokenizer reaches without failing has a non-negative scope depth.  A `}`
/// that would take the depth below zero fails immediately instead.
pub proof fn lemma_scope_depth_never_negative(items: Seq<(Position, Seq<char>)>, i: int)
    requires
        0 <= i <= items.len(),
    ensures
        tok_run(init_tok(), items.take(i)) matches Ok(st) ==> st.depth >= 0,
    decreases i,
{
    if i > 0 {
        lemma_scope_depth_never_negative(items, i - 1);
        assert(items.take(i).drop_last() =~= items.take(i - 1));
    }
}

/// A step that fails at word `i` decides the whole tokenization.
proof fn lemma_step_err(
    stream: Seq<(Position, Seq<char>)>,
    i: int,
    pre: TokState,
    e: LoadError,
)
    requires
        0 <= i < stream.len(),
        tok_run(init_tok(), stream.take(i)) == Ok::<TokState, LoadError>(pre),
        tok_step(pre, stream[i]) == Err::<TokState, LoadError>(e),
    ensures
        tokenize_spec(stream) == Err::<(Seq<TokenS>, Seq<(Position, Seq<char>)>), LoadError>(e),
{
    assert(stream.take(i + 1).drop_last() =~= stream.take(i));
    assert(stream.take(i + 1).last() == stream[i]);
    lemma_tok_run_err_propagates(stream, i + 1);
}

/// The index of the first `(` in `s`, or its length if there is none.
fn find_lparen(s: &str) -> (r: usize)
    ensures
        r as int == lparen_idx(s@),
        r <= s@.len(),
{
    let len = s.unicode_len();
    let mut j: usize = 0;
    while j < len && s.get_char(j) != '('
        invariant
            j <= len,
            len == s@.len(),
            forall|t: int| 0 <= t < j ==> s@[t] != '(',
        decreases len - j,
    {
        j += 1;
    }
    proof {
        lemma_lparen_idx_at(s@, j as int);
    }
    j
}

/// Turn positioned instruction words into typed tokens via the pending-state
/// machine described by `tok_step`, gathering non-fatal warnings (the word
/// each warning names, with its position) along the way.
#[verifier::rlimit(100)]
pub fn tokenize(instructions: Vec<(Position, String)>) -> (r: Result<
    (Vec<Token>, Vec<(Position, String)>),
    LoadError,
>)
    ensures
        match r {
            Ok(out) => tokenize_spec(instructions.deep_view()) == Ok::<_, LoadError>(
                (out.0.deep_view(), out.1.deep_view()),
            ),
            Err(e) => tokenize_spec(instructions.deep_view()) == Err::<
                (Seq<TokenS>, Seq<(Position, Seq<char>)>),
                _,
            >(e),
        },
{
    let ghost stream = instructions.deep_view();
    let mut depth: usize = 0;
    let mut stat: bool = false;
    let mut dynp: bool = false;
    let mut cast: bool = false;
    let mut listener: Option<String> = None;
    let mut params: Vec<String> = Vec::new();
    let mut toks: Vec<Token> = Vec::new();
    let mut warns: Vec<(Position, String)> = Vec::new();
    let mut i: usize = 0;
    proof {
        assert(stream.take(0) =~= Seq::<(Position, Seq<char>)>::empty());
        assert(params.deep_view() =~= Seq::<Seq<char>>::empty());
        assert(toks.deep_view() =~= Seq::<TokenS>::empty());
        assert(warns.deep_view() =~= Seq::<(Position, Seq<char>)>::empty());
    }
    while i < instructions.len()
        invariant
            i <= instructions.len(),
            depth <= i,
            stream == instructions.deep_view(),
            tok_run(init_tok(), stream.take(i as int)) == Ok::<TokState, LoadError>(
                TokState {
                    depth: depth as int,
                    static_pending: stat,
                    dynamic_pending: dynp,
                    cast_pending: cast,
                    listener: listener.deep_view(),
                    params: params.deep_view(),
                    toks: toks.deep_view(),
                    warns: warns.deep_view(),
                },
            ),
        decreases instructions.len() - i,
    {
        let ghost pre = TokState {
            depth: depth as int,
            static_pending: stat,
            dynamic_pending: dynp,
            cast_pending: cast,
            listener: listener.deep_view(),
            params: params.deep_view(),
            toks: toks.deep_view(),
            warns: warns.deep_view(),
        };
        let ghost item = stream[i as int];
        proof {
            assert(stream.take(i + 1 as int).drop_last() =~= stream.take(i as int));
            assert(stream.take(i + 1 as int).last() == item);
        }
        let pos: Position = instructions[i].0;
        let w0: &String = &instructions[i].1;
        let semi = ends_with_char(w0.as_str(), ';');
        let w: String = if semi {
            strip_last(w0.as_str())
        } else {
            w0.clone()
        };
        if listener.is_none() {
            if semi {
                let e = LoadError::at(LoadErrorKind::UnexpectedSemicolon, pos);
                proof {
                    lemma_step_err(stream, i as int, pre, e);
                }
                return Err(e);
            }
            if ends_with_char(w.as_str(), '{') {
                warns.push((pos, w.clone()));
            }
            toks.push(Token { token: TokenType::Listener(w.clone()), pos });
            listener = Some(w);
        } else if starts_with_char(w.as_str(), '#') {
            let name = strip_first(w.as_str());
            if name.as_str().is_empty() {
                let e = LoadError::at(LoadErrorKind::MissingEventName, pos);
                proof {
                    lemma_step_err(stream, i as int, pre, e);
                }
                return Err(e);
            }
            if dynp {
                if toks.len() == 0 {
                    let e = LoadError::at(LoadErrorKind::MissingDynamicTarget, pos);
                    proof {
                        lemma_step_err(stream, i as int, pre, e);
                    }
                    return Err(e);
                }
                let tok = toks.pop().unwrap();
                match tok.token {
                    TokenType::InitVariable(vn, _typ, _is, _c, value) => {
                        if value.is_some() {
                            let e = LoadError::at(LoadErrorKind::MissingDynamicTarget, pos);
                            proof {
                                lemma_step_err(stream, i as int, pre, e);
                            }
                            return Err(e);
                        }
                        toks.push(
                            Token { token: TokenType::InitVariableEvent(vn, name, None), pos },
                        );
                        dynp = !semi;
                    },
                    TokenType::Raw(vn) => {
                        toks.push(
                            Token { token: TokenType::VariableEventSet(vn, name, None), pos },
                        );
                        dynp = !semi;
                    },
                    _ => {
                        let e = LoadError::at(LoadErrorKind::MissingDynamicTarget, pos);
                        proof {
                            lemma_step_err(stream, i as int, pre, e);
                        }
                        return Err(e);
                    },
                }
            } else {
                toks.push(Token { token: TokenType::CallEvent(name, None), pos });
                dynp = !semi;
            }
        } else if starts_with_char(w.as_str(), '(') && ends_with_char(w.as_str(), ')') {
            if semi {
                let e = LoadError::at(LoadErrorKind::UnexpectedSemicolon, pos);
                proof {
                    lemma_step_err(stream, i as int, pre, e);
                }
                return Err(e);
            }
            let wlen = w.as_str().unicode_len();
            let typ = substring(w.as_str(), 1, wlen - 1);
            if toks.len() == 0 {
                let e = LoadError::at(LoadErrorKind::MissingVariableName, pos);
                proof {
                    lemma_step_err(stream, i as int, pre, e);
                }
                return Err(e);
            }
            let tok = toks.pop().unwrap();
            match tok.token {
                TokenType::Raw(vn) => {
                    toks.push(
                        Token { token: TokenType::InitVariable(vn, typ, true, false, None), pos },
                    );
                },
                _ => {
                    let e = LoadError::at(LoadErrorKind::MissingVariableName, pos);
                    proof {
                        lemma_step_err(stream, i as int, pre, e);
                    }
                    return Err(e);
                },
            }
        } else {
            let wlen = w.as_str().unicode_len();
            let cut = find_lparen(w.as_str());
            if !stat && !dynp && ends_with_char(w.as_str(), ')') && 0 < cut && cut < wlen {
                if semi {
                    let e = LoadError::at(LoadErrorKind::UnexpectedSemicolon, pos);
                    proof {
                        lemma_step_err(stream, i as int, pre, e);
                    }
                    return Err(e);
                }
                proof {
                    lemma_lparen_idx_char(w@);
                    assert(w@[cut as int] == '(');
                    assert(w@[wlen - 1] == ')');
                }
                let vn = substring(w.as_str(), 0, cut);
                let typ = substring(w.as_str(), cut + 1, wlen - 1);
                proof {
                    assert(vn@ =~= w@.take(cut as int));
                }
                toks.push(
                    Token { token: TokenType::InitVariable(vn, typ, true, false, None), pos },
                );
            } else if str_eq(w.as_str(), "=") {
                let ok_target = if toks.len() == 0 {
                    false
                } else {
                    match &toks[toks.len() - 1].token {
                        TokenType::Raw(_) => true,
                        TokenType::InitVariable(_, _, _, _, _) => true,
                        _ => false,
                    }
                };
                if !ok_target {
                    let e = LoadError::at(LoadErrorKind::MissingVariableName, pos);
                    proof {
                        lemma_step_err(stream, i as int, pre, e);
                    }
                    return Err(e);
                }
                if semi {
                    let e = LoadError::at(LoadErrorKind::UnexpectedSemicolon, pos);
                    proof {
                        lemma_step_err(stream, i as int, pre, e);
                    }
                    return Err(e);
                }
                stat = true;
            } else if str_eq(w.as_str(), "<-") || str_eq(w.as_str(), "<=") {
                let ok_target = if toks.len() == 0 {
                    false
                } else {
                    match &toks[toks.len() - 1].token {
                        TokenType::Raw(_) => true,
                        TokenType::InitVariable(_, _, _, _, _) => true,
                        TokenType::CallEvent(_, _) => true,
                        TokenType::InitVariableEvent(_, _, _) => true,
                        TokenType::VariableEventSet(_, _, _) => true,
                        _ => false,
                    }
                };
                if !ok_target {
                    let e = LoadError::at(LoadErrorKind::MissingDynamicTarget, pos);
                    proof {
                        lemma_step_err(stream, i as int, pre, e);
                    }
                    return Err(e);
                }
                if semi {
                    let e = LoadError::at(LoadErrorKind::UnexpectedSemicolon, pos);
                    proof {
                        lemma_step_err(stream, i as int, pre, e);
                    }
                    return Err(e);
                }
                cast = str_eq(w.as_str(), "<=");
                dynp = true;
            } else if str_eq(w.as_str(), "{") {
                if semi {
                    let e = LoadError::at(LoadErrorKind::UnexpectedSemicolon, pos);
                    proof {
                        lemma_step_err(stream, i as int, pre, e);
                    }
                    return Err(e);
                }
                toks.push(Token { token: TokenType::ScopeStart, pos });
                depth += 1;
            } else if str_eq(w.as_str(), "}") {
                if depth == 0 {
                    let e = LoadError::at(LoadErrorKind::UnbalancedScope, pos);
                    proof {
                        lemma_step_err(stream, i as int, pre, e);
                    }
                    return Err(e);
                }
                if semi {
                    let e = LoadError::at(LoadErrorKind::UnexpectedSemicolon, pos);
                    proof {
                        lemma_step_err(stream, i as int, pre, e);
                    }
                    return Err(e);
                }
                toks.push(Token { token: TokenType::ScopeEnd, pos });
                depth -= 1;
                if depth == 0 {
                    listener = None;
                }
            } else if stat {
                if toks.len() == 0 {
                    if !semi {
                        let e = LoadError::at(LoadErrorKind::MissingSemicolon, pos);
                        proof {
                            lemma_step_err(stream, i as int, pre, e);
                        }
                        return Err(e);
                    }
                    stat = false;
                } else {
                    let tok = toks.pop().unwrap();
                    match tok.token {
                        TokenType::Raw(vn) => {
                            if !semi {
                                let e = LoadError::at(LoadErrorKind::MissingSemicolon, pos);
                                proof {
                                    lemma_step_err(stream, i as int, pre, e);
                                }
                                return Err(e);
                            }
                            toks.push(
                                Token { token: TokenType::VariableStaticSet(vn, w.clone()), pos },
                            );
                            stat = false;
                        },
                        TokenType::InitVariable(vn, typ, _is, _c, value) => {
                            if value.is_some() {
                                let e = LoadError::at(LoadErrorKind::DoubleInitialization, pos);
                                proof {
                                    lemma_step_err(stream, i as int, pre, e);
                                }
                                return Err(e);
                            }
                            if !semi {
                                let e = LoadError::at(LoadErrorKind::MissingSemicolon, pos);
                                proof {
                                    lemma_step_err(stream, i as int, pre, e);
                                }
                                return Err(e);
                            }
                            toks.push(
                                Token {
                                    token: TokenType::InitVariable(
                                        vn,
                                        typ,
                                        true,
                                        false,
                                        Some(w.clone()),
                                    ),
                                    pos,
                                },
                            );
                            stat = false;
                        },
                        _ => {
                            let e = LoadError::at(LoadErrorKind::MissingVariableName, pos);
                            proof {
                                lemma_step_err(stream, i as int, pre, e);
                            }
                            return Err(e);
                        },
                    }
                }
            } else if dynp {
                if toks.len() == 0 {
                    if !semi {
                        let e = LoadError::at(LoadErrorKind::MissingSemicolon, pos);
                        proof {
                            lemma_step_err(stream, i as int, pre, e);
                        }
                        return Err(e);
                    }
                } else {
                    let tok = toks.pop().unwrap();
                    match tok.token {
                        TokenType::Raw(vn) => {
                            if !semi {
                                let e = LoadError::at(LoadErrorKind::MissingSemicolon, pos);
                                proof {
                                    lemma_step_err(stream, i as int, pre, e);
                                }
                                return Err(e);
                            }
                            toks.push(
                                Token {
                                    token: TokenType::VariableDynamicSet(vn, w.clone(), cast),
                                    pos,
                                },
                            );
                            dynp = false;
                        },
                        TokenType::InitVariable(vn, typ, _is, _c, value) => {
                            if value.is_some() {
                                let e = LoadError::at(LoadErrorKind::DoubleInitialization, pos);
                                proof {
                                    lemma_step_err(stream, i as int, pre, e);
                                }
                                return Err(e);
                            }
                            if !semi {
                                let e = LoadError::at(LoadErrorKind::MissingSemicolon, pos);
                                proof {
                                    lemma_step_err(stream, i as int, pre, e);
                                }
                                return Err(e);
                            }
                            toks.push(
                                Token {
                                    token: TokenType::InitVariable(
                                        vn,
                                        typ,
                                        false,
                                        cast,
                                        Some(w.clone()),
                                    ),
                                    pos,
                                },
                            );
                            dynp = false;
                        },
                        TokenType::CallEvent(en, old) => {
                            params.push(w.clone());
                            if semi {
                                let ps = params;
                                params = Vec::new();
                                toks.push(
                                    Token { token: TokenType::CallEvent(en, Some(ps)), pos },
                                );
                                dynp = false;
                            } else {
                                toks.push(
                                    Token { token: TokenType::CallEvent(en, old), pos: tok.pos },
                                );
                            }
                        },
                        TokenType::InitVariableEvent(vn, en, old) => {
                            params.push(w.clone());
                            if semi {
                                let ps = params;
                                params = Vec::new();
                                toks.push(
                                    Token {
                                        token: TokenType::InitVariableEvent(vn, en, Some(ps)),
                                        pos,
                                    },
                                );
                                dynp = false;
                            } else {
                                toks.push(
                                    Token {
                                        token: TokenType::InitVariableEvent(vn, en, old),
                                        pos: tok.pos,
                                    },
                                );
                            }
                        },
                        TokenType::VariableEventSet(vn, en, old) => {
                            params.push(w.clone());
                            if semi {
                                let ps = params;
                                params = Vec::new();
                                toks.push(
                                    Token {
                                        token: TokenType::VariableEventSet(vn, en, Some(ps)),
                                        pos,
                                    },
                                );
                                dynp = false;
                            } else {
                                toks.push(
                                    Token {
                                        token: TokenType::VariableEventSet(vn, en, old),
                                        pos: tok.pos,
                                    },
                                );
                            }
                        },
                        _ => {
                            let e = LoadError::at(LoadErrorKind::MissingVariableName, pos);
                            proof {
                                lemma_step_err(stream, i as int, pre, e);
                            }
                            return Err(e);
                        },
                    }
                }
            } else {
                if semi {
                    let e = LoadError::at(LoadErrorKind::UnexpectedSemicolon, pos);
                    proof {
                        lemma_step_err(stream, i as int, pre, e);
                    }
                    return Err(e);
                }
                toks.push(Token { token: TokenType::Raw(w.clone()), pos });
            }
        }
        proof {
            let post_r = tok_step(pre, item);
            assert(post_r is Ok);
            let post = post_r->Ok_0;
            assert(listener.deep_view() == post.listener);
            assert(params.deep_view() =~~= post.params);
            assert(toks.deep_view() =~~= post.toks);
            assert(warns.deep_view() =~~= post.warns);
            assert(TokState {
                depth: depth as int,
                static_pending: stat,
                dynamic_pending: dynp,
                cast_pending: cast,
                listener: listener.deep_view(),
                params: params.deep_view(),
                toks: toks.deep_view(),
                warns: warns.deep_view(),
            } == post);
        }
        i += 1;
    }
    proof {
        assert(stream.take(i as int) =~= stream);
    }
    if depth > 0 {
        let e = LoadError::global(LoadErrorKind::UnbalancedScope);
        return Err(e);
    }
    Ok((toks, warns))
}

} // verus!
