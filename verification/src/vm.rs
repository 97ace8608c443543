use vstd::prelude::*;
use vstd::string::StrSliceExecFns;
use vstd::string::StringExecFns;
use crate::errors::RuntimeError;
use crate::errors::RuntimeErrorKind;
use crate::events::ev_call;
use crate::events::ev_check_count;
use crate::events::ev_get_var;
use crate::events::ev_name;
use crate::events::get_event;
use crate::events::get_event_spec;
use crate::events::EvS;
use crate::events::EventInstance;
use crate::grouping::key_idx;
use crate::grouping::lemma_key_idx_at;
use crate::grouping::EventPipeline;
use crate::grouping::PipelineS;
use crate::numbers::spec_parse_int;
use crate::position::Position;
use crate::scope::find_var;
use crate::scope::find_var_spec;
use crate::scope::get_var_value;
use crate::scope::get_var_value_spec;
use crate::scope::lemma_find_in_range;
use crate::scope::var_idx;
use crate::scope::var_idx_in;
use crate::scope::Scope;
use crate::textutil::str_eq;
use crate::textutil::substring;
use crate::token::TokS;
use crate::token::Token;
use crate::token::TokenS;
use crate::variables::var_new_dyn_spec;
use crate::variables::var_new_spec;
use crate::variables::var_set_dyn_spec;
use crate::variables::var_set_static_spec;
use crate::variables::ValS;
use crate::variables::Variable;
use crate::variables::VariableS;
use crate::variables::VariableType;

verus! {

/// The nested-dispatch budget: deeper event recursion than this fails
/// with `RecursionLimitExceeded` instead of growing the call stack
/// without bound.
pub const RUN_FUEL: u64 = 1000;

/// The run state the virtual machine threads through execution: the scope
/// stack and the lines emitted so far.
#[verifier::ext_equal]
pub struct RunS {
    pub scopes: Seq<Seq<VariableS>>,
    pub out: Seq<Seq<char>>,
}

/// The position a dispatch reports its failures at: the calling token's,
/// or none for the synthetic root dispatch.
pub open spec fn caller_pos(caller: Option<(Position, EvS)>) -> Option<Position> {
    match caller {
        None => None,
        Some((p, _)) => Some(p),
    }
}

/// Resolving a dynamic source against the live state.  A source naming
/// the event being dispatched itself is deliberately unsupported.  A
/// variable's value is returned directly, except that an event-typed
/// variable exposes the field named `field` instead.  A source no scope
/// knows falls back to a quoted string literal or a bare integer literal
/// carried at the accumulator width.
pub open spec fn resolve_spec(
    field: Seq<char>,
    cur: EvS,
    source: Seq<char>,
    scopes: Seq<Seq<VariableS>>,
    pos: Position,
) -> Result<ValS, RuntimeError> {
    if source == ev_name(cur) {
        Err(RuntimeError { kind: RuntimeErrorKind::NotSupported, pos: Some(pos) })
    } else {
        match get_var_value_spec(source, scopes) {
            Some(v) => match v {
                ValS::Event(ev) => match ev_get_var(ev, field) {
                    Some(x) => Ok(x),
                    None => Err(
                        RuntimeError {
                            kind: RuntimeErrorKind::EventFieldNotFound,
                            pos: Some(pos),
                        },
                    ),
                },
                _ => Ok(v),
            },
            None => if source.len() > 0 && source.first() == '"' && source.last() == '"' {
                Ok(
                    ValS::Str(
                        Some(
                            if source.len() >= 2 {
                                source.subrange(1, source.len() - 1)
                            } else {
                                Seq::empty()
                            },
                        ),
                    ),
                )
            } else {
                match spec_parse_int(source, i128::MIN as int, i128::MAX as int) {
                    Some(n) => Ok(ValS::int_i128(Some(n))),
                    None => Err(
                        RuntimeError {
                            kind: RuntimeErrorKind::InvalidDynamicSource,
                            pos: Some(pos),
                        },
                    ),
                }
            },
        }
    }
}

/// Feeding the raw parameter expressions to a fresh instance, in order:
/// each is resolved against the caller's event and the current scopes,
/// with the expression's own text as the field name, and bound with
/// `accept`; a rejected parameter is fatal.
pub open spec fn feed_spec(
    cpos: Position,
    cev: EvS,
    scopes: Seq<Seq<VariableS>>,
    ev: EvS,
    params: Seq<Seq<char>>,
    k: int,
) -> Result<EvS, RuntimeError>
    decreases params.len() - k,
{
    if k < 0 || k >= params.len() {
        Ok(ev)
    } else {
        match resolve_spec(params[k], cev, params[k], scopes, cpos) {
            Err(e) => Err(e),
            Ok(v) => {
                let (ev2, ok) = crate::events::ev_accept(ev, k, v);
                if ok {
                    feed_spec(cpos, cev, scopes, ev2, params, k + 1)
                } else {
                    Err(RuntimeError { kind: RuntimeErrorKind::InvalidParameter, pos: Some(cpos) })
                }
            },
        }
    }
}

/// One dispatch: resolve the name in the registry, feed and check the
/// parameters when called from inside a listener, invoke, then run every
/// listener body registered under the invoked event's name, in source
/// order, stopping early only on a cancellation signal.
pub open spec fn dispatch_spec(
    fuel: nat,
    pipe: PipelineS,
    caller: Option<(Position, EvS)>,
    st: RunS,
    name: Seq<char>,
    params: Option<Seq<Seq<char>>>,
) -> Result<(RunS, EvS), RuntimeError>
    decreases fuel, 3int, 0int,
{
    if fuel == 0 {
        Err(RuntimeError { kind: RuntimeErrorKind::RecursionLimitExceeded, pos: caller_pos(caller) })
    } else {
        match get_event_spec(name) {
            None => Err(RuntimeError { kind: RuntimeErrorKind::UnknownEvent, pos: caller_pos(caller) }),
            Some(ev0) => {
                let fed = match caller {
                    None => Ok(ev0),
                    Some((cpos, cev)) => feed_spec(
                        cpos,
                        cev,
                        st.scopes,
                        ev0,
                        match params {
                            None => Seq::empty(),
                            Some(p) => p,
                        },
                        0,
                    ),
                };
                match fed {
                    Err(e) => Err(e),
                    Ok(ev1) => {
                        let nparams = match params {
                            None => 0int,
                            Some(p) => p.len() as int,
                        };
                        if caller is Some && !ev_check_count(ev1, nparams) {
                            Err(
                                RuntimeError {
                                    kind: RuntimeErrorKind::ParamCountMismatch,
                                    pos: caller_pos(caller),
                                },
                            )
                        } else {
                            match ev_call(ev1) {
                                Err(k) => Err(RuntimeError { kind: k, pos: caller_pos(caller) }),
                                Ok((ev2, line)) => {
                                    let out2 = match line {
                                        None => st.out,
                                        Some(l) => st.out.push(l),
                                    };
                                    let j = key_idx(pipe, ev_name(ev2));
                                    let bodies = if j >= 0 {
                                        pipe[j].1
                                    } else {
                                        Seq::empty()
                                    };
                                    match listeners_spec(
                                        fuel,
                                        pipe,
                                        ev2,
                                        RunS { scopes: st.scopes, out: out2 },
                                        bodies,
                                        0,
                                    ) {
                                        Err(e) => Err(e),
                                        Ok(st2) => Ok((st2, ev2)),
                                    }
                                },
                            }
                        }
                    },
                }
            },
        }
    }
}

/// The listener bodies registered under one event, run in source order;
/// a body that signals cancellation stops the ones after it.
pub open spec fn listeners_spec(
    fuel: nat,
    pipe: PipelineS,
    ev: EvS,
    st: RunS,
    bodies: Seq<Seq<TokenS>>,
    j: int,
) -> Result<RunS, RuntimeError>
    decreases fuel, 2int, bodies.len() - j,
{
    if j < 0 || j >= bodies.len() {
        Ok(st)
    } else {
        match body_spec(fuel, pipe, ev, st, bodies[j], 0, false) {
            Err(e) => Err(e),
            Ok((st2, cancel)) => if cancel {
                Ok(st2)
            } else {
                listeners_spec(fuel, pipe, ev, st2, bodies, j + 1)
            },
        }
    }
}

/// One listener body, token by token; the cancellation flag accumulates
/// but never interrupts the body itself.
pub open spec fn body_spec(
    fuel: nat,
    pipe: PipelineS,
    ev: EvS,
    st: RunS,
    toks: Seq<TokenS>,
    i: int,
    cancel: bool,
) -> Result<(RunS, bool), RuntimeError>
    decreases fuel, 1int, toks.len() - i,
{
    if i < 0 || i >= toks.len() {
        Ok((st, cancel))
    } else {
        match token_spec(fuel, pipe, ev, st, toks[i]) {
            Err(e) => Err(e),
            Ok((st2, c2)) => body_spec(fuel, pipe, ev, st2, toks, i + 1, cancel || c2),
        }
    }
}

/// Reassigning a located variable from a static literal: the scope stack
/// with the slot replaced in place, or the failure.
pub open spec fn set_static_spec(
    name: Seq<char>,
    value: Seq<char>,
    pos: Position,
    scopes: Seq<Seq<VariableS>>,
) -> Result<Seq<Seq<VariableS>>, RuntimeError> {
    match find_var_spec(name, scopes) {
        None => Err(RuntimeError { kind: RuntimeErrorKind::VariableNotFound, pos: Some(pos) }),
        Some((si, vi)) => match var_set_static_spec(scopes[si][vi], value) {
            Err(k) => Err(RuntimeError { kind: k, pos: Some(pos) }),
            Ok(v2) => Ok(scopes.update(si, scopes[si].update(vi, v2))),
        },
    }
}

/// One token of a listener body.
///
/// Braces push and pop scopes, and popping the last scope is fatal.
/// Declarations reject a name the innermost scope already holds and
/// demand an initial value.  Assignments locate their target outer-first
/// and hold its tag sticky under the cast policy.  Event calls dispatch
/// recursively on a reduced budget; a piped call replaces or declares an
/// event-typed variable wrapping the invoked instance.  A raw word
/// reaching execution is a tokenizer defect and fatal.
pub open spec fn token_spec(fuel: nat, pipe: PipelineS, cur: EvS, st: RunS, t: TokenS) -> Result<
    (RunS, bool),
    RuntimeError,
>
    decreases fuel, 0int, 0int,
{
    match t.tok {
        TokS::ScopeStart => Ok(
            (RunS { scopes: st.scopes.push(Seq::empty()), out: st.out }, false),
        ),
        TokS::ScopeEnd => if st.scopes.len() <= 1 {
            Err(RuntimeError { kind: RuntimeErrorKind::EmptyScopeStack, pos: Some(t.pos) })
        } else {
            Ok((RunS { scopes: st.scopes.drop_last(), out: st.out }, false))
        },
        TokS::InitVariable(name, typ, is_static, cast, value) => {
            if st.scopes.len() == 0 {
                Err(RuntimeError { kind: RuntimeErrorKind::EmptyScopeStack, pos: Some(t.pos) })
            } else if var_idx_in(st.scopes.last(), name) >= 0 {
                Err(
                    RuntimeError {
                        kind: RuntimeErrorKind::VariableAlreadyExists,
                        pos: Some(t.pos),
                    },
                )
            } else {
                match value {
                    None => Err(
                        RuntimeError {
                            kind: RuntimeErrorKind::MissingInitialValue,
                            pos: Some(t.pos),
                        },
                    ),
                    Some(v) => {
                        let made = if is_static {
                            match var_new_spec(name, typ, v) {
                                Err(k) => Err(RuntimeError { kind: k, pos: Some(t.pos) }),
                                Ok(varr) => Ok(varr),
                            }
                        } else {
                            match resolve_spec(name, cur, v, st.scopes, t.pos) {
                                Err(e) => Err(e),
                                Ok(val) => match var_new_dyn_spec(name, typ, cast, val) {
                                    Err(k) => Err(RuntimeError { kind: k, pos: Some(t.pos) }),
                                    Ok(varr) => Ok(varr),
                                },
                            }
                        };
                        match made {
                            Err(e) => Err(e),
                            Ok(varr) => Ok(
                                (
                                    RunS {
                                        scopes: st.scopes.update(
                                            st.scopes.len() - 1,
                                            st.scopes.last().push(varr),
                                        ),
                                        out: st.out,
                                    },
                                    false,
                                ),
                            ),
                        }
                    },
                }
            }
        },
        TokS::VariableStaticSet(name, value) => match set_static_spec(
            name,
            value,
            t.pos,
            st.scopes,
        ) {
            Err(e) => Err(e),
            Ok(ss2) => Ok((RunS { scopes: ss2, out: st.out }, false)),
        },
        TokS::VariableDynamicSet(name, source, cast) => match find_var_spec(name, st.scopes) {
            None => Err(
                RuntimeError { kind: RuntimeErrorKind::VariableNotFound, pos: Some(t.pos) },
            ),
            Some((si, vi)) => match resolve_spec(name, cur, source, st.scopes, t.pos) {
                Err(e) => Err(e),
                Ok(val) => match var_set_dyn_spec(st.scopes[si][vi], cast, val) {
                    Err(k) => Err(RuntimeError { kind: k, pos: Some(t.pos) }),
                    Ok(v2) => Ok(
                        (
                            RunS {
                                scopes: st.scopes.update(si, st.scopes[si].update(vi, v2)),
                                out: st.out,
                            },
                            false,
                        ),
                    ),
                },
            },
        },
        TokS::VariableEventSet(name, event, params) => match find_var_spec(name, st.scopes) {
            None => Err(
                RuntimeError { kind: RuntimeErrorKind::VariableNotFound, pos: Some(t.pos) },
            ),
            Some((si, vi)) => if fuel == 0 {
                Err(
                    RuntimeError {
                        kind: RuntimeErrorKind::RecursionLimitExceeded,
                        pos: Some(t.pos),
                    },
                )
            } else {
                match dispatch_spec(
                    (fuel - 1) as nat,
                    pipe,
                    Some((t.pos, cur)),
                    st,
                    event,
                    params,
                ) {
                    Err(e) => Err(e),
                    Ok((st2, ev2)) => if si < st2.scopes.len() && vi < st2.scopes[si].len() {
                        Ok(
                            (
                                RunS {
                                    scopes: st2.scopes.update(
                                        si,
                                        st2.scopes[si].update(
                                            vi,
                                            VariableS {
                                                name,
                                                val: ValS::Event(ev2),
                                                nullable: false,
                                            },
                                        ),
                                    ),
                                    out: st2.out,
                                },
                                false,
                            ),
                        )
                    } else {
                        Err(
                            RuntimeError {
                                kind: RuntimeErrorKind::VariableNotFound,
                                pos: Some(t.pos),
                            },
                        )
                    },
                }
            },
        },
        TokS::CallEvent(name, params) => if fuel == 0 {
            Err(
                RuntimeError {
                    kind: RuntimeErrorKind::RecursionLimitExceeded,
                    pos: Some(t.pos),
                },
            )
        } else {
            match dispatch_spec((fuel - 1) as nat, pipe, Some((t.pos, cur)), st, name, params) {
                Err(e) => Err(e),
                Ok((st2, _ev2)) => Ok((st2, false)),
            }
        },
        TokS::InitVariableEvent(vn, event, params) => if fuel == 0 {
            Err(
                RuntimeError {
                    kind: RuntimeErrorKind::RecursionLimitExceeded,
                    pos: Some(t.pos),
                },
            )
        } else {
            match dispatch_spec((fuel - 1) as nat, pipe, Some((t.pos, cur)), st, event, params) {
                Err(e) => Err(e),
                Ok((st2, ev2)) => if st2.scopes.len() == 0 {
                    Err(
                        RuntimeError {
                            kind: RuntimeErrorKind::EmptyScopeStack,
                            pos: Some(t.pos),
                        },
                    )
                } else {
                    Ok(
                        (
                            RunS {
                                scopes: st2.scopes.update(
                                    st2.scopes.len() - 1,
                                    st2.scopes.last().push(
                                        VariableS { name: vn, val: ValS::Event(ev2), nullable: false },
                                    ),
                                ),
                                out: st2.out,
                            },
                            false,
                        ),
                    )
                },
            }
        },
        TokS::Raw(_) => Err(
            RuntimeError { kind: RuntimeErrorKind::UnconsumedToken, pos: Some(t.pos) },
        ),
        TokS::Listener(_) => Ok((st, false)),
    }
}

/// A whole run: fire the synthetic root event against one fresh root
/// scope and collect the emitted lines.  Failure is fail-fast, with no
/// partial results.
pub open spec fn run_spec(pipe: PipelineS) -> Result<Seq<Seq<char>>, RuntimeError> {
    match dispatch_spec(
        RUN_FUEL as nat,
        pipe,
        None,
        RunS { scopes: seq![Seq::empty()], out: Seq::empty() },
        "OnStart"@,
        None,
    ) {
        Err(e) => Err(e),
        Ok((st, _)) => Ok(st.out),
    }
}

/// The virtual machine: one pipeline, executed by firing the root event.
#[derive(Debug)]
pub struct VM {
    pub pipeline: EventPipeline,
}

/// The spec-level caller a borrowed caller stands for.
pub open spec fn caller_view(c: Option<(Position, &EventInstance)>) -> Option<(Position, EvS)> {
    match c {
        None => None,
        Some((p, e)) => Some((p, e@)),
    }
}

/// Append `var` to the innermost scope.
fn push_var_last(scopes: &mut Vec<Scope>, var: Variable)
    requires
        old(scopes).len() >= 1,
    ensures
        final(scopes).deep_view() == old(scopes).deep_view().update(
            old(scopes).len() - 1,
            old(scopes).deep_view().last().push(var@),
        ),
{
    let ghost ss0 = scopes.deep_view();
    let li = scopes.len() - 1;
    let mut sc = scopes.remove(li);
    sc.stack.push(var);
    scopes.insert(li, sc);
    proof {
        assert(scopes.deep_view() =~~= ss0.update(li as int, ss0.last().push(var@)));
    }
}

/// Replace the variable at scope `si`, slot `vi`.
fn set_var_at(scopes: &mut Vec<Scope>, si: usize, vi: usize, var: Variable)
    requires
        si < old(scopes).len(),
        vi < old(scopes).deep_view()[si as int].len(),
    ensures
        final(scopes).deep_view() == old(scopes).deep_view().update(
            si as int,
            old(scopes).deep_view()[si as int].update(vi as int, var@),
        ),
{
    let ghost ss0 = scopes.deep_view();
    let mut sc = scopes.remove(si);
    let _old_var = sc.stack.remove(vi);
    sc.stack.insert(vi, var);
    scopes.insert(si, sc);
    proof {
        assert(scopes.deep_view() =~~= ss0.update(
            si as int,
            ss0[si as int].update(vi as int, var@),
        ));
    }
}

/// Resolve a dynamic source, with `name` as the field an event-typed
/// variable is asked for.
fn get_dynamic_value(
    name: &String,
    current_event: &EventInstance,
    source: &String,
    pos: Position,
    scopes: &Vec<Scope>,
) -> (r: Result<VariableType, RuntimeError>)
    ensures
        match r {
            Ok(v) => resolve_spec(name@, current_event@, source@, scopes.deep_view(), pos)
                == Ok::<ValS, RuntimeError>(v@),
            Err(e) => resolve_spec(name@, current_event@, source@, scopes.deep_view(), pos)
                == Err::<ValS, RuntimeError>(e),
        },
{
    if str_eq(current_event.name(), source.as_str()) {
        return Err(RuntimeError::at(RuntimeErrorKind::NotSupported, pos));
    }
    match get_var_value(source, scopes) {
        Some(v) => match v {
            VariableType::Event(ev) => match ev.get_var(name) {
                Some(x) => Ok(x),
                None => Err(RuntimeError::at(RuntimeErrorKind::EventFieldNotFound, pos)),
            },
            _ => Ok(v),
        },
        None => {
            let len = source.as_str().unicode_len();
            if len > 0 && source.as_str().get_char(0) == '"' && source.as_str().get_char(len - 1)
                == '"' {
                let contents: String = if len >= 2 {
                    substring(source.as_str(), 1, len - 1)
                } else {
                    String::new()
                };
                proof {
                    let expected = if source@.len() >= 2 {
                        source@.subrange(1, source@.len() - 1)
                    } else {
                        Seq::<char>::empty()
                    };
                    assert(contents@ =~= expected);
                }
                Ok(VariableType::Str(Some(contents)))
            } else {
                match crate::numbers::parse_int(source.as_str(), i128::MIN, i128::MAX) {
                    Some(n) => Ok(VariableType::I128(Some(n))),
                    None => Err(RuntimeError::at(RuntimeErrorKind::InvalidDynamicSource, pos)),
                }
            }
        },
    }
}

/// Reassign a located variable from a static literal, in place.
pub fn replace_var_static(
    name: &String,
    value: &String,
    pos: Position,
    scopes: &mut Vec<Scope>,
) -> (r: Result<(), RuntimeError>)
    ensures
        match r {
            Ok(()) => set_static_spec(name@, value@, pos, old(scopes).deep_view()) == Ok::<
                Seq<Seq<VariableS>>,
                RuntimeError,
            >(final(scopes).deep_view()),
            Err(e) => set_static_spec(name@, value@, pos, old(scopes).deep_view()) == Err::<
                Seq<Seq<VariableS>>,
                RuntimeError,
            >(e) && *final(scopes) == *old(scopes),
        },
{
    match find_var(name, scopes) {
        None => Err(RuntimeError::at(RuntimeErrorKind::VariableNotFound, pos)),
        Some((si, vi)) => {
            proof {
                lemma_find_in_range(name@, scopes.deep_view());
            }
            let current = scopes[si].stack[vi].clone();
            match Variable::copy(current, value, pos) {
                Err(e) => Err(e),
                Ok(v2) => {
                    set_var_at(scopes, si, vi, v2);
                    Ok(())
                },
            }
        },
    }
}

impl VM {
    /// Fire the synthetic root event against one fresh root scope and
    /// collect the lines the run emits.  Failure is fail-fast: the first
    /// runtime error aborts the run with no partial results.
    pub fn start(&mut self) -> (r: Result<Vec<String>, RuntimeError>)
        ensures
            match r {
                Ok(out) => run_spec(old(self).pipeline@) == Ok::<Seq<Seq<char>>, RuntimeError>(
                    out.deep_view(),
                ),
                Err(e) => run_spec(old(self).pipeline@) == Err::<Seq<Seq<char>>, RuntimeError>(
                    e,
                ),
            },
            final(self).pipeline@ == old(self).pipeline@,
    {
        let mut scopes: Vec<Scope> = Vec::new();
        scopes.push(Scope::default());
        let mut out: Vec<String> = Vec::new();
        let name: String = "OnStart".to_owned();
        let no_params: Option<Vec<String>> = None;
        proof {
            assert(scopes.deep_view() =~~= seq![Seq::<VariableS>::empty()]);
            assert(out.deep_view() =~= Seq::<Seq<char>>::empty());
        }
        match self.call_event(RUN_FUEL, None, &mut scopes, &mut out, &name, &no_params) {
            Ok(_ev) => Ok(out),
            Err(e) => Err(e),
        }
    }

    /// One dispatch against the live state; mirrors `dispatch_spec`.
    #[verifier::rlimit(100)]
    #[verifier::loop_isolation(false)]
    fn call_event(
        &self,
        fuel: u64,
        caller: Option<(Position, &EventInstance)>,
        scopes: &mut Vec<Scope>,
        out: &mut Vec<String>,
        name: &String,
        params: &Option<Vec<String>>,
    ) -> (r: Result<EventInstance, RuntimeError>)
        ensures
            ({
                let st0 = RunS {
                    scopes: old(scopes).deep_view(),
                    out: old(out).deep_view(),
                };
                let d = dispatch_spec(
                    fuel as nat,
                    self.pipeline@,
                    caller_view(caller),
                    st0,
                    name@,
                    params.deep_view(),
                );
                match r {
                    Ok(ev) => d == Ok::<(RunS, EvS), RuntimeError>(
                        (
                            RunS {
                                scopes: final(scopes).deep_view(),
                                out: final(out).deep_view(),
                            },
                            ev@,
                        ),
                    ),
                    Err(e) => d == Err::<(RunS, EvS), RuntimeError>(e),
                }
            }),
        decreases fuel, 1int,
    {
        let ghost st0 = RunS { scopes: scopes.deep_view(), out: out.deep_view() };
        let ghost pipe = self.pipeline@;
        let ghost cv = caller_view(caller);
        let ghost psd = params.deep_view();
        let cpos_opt: Option<Position> = match &caller {
            None => None,
            Some((p, _)) => Some(*p),
        };
        proof {
            assert(cpos_opt == caller_pos(cv));
        }
        if fuel == 0 {
            return Err(
                RuntimeError { kind: RuntimeErrorKind::RecursionLimitExceeded, pos: cpos_opt },
            );
        }
        let mut ev = match get_event(name) {
            None => {
                return Err(RuntimeError { kind: RuntimeErrorKind::UnknownEvent, pos: cpos_opt });
            },
            Some(e) => e,
        };
        let ghost ev0 = ev@;
        if let Some((cpos, cev)) = caller {
            let ghost psv = match psd {
                None => Seq::<Seq<char>>::empty(),
                Some(p) => p,
            };
            let mut count: usize = 0;
            if let Some(ps) = params {
                let mut k: usize = 0;
                while k < ps.len()
                    invariant
                        k <= ps.len(),
                        psv == ps.deep_view(),
                        scopes.deep_view() == st0.scopes,
                        feed_spec(cpos, cev@, st0.scopes, ev0, psv, 0) == feed_spec(
                            cpos,
                            cev@,
                            st0.scopes,
                            ev@,
                            psv,
                            k as int,
                        ),
                    decreases ps.len() - k,
                {
                    let val = match get_dynamic_value(&ps[k], cev, &ps[k], cpos, scopes) {
                        Ok(v) => v,
                        Err(e) => {
                            proof {
                                assert(feed_spec(cpos, cev@, st0.scopes, ev0, psv, 0) == Err::<
                                    EvS,
                                    RuntimeError,
                                >(e));
                                assert(dispatch_spec(fuel as nat, pipe, cv, st0, name@, psd)
                                    == Err::<(RunS, EvS), RuntimeError>(e));
                            }
                            return Err(e);
                        },
                    };
                    if !ev.accept(k, &val) {
                        let e = RuntimeError::at(RuntimeErrorKind::InvalidParameter, cpos);
                        proof {
                            assert(feed_spec(cpos, cev@, st0.scopes, ev0, psv, 0) == Err::<
                                EvS,
                                RuntimeError,
                            >(e));
                            assert(dispatch_spec(fuel as nat, pipe, cv, st0, name@, psd)
                                == Err::<(RunS, EvS), RuntimeError>(e));
                        }
                        return Err(e);
                    }
                    k += 1;
                }
                count = ps.len();
            }
            proof {
                assert(feed_spec(cpos, cev@, st0.scopes, ev0, psv, 0) == Ok::<
                    EvS,
                    RuntimeError,
                >(ev@));
            }
            if !ev.check_param_count(count) {
                return Err(RuntimeError::at(RuntimeErrorKind::ParamCountMismatch, cpos));
            }
        }
        let ghost ev1 = ev@;
        let line = match ev.call() {
            Err(k) => {
                return Err(RuntimeError { kind: k, pos: cpos_opt });
            },
            Ok(l) => l,
        };
        let ghost linev = line.deep_view();
        let ghost ev2 = ev@;
        match line {
            Some(l) => {
                out.push(l);
            },
            None => {},
        }
        let ghost st_mid = RunS { scopes: scopes.deep_view(), out: out.deep_view() };
        let ghost lbodies = if key_idx(pipe, ev_name(ev2)) >= 0 {
            pipe[key_idx(pipe, ev_name(ev2))].1
        } else {
            Seq::<Seq<TokenS>>::empty()
        };
        let ghost dres = dispatch_spec(fuel as nat, pipe, cv, st0, name@, psd);
        proof {
            assert(st_mid.out =~~= (match linev {
                None => st0.out,
                Some(lv) => st0.out.push(lv),
            }));
            assert(get_event_spec(name@) == Some(ev0));
            assert(ev_call(ev1) == Ok::<(EvS, Option<Seq<char>>), RuntimeErrorKind>(
                (ev2, linev),
            ));
            assert(dres == (match listeners_spec(fuel as nat, pipe, ev2, st_mid, lbodies, 0) {
                Err(e) => Err::<(RunS, EvS), RuntimeError>(e),
                Ok(st2) => Ok((st2, ev2)),
            }));
        }
        let evname = ev.name();
        let mut bi: usize = 0;
        while bi < self.pipeline.listeners.len() && !str_eq(
            self.pipeline.listeners[bi].0.as_str(),
            evname,
        )
            invariant
                bi <= self.pipeline.listeners.len(),
                pipe == self.pipeline@,
                forall|t: int| 0 <= t < bi ==> pipe[t].0 != ev_name(ev2),
                evname@ == ev_name(ev2),
            decreases self.pipeline.listeners.len() - bi,
        {
            bi += 1;
        }
        proof {
            lemma_key_idx_at(
                pipe,
                ev_name(ev2),
                if bi < self.pipeline.listeners.len() {
                    bi as int
                } else {
                    pipe.len() as int
                },
            );
        }
        if bi == self.pipeline.listeners.len() {
            proof {
                assert(lbodies =~~= Seq::<Seq<TokenS>>::empty());
                assert(listeners_spec(fuel as nat, pipe, ev2, st_mid, lbodies, 0) == Ok::<
                    RunS,
                    RuntimeError,
                >(st_mid));
            }
            return Ok(ev);
        }
        let ghost bodies = pipe[bi as int].1;
        proof {
            assert(bodies == lbodies);
        }
        let nbodies = self.pipeline.listeners[bi].1.len();
        let mut j: usize = 0;
        while j < nbodies
            invariant
                j <= nbodies,
                bi < self.pipeline.listeners.len(),
                pipe == self.pipeline@,
                nbodies == bodies.len(),
                bodies == pipe[bi as int].1,
                ev@ == ev2,
                dres == dispatch_spec(fuel as nat, pipe, cv, st0, name@, psd),
                dres == (match listeners_spec(
                    fuel as nat,
                    pipe,
                    ev2,
                    RunS { scopes: scopes.deep_view(), out: out.deep_view() },
                    bodies,
                    j as int,
                ) {
                    Err(e) => Err::<(RunS, EvS), RuntimeError>(e),
                    Ok(st2) => Ok((st2, ev2)),
                }),
            decreases nbodies - j,
        {
            let ghost st_j = RunS { scopes: scopes.deep_view(), out: out.deep_view() };
            let ntoks = self.pipeline.listeners[bi].1[j].tokens.len();
            let ghost toks = bodies[j as int];
            let mut cancel: bool = false;
            let mut i: usize = 0;
            while i < ntoks
                invariant
                    i <= ntoks,
                    bi < self.pipeline.listeners.len(),
                    j < nbodies,
                    nbodies == bodies.len(),
                    pipe == self.pipeline@,
                    bodies == pipe[bi as int].1,
                    toks == bodies[j as int],
                    ntoks == toks.len(),
                    ev@ == ev2,
                    dres == dispatch_spec(fuel as nat, pipe, cv, st0, name@, psd),
                    dres == (match (match body_spec(
                        fuel as nat,
                        pipe,
                        ev2,
                        st_j,
                        toks,
                        0,
                        false,
                    ) {
                        Err(e) => Err::<RunS, RuntimeError>(e),
                        Ok((stb, c)) => if c {
                            Ok(stb)
                        } else {
                            listeners_spec(fuel as nat, pipe, ev2, stb, bodies, j + 1)
                        },
                    }) {
                        Err(e) => Err::<(RunS, EvS), RuntimeError>(e),
                        Ok(st2) => Ok((st2, ev2)),
                    }),
                    body_spec(fuel as nat, pipe, ev2, st_j, toks, 0, false) == body_spec(
                        fuel as nat,
                        pipe,
                        ev2,
                        RunS { scopes: scopes.deep_view(), out: out.deep_view() },
                        toks,
                        i as int,
                        cancel,
                    ),
                decreases ntoks - i,
            {
                proof {
                    assert(self.pipeline.listeners[bi as int].1@[j as int]@[i as int]
                        == toks[i as int]);
                }
                let c2 = match self.execute_token(
                    fuel,
                    &ev,
                    scopes,
                    out,
                    &self.pipeline.listeners[bi].1[j].tokens[i],
                ) {
                    Ok(c) => c,
                    Err(e) => {
                        proof {
                            assert(body_spec(fuel as nat, pipe, ev2, st_j, toks, 0, false)
                                == Err::<(RunS, bool), RuntimeError>(e));
                            assert(dres == Err::<(RunS, EvS), RuntimeError>(e));
                        }
                        return Err(e);
                    },
                };
                cancel = cancel || c2;
                i += 1;
            }
            let ghost st_end = RunS { scopes: scopes.deep_view(), out: out.deep_view() };
            proof {
                assert(body_spec(fuel as nat, pipe, ev2, st_j, toks, 0, false) == Ok::<
                    (RunS, bool),
                    RuntimeError,
                >((st_end, cancel)));
            }
            if cancel {
                proof {
                    assert(dres == Ok::<(RunS, EvS), RuntimeError>((st_end, ev2)));
                }
                return Ok(ev);
            }
            j += 1;
        }
        proof {
            let st_end = RunS { scopes: scopes.deep_view(), out: out.deep_view() };
            assert(listeners_spec(fuel as nat, pipe, ev2, st_end, bodies, nbodies as int)
                == Ok::<RunS, RuntimeError>(st_end));
            assert(dres == Ok::<(RunS, EvS), RuntimeError>((st_end, ev2)));
        }
        Ok(ev)
    }

    /// One token of a listener body against the live state; mirrors
    /// `token_spec`.
    #[verifier::rlimit(100)]
    #[verifier::spinoff_prover]
    fn execute_token(
        &self,
        fuel: u64,
        current_event: &EventInstance,
        scopes: &mut Vec<Scope>,
        out: &mut Vec<String>,
        token: &Token,
    ) -> (r: Result<bool, RuntimeError>)
        ensures
            ({
                let st0 = RunS {
                    scopes: old(scopes).deep_view(),
                    out: old(out).deep_view(),
                };
                let d = token_spec(fuel as nat, self.pipeline@, current_event@, st0, token@);
                match r {
                    Ok(c) => d == Ok::<(RunS, bool), RuntimeError>(
                        (
                            RunS {
                                scopes: final(scopes).deep_view(),
                                out: final(out).deep_view(),
                            },
                            c,
                        ),
                    ),
                    Err(e) => d == Err::<(RunS, bool), RuntimeError>(e),
                }
            }),
        decreases fuel, 0int,
    {
        let ghost st0 = RunS { scopes: scopes.deep_view(), out: out.deep_view() };
        match &token.token {
            crate::token::TokenType::ScopeStart => {
                scopes.push(Scope::default());
                proof {
                    assert(scopes.deep_view() =~~= st0.scopes.push(Seq::empty()));
                }
                Ok(false)
            },
            crate::token::TokenType::ScopeEnd => {
                if scopes.len() <= 1 {
                    return Err(RuntimeError::at(RuntimeErrorKind::EmptyScopeStack, token.pos));
                }
                scopes.pop();
                proof {
                    assert(scopes.deep_view() =~~= st0.scopes.drop_last());
                }
                Ok(false)
            },
            crate::token::TokenType::InitVariable(name, typ, is_static, cast, value) => {
                if scopes.len() == 0 {
                    return Err(RuntimeError::at(RuntimeErrorKind::EmptyScopeStack, token.pos));
                }
                if var_idx(&scopes[scopes.len() - 1], name).is_some() {
                    return Err(
                        RuntimeError::at(RuntimeErrorKind::VariableAlreadyExists, token.pos),
                    );
                }
                match value {
                    None => Err(RuntimeError::at(RuntimeErrorKind::MissingInitialValue, token.pos)),
                    Some(v) => {
                        let made = if *is_static {
                            Variable::new(name, typ, v, token.pos)
                        } else {
                            match get_dynamic_value(name, current_event, v, token.pos, scopes) {
                                Err(e) => {
                                    return Err(e);
                                },
                                Ok(val) => Variable::new_type(name, typ, *cast, val, token.pos),
                            }
                        };
                        match made {
                            Err(e) => Err(e),
                            Ok(varr) => {
                                push_var_last(scopes, varr);
                                Ok(false)
                            },
                        }
                    },
                }
            },
            crate::token::TokenType::VariableStaticSet(name, value) => {
                match replace_var_static(name, value, token.pos, scopes) {
                    Err(e) => Err(e),
                    Ok(()) => Ok(false),
                }
            },
            crate::token::TokenType::VariableDynamicSet(name, source, cast) => {
                match find_var(name, scopes) {
                    None => Err(RuntimeError::at(RuntimeErrorKind::VariableNotFound, token.pos)),
                    Some((si, vi)) => {
                        proof {
                            lemma_find_in_range(name@, scopes.deep_view());
                        }
                        match get_dynamic_value(name, current_event, source, token.pos, scopes) {
                            Err(e) => Err(e),
                            Ok(val) => {
                                let current = scopes[si].stack[vi].clone();
                                match Variable::copy_type(current, *cast, val, token.pos) {
                                    Err(e) => Err(e),
                                    Ok(v2) => {
                                        set_var_at(scopes, si, vi, v2);
                                        Ok(false)
                                    },
                                }
                            },
                        }
                    },
                }
            },
            crate::token::TokenType::VariableEventSet(name, event, params) => {
                match find_var(name, scopes) {
                    None => Err(RuntimeError::at(RuntimeErrorKind::VariableNotFound, token.pos)),
                    Some((si, vi)) => {
                        if fuel == 0 {
                            return Err(
                                RuntimeError::at(
                                    RuntimeErrorKind::RecursionLimitExceeded,
                                    token.pos,
                                ),
                            );
                        }
                        match self.call_event(
                            fuel - 1,
                            Some((token.pos, current_event)),
                            scopes,
                            out,
                            event,
                            params,
                        ) {
                            Err(e) => Err(e),
                            Ok(ev2) => {
                                if si < scopes.len() && vi < scopes[si].stack.len() {
                                    let v2 = Variable::new_event_type(name, ev2);
                                    set_var_at(scopes, si, vi, v2);
                                    Ok(false)
                                } else {
                                    Err(
                                        RuntimeError::at(
                                            RuntimeErrorKind::VariableNotFound,
                                            token.pos,
                                        ),
                                    )
                                }
                            },
                        }
                    },
                }
            },
            crate::token::TokenType::CallEvent(name, params) => {
                if fuel == 0 {
                    return Err(
                        RuntimeError::at(RuntimeErrorKind::RecursionLimitExceeded, token.pos),
                    );
                }
                match self.call_event(
                    fuel - 1,
                    Some((token.pos, current_event)),
                    scopes,
                    out,
                    name,
                    params,
                ) {
                    Err(e) => Err(e),
                    Ok(_ev2) => Ok(false),
                }
            },
            crate::token::TokenType::InitVariableEvent(vn, event, params) => {
                if fuel == 0 {
                    return Err(
                        RuntimeError::at(RuntimeErrorKind::RecursionLimitExceeded, token.pos),
                    );
                }
                match self.call_event(
                    fuel - 1,
                    Some((token.pos, current_event)),
                    scopes,
                    out,
                    event,
                    params,
                ) {
                    Err(e) => Err(e),
                    Ok(ev2) => {
                        if scopes.len() == 0 {
                            return Err(
                                RuntimeError::at(RuntimeErrorKind::EmptyScopeStack, token.pos),
                            );
                        }
                        let v2 = Variable::new_event_type(vn, ev2);
                        push_var_last(scopes, v2);
                        Ok(false)
                    },
                }
            },
            crate::token::TokenType::Raw(_) => Err(
                RuntimeError::at(RuntimeErrorKind::UnconsumedToken, token.pos),
            ),
            crate::token::TokenType::Listener(_) => Ok(false),
        }
    }
}

} // verus!
