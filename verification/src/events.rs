use vstd::prelude::*;
use vstd::string::StrSliceExecFns;
use vstd::string::StringExecFns;
use crate::errors::RuntimeErrorKind;
use crate::textutil::clone_opt_string;
use crate::textutil::str_eq;
use crate::variables::num_of_val;
use crate::variables::render_val;
use crate::variables::type_value_to_number;
use crate::variables::type_value_to_string;
use crate::variables::ValS;
use crate::variables::VariableType;

verus! {

/// The mathematical shape of one arithmetic event instance: its two
/// operands and its result, each possibly still unset.
#[verifier::ext_equal]
pub struct MathS {
    pub num1: Option<int>,
    pub num2: Option<int>,
    pub result: Option<int>,
}

/// The mathematical shape of a live event instance.
#[verifier::ext_equal]
pub enum EvS {
    Start,
    Print(Option<Seq<char>>),
    Add(MathS),
    Sub(MathS),
    Mul(MathS),
    Div(MathS),
    Mod(MathS),
}

/// The name an event answers to in the registry.
pub open spec fn ev_name(e: EvS) -> Seq<char> {
    match e {
        EvS::Start => "OnStart"@,
        EvS::Print(_) => "Print"@,
        EvS::Add(_) => "+"@,
        EvS::Sub(_) => "-"@,
        EvS::Mul(_) => "*"@,
        EvS::Div(_) => "/"@,
        EvS::Mod(_) => "%"@,
    }
}

/// Whether an event accepts being invoked with `n` parameters.
pub open spec fn ev_check_count(e: EvS, n: int) -> bool {
    match e {
        EvS::Start => n == 0,
        EvS::Print(_) => n > 0,
        _ => n == 2,
    }
}

/// The field an invoked event exposes under `name`, if any.
pub open spec fn math_get_var(m: MathS, name: Seq<char>) -> Option<ValS> {
    if name == "num1"@ {
        Some(ValS::int_i128(m.num1))
    } else if name == "num2"@ {
        Some(ValS::int_i128(m.num2))
    } else if name == "result"@ {
        Some(ValS::int_i128(m.result))
    } else {
        None
    }
}

pub open spec fn ev_get_var(e: EvS, name: Seq<char>) -> Option<ValS> {
    match e {
        EvS::Start => None,
        EvS::Print(msg) => if name == "message"@ {
            Some(ValS::Str(msg))
        } else {
            None
        },
        EvS::Add(m) => math_get_var(m, name),
        EvS::Sub(m) => math_get_var(m, name),
        EvS::Mul(m) => math_get_var(m, name),
        EvS::Div(m) => math_get_var(m, name),
        EvS::Mod(m) => math_get_var(m, name),
    }
}

/// Feeding parameter `idx` to an event: the updated instance and whether
/// the parameter was accepted.  An arithmetic event takes any value with a
/// numeric rendering at indices 0 and 1; the print event renders every
/// value (`null` for a null one) onto its message.
pub open spec fn math_accept(m: MathS, idx: int, v: ValS) -> (MathS, bool) {
    match num_of_val(v) {
        None => (m, false),
        Some(n) => if idx == 0 {
            (MathS { num1: n, ..m }, true)
        } else if idx == 1 {
            (MathS { num2: n, ..m }, true)
        } else {
            (m, false)
        },
    }
}

pub open spec fn print_accept(msg: Option<Seq<char>>, v: ValS) -> Option<Seq<char>> {
    match msg {
        None => render_val(v),
        Some(m) => match render_val(v) {
            None => Some(m + "null"@),
            Some(piece) => Some(m + piece),
        },
    }
}

pub open spec fn ev_accept(e: EvS, idx: int, v: ValS) -> (EvS, bool) {
    match e {
        EvS::Start => (e, false),
        EvS::Print(msg) => (EvS::Print(print_accept(msg, v)), true),
        EvS::Add(m) => {
            let (m2, ok) = math_accept(m, idx, v);
            (EvS::Add(m2), ok)
        },
        EvS::Sub(m) => {
            let (m2, ok) = math_accept(m, idx, v);
            (EvS::Sub(m2), ok)
        },
        EvS::Mul(m) => {
            let (m2, ok) = math_accept(m, idx, v);
            (EvS::Mul(m2), ok)
        },
        EvS::Div(m) => {
            let (m2, ok) = math_accept(m, idx, v);
            (EvS::Div(m2), ok)
        },
        EvS::Mod(m) => {
            let (m2, ok) = math_accept(m, idx, v);
            (EvS::Mod(m2), ok)
        },
    }
}

/// Truncating division, as the machine divides.
pub open spec fn trunc_div(a: int, b: int) -> int {
    if a == 0 {
        0
    } else if a > 0 && b > 0 {
        a / b
    } else if a < 0 && b < 0 {
        (a * -1) / (b * -1)
    } else if a < 0 {
        ((a * -1) / b) * -1
    } else {
        (a / (b * -1)) * -1
    }
}

/// The remainder truncating division leaves, carrying the sign of the
/// dividend.
pub open spec fn trunc_rem(a: int, b: int) -> int {
    if a == 0 {
        0
    } else if a > 0 && b > 0 {
        a % b
    } else if a < 0 && b < 0 {
        ((a * -1) % (b * -1)) * -1
    } else if a < 0 {
        ((a * -1) % b) * -1
    } else {
        a % (b * -1)
    }
}

/// Truncating division stays within the accumulator except for the one
/// corner the two's-complement range leaves out.
proof fn lemma_trunc_div_bounds(a: int, b: int)
    requires
        i128::MIN <= a <= i128::MAX,
        i128::MIN <= b <= i128::MAX,
        b != 0,
        !(a == i128::MIN && b == -1),
    ensures
        i128::MIN <= trunc_div(a, b) <= i128::MAX,
{
    if a == 0 {
    } else if a > 0 && b > 0 {
        assert(0 <= a / b <= a) by (nonlinear_arith)
            requires
                a > 0 && b > 0,
        ;
    } else if a < 0 && b < 0 {
        let x = a * -1;
        let d = b * -1;
        if d == 1 {
            assert(a > i128::MIN);
            assert(x / 1 == x);
        } else {
            assert(0 <= x / d <= i128::MAX) by (nonlinear_arith)
                requires
                    0 < x <= i128::MAX + 1,
                    d >= 2,
            ;
        }
    } else if a < 0 {
        let x = a * -1;
        assert(0 <= x / b <= x) by (nonlinear_arith)
            requires
                x > 0,
                b > 0,
        ;
    } else {
        let d = b * -1;
        assert(0 <= a / d <= a) by (nonlinear_arith)
            requires
                a > 0,
                d > 0,
        ;
    }
}

pub enum MathOp {
    AddOp,
    SubOp,
    MulOp,
    DivOp,
    ModOp,
}

/// Invoking an arithmetic event: with both operands set, the exact result
/// under `op`; a zero divisor is a fatal `DivisionByZero`, and a result
/// outside the signed 128-bit accumulator a fatal `ArithmeticOverflow`.
/// With an operand missing, the instance is left as it is.
pub open spec fn math_call(m: MathS, op: MathOp) -> Result<MathS, RuntimeErrorKind> {
    match (m.num1, m.num2) {
        (Some(a), Some(b)) => {
            match op {
                MathOp::DivOp | MathOp::ModOp => if b == 0 {
                    Err(RuntimeErrorKind::DivisionByZero)
                } else if trunc_div(a, b) < i128::MIN || trunc_div(a, b) > i128::MAX {
                    Err(RuntimeErrorKind::ArithmeticOverflow)
                } else {
                    let q = if op is DivOp {
                        trunc_div(a, b)
                    } else {
                        trunc_rem(a, b)
                    };
                    Ok(MathS { result: Some(q), ..m })
                },
                _ => {
                    let q = if op is AddOp {
                        a + b
                    } else if op is SubOp {
                        a - b
                    } else {
                        a * b
                    };
                    if q < i128::MIN || q > i128::MAX {
                        Err(RuntimeErrorKind::ArithmeticOverflow)
                    } else {
                        Ok(MathS { result: Some(q), ..m })
                    }
                },
            }
        },
        _ => Ok(m),
    }
}

/// Invoking an event: the updated instance, and the line it emits on the
/// standard output stream, if any.  Only the print event emits; it prints
/// its gathered message, or `null` when no parameter gave it one.
pub open spec fn ev_call(e: EvS) -> Result<(EvS, Option<Seq<char>>), RuntimeErrorKind> {
    match e {
        EvS::Start => Ok((e, None)),
        EvS::Print(msg) => match msg {
            Some(m) => Ok((e, Some(m))),
            None => Ok((e, Some("null"@))),
        },
        EvS::Add(m) => match math_call(m, MathOp::AddOp) {
            Ok(m2) => Ok((EvS::Add(m2), None)),
            Err(k) => Err(k),
        },
        EvS::Sub(m) => match math_call(m, MathOp::SubOp) {
            Ok(m2) => Ok((EvS::Sub(m2), None)),
            Err(k) => Err(k),
        },
        EvS::Mul(m) => match math_call(m, MathOp::MulOp) {
            Ok(m2) => Ok((EvS::Mul(m2), None)),
            Err(k) => Err(k),
        },
        EvS::Div(m) => match math_call(m, MathOp::DivOp) {
            Ok(m2) => Ok((EvS::Div(m2), None)),
            Err(k) => Err(k),
        },
        EvS::Mod(m) => match math_call(m, MathOp::ModOp) {
            Ok(m2) => Ok((EvS::Mod(m2), None)),
            Err(k) => Err(k),
        },
    }
}

/// The registry: the fresh instance constructed for a name, if the name is
/// known.
pub open spec fn get_event_spec(name: Seq<char>) -> Option<EvS> {
    if name == "OnStart"@ {
        Some(EvS::Start)
    } else if name == "Print"@ {
        Some(EvS::Print(None))
    } else if name == "+"@ {
        Some(EvS::Add(MathS { num1: None, num2: None, result: None }))
    } else if name == "-"@ {
        Some(EvS::Sub(MathS { num1: None, num2: None, result: None }))
    } else if name == "*"@ {
        Some(EvS::Mul(MathS { num1: None, num2: None, result: None }))
    } else if name == "/"@ {
        Some(EvS::Div(MathS { num1: None, num2: None, result: None }))
    } else if name == "%"@ {
        Some(EvS::Mod(MathS { num1: None, num2: None, result: None }))
    } else {
        None
    }
}

/// The synthetic root event: fired once by the virtual machine's entry
/// point; takes no parameters, exposes nothing, emits nothing.
#[derive(Debug)]
pub struct OnStart;

/// The print event: renders every parameter onto one message and emits it
/// on invocation.
#[derive(Debug)]
pub struct Print {
    pub message: Option<String>,
}

/// Addition over the signed 128-bit internal accumulator.
#[derive(Debug)]
pub struct MathAdd {
    pub num1: Option<i128>,
    pub num2: Option<i128>,
    pub result: Option<i128>,
}

/// Subtraction over the signed 128-bit internal accumulator.
#[derive(Debug)]
pub struct MathSubtract {
    pub num1: Option<i128>,
    pub num2: Option<i128>,
    pub result: Option<i128>,
}

/// Multiplication over the signed 128-bit internal accumulator.
#[derive(Debug)]
pub struct MathMultiply {
    pub num1: Option<i128>,
    pub num2: Option<i128>,
    pub result: Option<i128>,
}

/// Truncating division; a zero divisor is a fatal error, never a sentinel.
#[derive(Debug)]
pub struct MathDivide {
    pub num1: Option<i128>,
    pub num2: Option<i128>,
    pub result: Option<i128>,
}

/// Truncating remainder; a zero divisor is a fatal error, never a sentinel.
#[derive(Debug)]
pub struct MathModulo {
    pub num1: Option<i128>,
    pub num2: Option<i128>,
    pub result: Option<i128>,
}

/// One live event instance: the closed union of every event kind the
/// registry can construct, dispatched by pattern match.
#[derive(Debug)]
pub enum EventInstance {
    Start(OnStart),
    Print(Print),
    Add(MathAdd),
    Sub(MathSubtract),
    Mul(MathMultiply),
    Div(MathDivide),
    Mod(MathModulo),
}

pub open spec fn math_view(
    num1: Option<i128>,
    num2: Option<i128>,
    result: Option<i128>,
) -> MathS {
    MathS {
        num1: match num1 {
            Some(v) => Some(v as int),
            None => None,
        },
        num2: match num2 {
            Some(v) => Some(v as int),
            None => None,
        },
        result: match result {
            Some(v) => Some(v as int),
            None => None,
        },
    }
}

impl View for EventInstance {
    type V = EvS;

    open spec fn view(&self) -> EvS {
        match self {
            EventInstance::Start(_) => EvS::Start,
            EventInstance::Print(p) => EvS::Print(p.message.deep_view()),
            EventInstance::Add(m) => EvS::Add(math_view(m.num1, m.num2, m.result)),
            EventInstance::Sub(m) => EvS::Sub(math_view(m.num1, m.num2, m.result)),
            EventInstance::Mul(m) => EvS::Mul(math_view(m.num1, m.num2, m.result)),
            EventInstance::Div(m) => EvS::Div(math_view(m.num1, m.num2, m.result)),
            EventInstance::Mod(m) => EvS::Mod(math_view(m.num1, m.num2, m.result)),
        }
    }
}

impl DeepView for EventInstance {
    type V = EvS;

    open spec fn deep_view(&self) -> EvS {
        self.view()
    }
}

/// Resolve `name` against the fixed registry, constructing a fresh unbound
/// instance.
pub fn get_event(name: &String) -> (r: Option<EventInstance>)
    ensures
        match r {
            Some(e) => get_event_spec(name@) == Some(e@),
            None => get_event_spec(name@) is None,
        },
{
    if str_eq(name.as_str(), "OnStart") {
        Some(EventInstance::Start(OnStart))
    } else if str_eq(name.as_str(), "Print") {
        Some(EventInstance::Print(Print { message: None }))
    } else if str_eq(name.as_str(), "+") {
        Some(EventInstance::Add(MathAdd { num1: None, num2: None, result: None }))
    } else if str_eq(name.as_str(), "-") {
        Some(EventInstance::Sub(MathSubtract { num1: None, num2: None, result: None }))
    } else if str_eq(name.as_str(), "*") {
        Some(EventInstance::Mul(MathMultiply { num1: None, num2: None, result: None }))
    } else if str_eq(name.as_str(), "/") {
        Some(EventInstance::Div(MathDivide { num1: None, num2: None, result: None }))
    } else if str_eq(name.as_str(), "%") {
        Some(EventInstance::Mod(MathModulo { num1: None, num2: None, result: None }))
    } else {
        None
    }
}

/// Shared field lookup of the arithmetic events.
fn math_get_var_exec(
    num1: &Option<i128>,
    num2: &Option<i128>,
    result: &Option<i128>,
    name: &str,
) -> (r: Option<VariableType>)
    ensures
        match r {
            Some(v) => math_get_var(math_view(*num1, *num2, *result), name@) == Some(v@),
            None => math_get_var(math_view(*num1, *num2, *result), name@) is None,
        },
{
    if str_eq(name, "num1") {
        Some(VariableType::I128(*num1))
    } else if str_eq(name, "num2") {
        Some(VariableType::I128(*num2))
    } else if str_eq(name, "result") {
        Some(VariableType::I128(*result))
    } else {
        None
    }
}

/// Shared parameter binding of the arithmetic events.
fn math_accept_exec(num1: &mut Option<i128>, num2: &mut Option<i128>, idx: usize, param:
    &VariableType) -> (ok: bool)
    ensures
        ({
            let m0 = math_view(*old(num1), *old(num2), None);
            let m1 = math_view(*final(num1), *final(num2), None);
            let (m2, ok2) = math_accept(m0, idx as int, param@);
            m1 == m2 && ok == ok2
        }),
{
    match type_value_to_number(param) {
        None => false,
        Some(n) => {
            if idx == 0 {
                *num1 = n;
                true
            } else if idx == 1 {
                *num2 = n;
                true
            } else {
                false
            }
        },
    }
}

/// Shared invocation of the arithmetic events: exact checked arithmetic on
/// the 128-bit accumulator.
fn math_call_exec(
    num1: &Option<i128>,
    num2: &Option<i128>,
    result: &mut Option<i128>,
    op: &MathOp,
) -> (r: Result<(), RuntimeErrorKind>)
    ensures
        ({
            let m0 = math_view(*num1, *num2, *old(result));
            match r {
                Ok(()) => math_call(m0, *op) == Ok::<MathS, RuntimeErrorKind>(
                    math_view(*num1, *num2, *final(result)),
                ),
                Err(k) => math_call(m0, *op) == Err::<MathS, RuntimeErrorKind>(k)
                    && *final(result) == *old(result),
            }
        }),
{
    if let (Some(a), Some(b)) = (*num1, *num2) {
        let computed: Option<i128> = match op {
            MathOp::AddOp => a.checked_add(b),
            MathOp::SubOp => a.checked_sub(b),
            MathOp::MulOp => a.checked_mul(b),
            MathOp::DivOp => {
                if b == 0 {
                    return Err(RuntimeErrorKind::DivisionByZero);
                }
                a.checked_div(b)
            },
            MathOp::ModOp => {
                if b == 0 {
                    return Err(RuntimeErrorKind::DivisionByZero);
                }
                proof {
                    if a == i128::MIN && b == -1 {
                        assert(trunc_div(a as int, b as int) == (i128::MIN as int) * -1 / 1);
                    } else {
                        lemma_trunc_div_bounds(a as int, b as int);
                    }
                }
                a.checked_rem(b)
            },
        };
        match computed {
            Some(q) => {
                *result = Some(q);
                Ok(())
            },
            None => Err(RuntimeErrorKind::ArithmeticOverflow),
        }
    } else {
        Ok(())
    }
}

impl EventInstance {
    /// The instance's registry name.
    pub fn name(&self) -> (r: &'static str)
        ensures
            r@ == ev_name(self@),
    {
        match self {
            EventInstance::Start(_) => "OnStart",
            EventInstance::Print(_) => "Print",
            EventInstance::Add(_) => "+",
            EventInstance::Sub(_) => "-",
            EventInstance::Mul(_) => "*",
            EventInstance::Div(_) => "/",
            EventInstance::Mod(_) => "%",
        }
    }

    /// Whether the instance accepts `count` parameters.
    pub fn check_param_count(&self, count: usize) -> (r: bool)
        ensures
            r == ev_check_count(self@, count as int),
    {
        match self {
            EventInstance::Start(_) => count == 0,
            EventInstance::Print(_) => count > 0,
            _ => count == 2,
        }
    }

    /// The field the invoked instance exposes under `name`, if any.
    pub fn get_var(&self, name: &String) -> (r: Option<VariableType>)
        ensures
            match r {
                Some(v) => ev_get_var(self@, name@) == Some(v@),
                None => ev_get_var(self@, name@) is None,
            },
    {
        match self {
            EventInstance::Start(_) => None,
            EventInstance::Print(p) => if str_eq(name.as_str(), "message") {
                Some(VariableType::Str(clone_opt_string(&p.message)))
            } else {
                None
            },
            EventInstance::Add(m) => math_get_var_exec(&m.num1, &m.num2, &m.result, name.as_str()),
            EventInstance::Sub(m) => math_get_var_exec(&m.num1, &m.num2, &m.result, name.as_str()),
            EventInstance::Mul(m) => math_get_var_exec(&m.num1, &m.num2, &m.result, name.as_str()),
            EventInstance::Div(m) => math_get_var_exec(&m.num1, &m.num2, &m.result, name.as_str()),
            EventInstance::Mod(m) => math_get_var_exec(&m.num1, &m.num2, &m.result, name.as_str()),
        }
    }

    /// Bind parameter `idx`; `false` means the instance rejects it.
    pub fn accept(&mut self, idx: usize, param: &VariableType) -> (ok: bool)
        ensures
            ({
                let (e2, ok2) = ev_accept(old(self)@, idx as int, param@);
                final(self)@ == e2 && ok == ok2
            }),
    {
        match self {
            EventInstance::Start(_) => false,
            EventInstance::Print(p) => {
                let rendered = type_value_to_string(param);
                match &mut p.message {
                    None => {
                        p.message = rendered;
                    },
                    Some(m) => match rendered {
                        None => {
                            m.append("null");
                        },
                        Some(piece) => {
                            m.append(piece.as_str());
                        },
                    },
                }
                true
            },
            EventInstance::Add(m) => math_accept_exec(&mut m.num1, &mut m.num2, idx, param),
            EventInstance::Sub(m) => math_accept_exec(&mut m.num1, &mut m.num2, idx, param),
            EventInstance::Mul(m) => math_accept_exec(&mut m.num1, &mut m.num2, idx, param),
            EventInstance::Div(m) => math_accept_exec(&mut m.num1, &mut m.num2, idx, param),
            EventInstance::Mod(m) => math_accept_exec(&mut m.num1, &mut m.num2, idx, param),
        }
    }

    /// Invoke the instance; an emitted `Some` line belongs on the standard
    /// output stream.
    pub fn call(&mut self) -> (r: Result<Option<String>, RuntimeErrorKind>)
        ensures
            match r {
                Ok(line) => ev_call(old(self)@) == Ok::<
                    (EvS, Option<Seq<char>>),
                    RuntimeErrorKind,
                >((final(self)@, line.deep_view())),
                Err(k) => ev_call(old(self)@) == Err::<
                    (EvS, Option<Seq<char>>),
                    RuntimeErrorKind,
                >(k) && final(self)@ == old(self)@,
            },
    {
        match self {
            EventInstance::Start(_) => Ok(None),
            EventInstance::Print(p) => match &p.message {
                Some(m) => Ok(Some(m.clone())),
                None => {
                    proof {
                        reveal_strlit("null");
                    }
                    Ok(Some("null".to_owned()))
                },
            },
            EventInstance::Add(m) => match math_call_exec(
                &m.num1,
                &m.num2,
                &mut m.result,
                &MathOp::AddOp,
            ) {
                Ok(()) => Ok(None),
                Err(k) => Err(k),
            },
            EventInstance::Sub(m) => match math_call_exec(
                &m.num1,
                &m.num2,
                &mut m.result,
                &MathOp::SubOp,
            ) {
                Ok(()) => Ok(None),
                Err(k) => Err(k),
            },
            EventInstance::Mul(m) => match math_call_exec(
                &m.num1,
                &m.num2,
                &mut m.result,
                &MathOp::MulOp,
            ) {
                Ok(()) => Ok(None),
                Err(k) => Err(k),
            },
            EventInstance::Div(m) => match math_call_exec(
                &m.num1,
                &m.num2,
                &mut m.result,
                &MathOp::DivOp,
            ) {
                Ok(()) => Ok(None),
                Err(k) => Err(k),
            },
            EventInstance::Mod(m) => match math_call_exec(
                &m.num1,
                &m.num2,
                &mut m.result,
                &MathOp::ModOp,
            ) {
                Ok(()) => Ok(None),
                Err(k) => Err(k),
            },
        }
    }

    /// A fresh copy of the instance, fields preserved.
    pub fn clone_self(&self) -> (r: EventInstance)
        ensures
            r@ == self@,
    {
        match self {
            EventInstance::Start(_) => EventInstance::Start(OnStart),
            EventInstance::Print(p) => EventInstance::Print(
                Print { message: clone_opt_string(&p.message) },
            ),
            EventInstance::Add(m) => EventInstance::Add(
                MathAdd { num1: m.num1, num2: m.num2, result: m.result },
            ),
            EventInstance::Sub(m) => EventInstance::Sub(
                MathSubtract { num1: m.num1, num2: m.num2, result: m.result },
            ),
            EventInstance::Mul(m) => EventInstance::Mul(
                MathMultiply { num1: m.num1, num2: m.num2, result: m.result },
            ),
            EventInstance::Div(m) => EventInstance::Div(
                MathDivide { num1: m.num1, num2: m.num2, result: m.result },
            ),
            EventInstance::Mod(m) => EventInstance::Mod(
                MathModulo { num1: m.num1, num2: m.num2, result: m.result },
            ),
        }
    }
}

} // verus!
