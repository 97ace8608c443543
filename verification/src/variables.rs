use vstd::prelude::*;
use vstd::string::StrSliceExecFns;
use vstd::string::StringExecFns;
use crate::errors::RuntimeError;
use crate::errors::RuntimeErrorKind;
use crate::events::ev_name;
use crate::events::EvS;
use crate::events::EventInstance;
use crate::numbers::dec_repr;
use crate::numbers::parse_int;
use crate::numbers::render_i128;
use crate::numbers::spec_parse_int;
use crate::position::Position;
use crate::textutil::char_to_string;
use crate::textutil::starts_with_char;
use crate::textutil::str_eq;
use crate::textutil::strip_first;
use crate::textutil::substring;

verus! {

/// The integer widths a value can carry.  The signed 128-bit width exists
/// only as the internal accumulator of the arithmetic events; it is never
/// user-declarable.
#[derive(Debug, Clone, Copy, PartialEq, Eq, Structural)]
pub enum IntTag {
    U8,
    U16,
    U32,
    U64,
    I8,
    I16,
    I32,
    I64,
    I128,
}

impl IntTag {
    /// The smallest value of the width.
    pub open spec fn min_spec(self) -> int {
        match self {
            IntTag::U8 | IntTag::U16 | IntTag::U32 | IntTag::U64 => 0,
            IntTag::I8 => i8::MIN as int,
            IntTag::I16 => i16::MIN as int,
            IntTag::I32 => i32::MIN as int,
            IntTag::I64 => i64::MIN as int,
            IntTag::I128 => i128::MIN as int,
        }
    }

    /// The largest value of the width.
    pub open spec fn max_spec(self) -> int {
        match self {
            IntTag::U8 => u8::MAX as int,
            IntTag::U16 => u16::MAX as int,
            IntTag::U32 => u32::MAX as int,
            IntTag::U64 => u64::MAX as int,
            IntTag::I8 => i8::MAX as int,
            IntTag::I16 => i16::MAX as int,
            IntTag::I32 => i32::MAX as int,
            IntTag::I64 => i64::MAX as int,
            IntTag::I128 => i128::MAX as int,
        }
    }
}

/// The user-declarable type tags whose values a literal can spell.
#[derive(Debug, Clone, Copy, PartialEq, Eq, Structural)]
pub enum TagL {
    Int(IntTag),
    Chr,
    Str,
    Bool,
}

/// The tag of a value, with no payload: what must match for an assignment
/// without a cast.
#[derive(Debug, Clone, Copy, PartialEq, Eq, Structural)]
pub enum TagK {
    I(IntTag),
    C,
    S,
    B,
    E,
}

/// The mathematical shape of a runtime value: a tagged, possibly null
/// payload, or a live event instance.
#[verifier::ext_equal]
pub enum ValS {
    Int(IntTag, Option<int>),
    Char(Option<char>),
    Str(Option<Seq<char>>),
    Bool(Option<bool>),
    Event(EvS),
}

impl ValS {
    /// An accumulator-width integer value.
    pub open spec fn int_i128(o: Option<int>) -> ValS {
        ValS::Int(IntTag::I128, o)
    }
}

/// The payload-free tag of a value.
pub open spec fn tag_k(v: ValS) -> TagK {
    match v {
        ValS::Int(it, _) => TagK::I(it),
        ValS::Char(_) => TagK::C,
        ValS::Str(_) => TagK::S,
        ValS::Bool(_) => TagK::B,
        ValS::Event(_) => TagK::E,
    }
}

/// Whether two values carry the same tag.
pub open spec fn same_tag(a: ValS, b: ValS) -> bool {
    tag_k(a) == tag_k(b)
}

pub open spec fn tagl_k(t: TagL) -> TagK {
    match t {
        TagL::Int(it) => TagK::I(it),
        TagL::Chr => TagK::C,
        TagL::Str => TagK::S,
        TagL::Bool => TagK::B,
    }
}

/// The declarable tag named `t`, if `t` names one.  `i128` and `event`
/// name no literal grammar and are not directly declarable.
pub open spec fn name_tag(t: Seq<char>) -> Option<TagL> {
    if t == "u8"@ {
        Some(TagL::Int(IntTag::U8))
    } else if t == "u16"@ {
        Some(TagL::Int(IntTag::U16))
    } else if t == "u32"@ {
        Some(TagL::Int(IntTag::U32))
    } else if t == "u64"@ {
        Some(TagL::Int(IntTag::U64))
    } else if t == "i8"@ {
        Some(TagL::Int(IntTag::I8))
    } else if t == "i16"@ {
        Some(TagL::Int(IntTag::I16))
    } else if t == "i32"@ {
        Some(TagL::Int(IntTag::I32))
    } else if t == "i64"@ {
        Some(TagL::Int(IntTag::I64))
    } else if t == "char"@ {
        Some(TagL::Chr)
    } else if t == "string"@ {
        Some(TagL::Str)
    } else if t == "bool"@ {
        Some(TagL::Bool)
    } else {
        None
    }
}

/// Whether `t` names one of the floating-point tags, which this core
/// cannot hold: declaring one is a `NotSupported` failure.
pub open spec fn name_unsupported(t: Seq<char>) -> bool {
    t == "float"@ || t == "double"@
}

/// The literal grammar of a declarable tag: what a static literal must
/// spell to carry that tag.
pub open spec fn lit_parse(t: TagL, s: Seq<char>) -> Option<ValS> {
    match t {
        TagL::Int(it) => match spec_parse_int(s, it.min_spec(), it.max_spec()) {
            Some(v) => Some(ValS::Int(it, Some(v))),
            None => None,
        },
        TagL::Chr => if s.len() == 1 {
            Some(ValS::Char(Some(s[0])))
        } else {
            None
        },
        TagL::Str => if s.len() > 0 && s.first() == '"' && s.last() == '"' {
            Some(
                ValS::Str(
                    Some(
                        if s.len() >= 2 {
                            s.subrange(1, s.len() - 1)
                        } else {
                            Seq::empty()
                        },
                    ),
                ),
            )
        } else {
            None
        },
        TagL::Bool => if s == "true"@ {
            Some(ValS::Bool(Some(true)))
        } else if s == "false"@ {
            Some(ValS::Bool(Some(false)))
        } else {
            None
        },
    }
}

/// The null value of a declarable tag.
pub open spec fn null_of(t: TagL) -> ValS {
    match t {
        TagL::Int(it) => ValS::Int(it, None),
        TagL::Chr => ValS::Char(None),
        TagL::Str => ValS::Str(None),
        TagL::Bool => ValS::Bool(None),
    }
}

/// The textual rendering of a value: `None` for a null one.  An event
/// value renders to its registry name.
pub open spec fn render_val(v: ValS) -> Option<Seq<char>> {
    match v {
        ValS::Int(_, o) => match o {
            Some(n) => Some(dec_repr(n)),
            None => None,
        },
        ValS::Char(o) => match o {
            Some(c) => Some(seq![c]),
            None => None,
        },
        ValS::Str(o) => o,
        ValS::Bool(o) => match o {
            Some(b) => if b {
                Some("true"@)
            } else {
                Some("false"@)
            },
            None => None,
        },
        ValS::Event(e) => Some(ev_name(e)),
    }
}

/// The numeric reading of a value: `None` for a non-integer tag, the
/// (possibly null) accumulator value otherwise.
pub open spec fn num_of_val(v: ValS) -> Option<Option<int>> {
    match v {
        ValS::Int(_, o) => Some(o),
        _ => None,
    }
}

/// The declarable tag a value's own tag corresponds to, used to re-parse
/// under the value's existing type.  The accumulator width and the event
/// tag have no literal grammar and yield `None`.
pub open spec fn static_tagl(v: ValS) -> Option<TagL> {
    match v {
        ValS::Int(IntTag::I128, _) => None,
        ValS::Int(it, _) => Some(TagL::Int(it)),
        ValS::Char(_) => Some(TagL::Chr),
        ValS::Str(_) => Some(TagL::Str),
        ValS::Bool(_) => Some(TagL::Bool),
        ValS::Event(_) => None,
    }
}

/// A typed runtime value, possibly null.
#[derive(Debug)]
pub enum VariableType {
    U8(Option<u8>),
    U16(Option<u16>),
    U32(Option<u32>),
    U64(Option<u64>),
    I8(Option<i8>),
    I16(Option<i16>),
    I32(Option<i32>),
    I64(Option<i64>),
    I128(Option<i128>),
    Char(Option<char>),
    Str(Option<String>),
    Bool(Option<bool>),
    Event(EventInstance),
}

impl View for VariableType {
    type V = ValS;

    open spec fn view(&self) -> ValS {
        match self {
            VariableType::U8(o) => ValS::Int(
                IntTag::U8,
                match o {
                    Some(v) => Some(*v as int),
                    None => None,
                },
            ),
            VariableType::U16(o) => ValS::Int(
                IntTag::U16,
                match o {
                    Some(v) => Some(*v as int),
                    None => None,
                },
            ),
            VariableType::U32(o) => ValS::Int(
                IntTag::U32,
                match o {
                    Some(v) => Some(*v as int),
                    None => None,
                },
            ),
            VariableType::U64(o) => ValS::Int(
                IntTag::U64,
                match o {
                    Some(v) => Some(*v as int),
                    None => None,
                },
            ),
            VariableType::I8(o) => ValS::Int(
                IntTag::I8,
                match o {
                    Some(v) => Some(*v as int),
                    None => None,
                },
            ),
            VariableType::I16(o) => ValS::Int(
                IntTag::I16,
                match o {
                    Some(v) => Some(*v as int),
                    None => None,
                },
            ),
            VariableType::I32(o) => ValS::Int(
                IntTag::I32,
                match o {
                    Some(v) => Some(*v as int),
                    None => None,
                },
            ),
            VariableType::I64(o) => ValS::Int(
                IntTag::I64,
                match o {
                    Some(v) => Some(*v as int),
                    None => None,
                },
            ),
            VariableType::I128(o) => ValS::Int(
                IntTag::I128,
                match o {
                    Some(v) => Some(*v as int),
                    None => None,
                },
            ),
            VariableType::Char(o) => ValS::Char(*o),
            VariableType::Str(o) => ValS::Str(o.deep_view()),
            VariableType::Bool(o) => ValS::Bool(*o),
            VariableType::Event(e) => ValS::Event(e@),
        }
    }
}

impl DeepView for VariableType {
    type V = ValS;

    open spec fn deep_view(&self) -> ValS {
        self.view()
    }
}

impl Clone for VariableType {
    /// A copy with the same tag and payload.
    fn clone(&self) -> (res: Self)
        ensures
            res@ == self@,
    {
        match self {
            VariableType::U8(o) => VariableType::U8(*o),
            VariableType::U16(o) => VariableType::U16(*o),
            VariableType::U32(o) => VariableType::U32(*o),
            VariableType::U64(o) => VariableType::U64(*o),
            VariableType::I8(o) => VariableType::I8(*o),
            VariableType::I16(o) => VariableType::I16(*o),
            VariableType::I32(o) => VariableType::I32(*o),
            VariableType::I64(o) => VariableType::I64(*o),
            VariableType::I128(o) => VariableType::I128(*o),
            VariableType::Char(o) => VariableType::Char(*o),
            VariableType::Str(o) => VariableType::Str(crate::textutil::clone_opt_string(o)),
            VariableType::Bool(o) => VariableType::Bool(*o),
            VariableType::Event(e) => VariableType::Event(e.clone_self()),
        }
    }
}

/// A named, typed slot in a scope.  The tag is immutable once created
/// except through an explicit cast; a null payload is representable only
/// when `nullable` is set, which a leading `?` on the declared type name
/// grants.
#[derive(Debug)]
pub struct Variable {
    pub name: String,
    pub variable_type: VariableType,
    pub nullable: bool,
}

/// The mathematical shape of a `Variable`.
#[verifier::ext_equal]
pub struct VariableS {
    pub name: Seq<char>,
    pub val: ValS,
    pub nullable: bool,
}

impl Clone for Variable {
    /// A copy with the same name, tag, payload and nullability.
    fn clone(&self) -> (res: Self)
        ensures
            res@ == self@,
    {
        Variable {
            name: self.name.clone(),
            variable_type: self.variable_type.clone(),
            nullable: self.nullable,
        }
    }
}

impl View for Variable {
    type V = VariableS;

    open spec fn view(&self) -> VariableS {
        VariableS { name: self.name@, val: self.variable_type@, nullable: self.nullable }
    }
}

impl DeepView for Variable {
    type V = VariableS;

    open spec fn deep_view(&self) -> VariableS {
        self.view()
    }
}

/// Declaring a variable from a static literal: strip the nullability
/// marker, reject `null` for a non-nullable type, resolve the declared
/// type name, and parse the literal under its grammar.
pub open spec fn var_new_spec(name: Seq<char>, typ: Seq<char>, value: Seq<char>) -> Result<
    VariableS,
    RuntimeErrorKind,
> {
    let nullable = typ.len() > 0 && typ.first() == '?';
    let base = if nullable {
        typ.drop_first()
    } else {
        typ
    };
    let is_null = value == "null"@;
    if is_null && !nullable {
        Err(RuntimeErrorKind::NullNotAllowed)
    } else if name_unsupported(base) {
        Err(RuntimeErrorKind::NotSupported)
    } else {
        match name_tag(base) {
            None => Err(RuntimeErrorKind::UnknownType),
            Some(t) => if is_null {
                Ok(VariableS { name, val: null_of(t), nullable })
            } else {
                match lit_parse(t, value) {
                    None => Err(RuntimeErrorKind::TypeMismatch),
                    Some(v) => Ok(VariableS { name, val: v, nullable }),
                }
            },
        }
    }
}

/// Declaring a variable from a dynamically resolved value: on a tag match
/// the value is taken as it is; otherwise a requested cast re-parses the
/// value's rendered text under the declared type's grammar, and without a
/// cast the declaration fails.
pub open spec fn var_new_dyn_spec(
    name: Seq<char>,
    typ: Seq<char>,
    cast: bool,
    value: ValS,
) -> Result<VariableS, RuntimeErrorKind> {
    let nullable = typ.len() > 0 && typ.first() == '?';
    let base = if nullable {
        typ.drop_first()
    } else {
        typ
    };
    let rendered = render_val(value);
    let is_null = rendered is None;
    if is_null && !nullable {
        Err(RuntimeErrorKind::NullNotAllowed)
    } else if name_unsupported(base) {
        Err(RuntimeErrorKind::NotSupported)
    } else {
        match name_tag(base) {
            None => Err(RuntimeErrorKind::UnknownType),
            Some(t) => if tagl_k(t) == tag_k(value) {
                Ok(VariableS { name, val: value, nullable })
            } else if cast {
                if is_null {
                    Ok(VariableS { name, val: null_of(t), nullable })
                } else {
                    match lit_parse(t, rendered->0) {
                        None => Err(RuntimeErrorKind::CastFailure),
                        Some(v) => Ok(VariableS { name, val: v, nullable }),
                    }
                }
            } else {
                Err(RuntimeErrorKind::TypeMismatch)
            },
        }
    }
}

/// Reassigning a variable from a static literal: the literal is re-parsed
/// under the variable's existing tag, which is sticky.
pub open spec fn var_set_static_spec(var: VariableS, value: Seq<char>) -> Result<
    VariableS,
    RuntimeErrorKind,
> {
    let is_null = value == "null"@;
    if is_null && !var.nullable {
        Err(RuntimeErrorKind::NullNotAllowed)
    } else {
        match static_tagl(var.val) {
            None => Err(RuntimeErrorKind::TypeMismatch),
            Some(t) => if is_null {
                Ok(VariableS { name: var.name, val: null_of(t), nullable: var.nullable })
            } else {
                match lit_parse(t, value) {
                    None => Err(RuntimeErrorKind::TypeMismatch),
                    Some(v) => Ok(VariableS { name: var.name, val: v, nullable: var.nullable }),
                }
            },
        }
    }
}

/// Reassigning a variable from a dynamically resolved value, under the
/// cast policy: matching tags assign directly; differing tags with a cast
/// re-parse the rendered text under the variable's own tag; differing tags
/// without one fail.
pub open spec fn var_set_dyn_spec(var: VariableS, cast: bool, value: ValS) -> Result<
    VariableS,
    RuntimeErrorKind,
> {
    let rendered = render_val(value);
    let is_null = rendered is None;
    if is_null && !var.nullable {
        Err(RuntimeErrorKind::NullNotAllowed)
    } else if same_tag(var.val, value) {
        Ok(VariableS { name: var.name, val: value, nullable: var.nullable })
    } else if cast {
        match static_tagl(var.val) {
            None => Err(RuntimeErrorKind::CastFailure),
            Some(t) => if is_null {
                Ok(VariableS { name: var.name, val: null_of(t), nullable: var.nullable })
            } else {
                match lit_parse(t, rendered->0) {
                    None => Err(RuntimeErrorKind::CastFailure),
                    Some(v) => Ok(VariableS { name: var.name, val: v, nullable: var.nullable }),
                }
            },
        }
    } else {
        Err(RuntimeErrorKind::TypeMismatch)
    }
}

/// The bounds of an integer width.
fn int_bounds(it: IntTag) -> (r: (i128, i128))
    ensures
        r.0 as int == it.min_spec(),
        r.1 as int == it.max_spec(),
        r.0 <= 0 < r.1,
{
    match it {
        IntTag::U8 => (0, u8::MAX as i128),
        IntTag::U16 => (0, u16::MAX as i128),
        IntTag::U32 => (0, u32::MAX as i128),
        IntTag::U64 => (0, u64::MAX as i128),
        IntTag::I8 => (i8::MIN as i128, i8::MAX as i128),
        IntTag::I16 => (i16::MIN as i128, i16::MAX as i128),
        IntTag::I32 => (i32::MIN as i128, i32::MAX as i128),
        IntTag::I64 => (i64::MIN as i128, i64::MAX as i128),
        IntTag::I128 => (i128::MIN, i128::MAX),
    }
}

/// The integer value `v` carried at width `it`.
fn make_int_value(it: IntTag, v: i128) -> (r: VariableType)
    requires
        it.min_spec() <= v as int <= it.max_spec(),
    ensures
        r@ == ValS::Int(it, Some(v as int)),
{
    match it {
        IntTag::U8 => VariableType::U8(Some(v as u8)),
        IntTag::U16 => VariableType::U16(Some(v as u16)),
        IntTag::U32 => VariableType::U32(Some(v as u32)),
        IntTag::U64 => VariableType::U64(Some(v as u64)),
        IntTag::I8 => VariableType::I8(Some(v as i8)),
        IntTag::I16 => VariableType::I16(Some(v as i16)),
        IntTag::I32 => VariableType::I32(Some(v as i32)),
        IntTag::I64 => VariableType::I64(Some(v as i64)),
        IntTag::I128 => VariableType::I128(Some(v)),
    }
}

/// The null value carried at tag `t`.
fn null_value(t: TagL) -> (r: VariableType)
    ensures
        r@ == null_of(t),
{
    match t {
        TagL::Int(IntTag::U8) => VariableType::U8(None),
        TagL::Int(IntTag::U16) => VariableType::U16(None),
        TagL::Int(IntTag::U32) => VariableType::U32(None),
        TagL::Int(IntTag::U64) => VariableType::U64(None),
        TagL::Int(IntTag::I8) => VariableType::I8(None),
        TagL::Int(IntTag::I16) => VariableType::I16(None),
        TagL::Int(IntTag::I32) => VariableType::I32(None),
        TagL::Int(IntTag::I64) => VariableType::I64(None),
        TagL::Int(IntTag::I128) => VariableType::I128(None),
        TagL::Chr => VariableType::Char(None),
        TagL::Str => VariableType::Str(None),
        TagL::Bool => VariableType::Bool(None),
    }
}

/// Parse a literal under tag `t`.
fn parse_literal(t: TagL, s: &str) -> (r: Option<VariableType>)
    ensures
        match r {
            Some(v) => lit_parse(t, s@) == Some(v@),
            None => lit_parse(t, s@) is None,
        },
{
    match t {
        TagL::Int(it) => {
            let (mn, mx) = int_bounds(it);
            match parse_int(s, mn, mx) {
                Some(v) => Some(make_int_value(it, v)),
                None => None,
            }
        },
        TagL::Chr => {
            if s.unicode_len() == 1 {
                Some(VariableType::Char(Some(s.get_char(0))))
            } else {
                None
            }
        },
        TagL::Str => {
            if starts_with_char(s, '"') && crate::textutil::ends_with_char(s, '"') {
                let len = s.unicode_len();
                let contents: String = if len >= 2 {
                    substring(s, 1, len - 1)
                } else {
                    String::new()
                };
                proof {
                    let expected = if s@.len() >= 2 {
                        s@.subrange(1, s@.len() - 1)
                    } else {
                        Seq::<char>::empty()
                    };
                    assert(contents@ =~= expected);
                }
                Some(VariableType::Str(Some(contents)))
            } else {
                None
            }
        },
        TagL::Bool => {
            if str_eq(s, "true") {
                Some(VariableType::Bool(Some(true)))
            } else if str_eq(s, "false") {
                Some(VariableType::Bool(Some(false)))
            } else {
                None
            }
        },
    }
}

/// The payload-free tag of a value.
fn tag_of_value(v: &VariableType) -> (k: TagK)
    ensures
        k == tag_k(v@),
{
    match v {
        VariableType::U8(_) => TagK::I(IntTag::U8),
        VariableType::U16(_) => TagK::I(IntTag::U16),
        VariableType::U32(_) => TagK::I(IntTag::U32),
        VariableType::U64(_) => TagK::I(IntTag::U64),
        VariableType::I8(_) => TagK::I(IntTag::I8),
        VariableType::I16(_) => TagK::I(IntTag::I16),
        VariableType::I32(_) => TagK::I(IntTag::I32),
        VariableType::I64(_) => TagK::I(IntTag::I64),
        VariableType::I128(_) => TagK::I(IntTag::I128),
        VariableType::Char(_) => TagK::C,
        VariableType::Str(_) => TagK::S,
        VariableType::Bool(_) => TagK::B,
        VariableType::Event(_) => TagK::E,
    }
}

/// The declarable tag of a value's own tag, for re-parsing under it.
fn static_tagl_exec(v: &VariableType) -> (r: Option<TagL>)
    ensures
        r == static_tagl(v@),
{
    match v {
        VariableType::U8(_) => Some(TagL::Int(IntTag::U8)),
        VariableType::U16(_) => Some(TagL::Int(IntTag::U16)),
        VariableType::U32(_) => Some(TagL::Int(IntTag::U32)),
        VariableType::U64(_) => Some(TagL::Int(IntTag::U64)),
        VariableType::I8(_) => Some(TagL::Int(IntTag::I8)),
        VariableType::I16(_) => Some(TagL::Int(IntTag::I16)),
        VariableType::I32(_) => Some(TagL::Int(IntTag::I32)),
        VariableType::I64(_) => Some(TagL::Int(IntTag::I64)),
        VariableType::I128(_) => None,
        VariableType::Char(_) => Some(TagL::Chr),
        VariableType::Str(_) => Some(TagL::Str),
        VariableType::Bool(_) => Some(TagL::Bool),
        VariableType::Event(_) => None,
    }
}

/// Resolve a declared type name to its tag.
fn name_tag_exec(base: &str) -> (r: Option<TagL>)
    ensures
        r == name_tag(base@),
{
    if str_eq(base, "u8") {
        Some(TagL::Int(IntTag::U8))
    } else if str_eq(base, "u16") {
        Some(TagL::Int(IntTag::U16))
    } else if str_eq(base, "u32") {
        Some(TagL::Int(IntTag::U32))
    } else if str_eq(base, "u64") {
        Some(TagL::Int(IntTag::U64))
    } else if str_eq(base, "i8") {
        Some(TagL::Int(IntTag::I8))
    } else if str_eq(base, "i16") {
        Some(TagL::Int(IntTag::I16))
    } else if str_eq(base, "i32") {
        Some(TagL::Int(IntTag::I32))
    } else if str_eq(base, "i64") {
        Some(TagL::Int(IntTag::I64))
    } else if str_eq(base, "char") {
        Some(TagL::Chr)
    } else if str_eq(base, "string") {
        Some(TagL::Str)
    } else if str_eq(base, "bool") {
        Some(TagL::Bool)
    } else {
        None
    }
}

/// The textual rendering of a value: `None` renders a null.
pub fn type_value_to_string(value: &VariableType) -> (r: Option<String>)
    ensures
        r.deep_view() == render_val(value@),
{
    match value {
        VariableType::U8(o) => match o {
            Some(v) => Some(render_i128(*v as i128)),
            None => None,
        },
        VariableType::U16(o) => match o {
            Some(v) => Some(render_i128(*v as i128)),
            None => None,
        },
        VariableType::U32(o) => match o {
            Some(v) => Some(render_i128(*v as i128)),
            None => None,
        },
        VariableType::U64(o) => match o {
            Some(v) => Some(render_i128(*v as i128)),
            None => None,
        },
        VariableType::I8(o) => match o {
            Some(v) => Some(render_i128(*v as i128)),
            None => None,
        },
        VariableType::I16(o) => match o {
            Some(v) => Some(render_i128(*v as i128)),
            None => None,
        },
        VariableType::I32(o) => match o {
            Some(v) => Some(render_i128(*v as i128)),
            None => None,
        },
        VariableType::I64(o) => match o {
            Some(v) => Some(render_i128(*v as i128)),
            None => None,
        },
        VariableType::I128(o) => match o {
            Some(v) => Some(render_i128(*v)),
            None => None,
        },
        VariableType::Char(o) => match o {
            Some(c) => Some(char_to_string(*c)),
            None => None,
        },
        VariableType::Str(o) => crate::textutil::clone_opt_string(o),
        VariableType::Bool(o) => match o {
            Some(b) => {
                proof {
                    reveal_strlit("true");
                    reveal_strlit("false");
                }
                if *b {
                    Some("true".to_owned())
                } else {
                    Some("false".to_owned())
                }
            },
            None => None,
        },
        VariableType::Event(e) => Some(e.name().to_owned()),
    }
}

/// The numeric reading of a value: the outer `None` for a non-integer
/// tag, the inner for a null integer.
pub fn type_value_to_number(value: &VariableType) -> (r: Option<Option<i128>>)
    ensures
        ({
            let s = num_of_val(value@);
            match r {
                None => s is None,
                Some(o) => s == Some(
                    match o {
                        Some(v) => Some(v as int),
                        None => None::<int>,
                    },
                ),
            }
        }),
{
    match value {
        VariableType::U8(o) => match o {
            Some(v) => Some(Some(*v as i128)),
            None => Some(None),
        },
        VariableType::U16(o) => match o {
            Some(v) => Some(Some(*v as i128)),
            None => Some(None),
        },
        VariableType::U32(o) => match o {
            Some(v) => Some(Some(*v as i128)),
            None => Some(None),
        },
        VariableType::U64(o) => match o {
            Some(v) => Some(Some(*v as i128)),
            None => Some(None),
        },
        VariableType::I8(o) => match o {
            Some(v) => Some(Some(*v as i128)),
            None => Some(None),
        },
        VariableType::I16(o) => match o {
            Some(v) => Some(Some(*v as i128)),
            None => Some(None),
        },
        VariableType::I32(o) => match o {
            Some(v) => Some(Some(*v as i128)),
            None => Some(None),
        },
        VariableType::I64(o) => match o {
            Some(v) => Some(Some(*v as i128)),
            None => Some(None),
        },
        VariableType::I128(o) => Some(*o),
        _ => None,
    }
}

impl Variable {
    /// Declare a variable from a static literal under a declared type
    /// name.
    pub fn new(name: &String, typ: &String, value: &String, pos: Position) -> (r: Result<
        Variable,
        RuntimeError,
    >)
        ensures
            match r {
                Ok(v) => var_new_spec(name@, typ@, value@) == Ok::<VariableS, RuntimeErrorKind>(
                    v@,
                ),
                Err(e) => var_new_spec(name@, typ@, value@) == Err::<VariableS, _>(e.kind)
                    && e.pos == Some(pos),
            },
    {
        let nullable = starts_with_char(typ.as_str(), '?');
        let base: String = if nullable {
            strip_first(typ.as_str())
        } else {
            typ.clone()
        };
        let is_null = str_eq(value.as_str(), "null");
        if is_null && !nullable {
            return Err(RuntimeError::at(RuntimeErrorKind::NullNotAllowed, pos));
        }
        if str_eq(base.as_str(), "float") || str_eq(base.as_str(), "double") {
            return Err(RuntimeError::at(RuntimeErrorKind::NotSupported, pos));
        }
        match name_tag_exec(base.as_str()) {
            None => Err(RuntimeError::at(RuntimeErrorKind::UnknownType, pos)),
            Some(t) => {
                if is_null {
                    Ok(Variable { name: name.clone(), variable_type: null_value(t), nullable })
                } else {
                    match parse_literal(t, value.as_str()) {
                        None => Err(RuntimeError::at(RuntimeErrorKind::TypeMismatch, pos)),
                        Some(v) => Ok(Variable { name: name.clone(), variable_type: v, nullable }),
                    }
                }
            },
        }
    }

    /// Wrap a live event instance as a variable's value.
    pub fn new_event_type(name: &String, event: EventInstance) -> (r: Variable)
        ensures
            r@ == (VariableS { name: name@, val: ValS::Event(event@), nullable: false }),
    {
        Variable { name: name.clone(), variable_type: VariableType::Event(event), nullable: false }
    }

    /// Declare a variable from a dynamically resolved value under a
    /// declared type name, applying the cast policy.
    pub fn new_type(
        name: &String,
        typ: &String,
        cast: bool,
        value: VariableType,
        pos: Position,
    ) -> (r: Result<Variable, RuntimeError>)
        ensures
            match r {
                Ok(v) => var_new_dyn_spec(name@, typ@, cast, value@) == Ok::<
                    VariableS,
                    RuntimeErrorKind,
                >(v@),
                Err(e) => var_new_dyn_spec(name@, typ@, cast, value@) == Err::<VariableS, _>(
                    e.kind,
                ) && e.pos == Some(pos),
            },
    {
        let nullable = starts_with_char(typ.as_str(), '?');
        let base: String = if nullable {
            strip_first(typ.as_str())
        } else {
            typ.clone()
        };
        let rendered = type_value_to_string(&value);
        let is_null = rendered.is_none();
        if is_null && !nullable {
            return Err(RuntimeError::at(RuntimeErrorKind::NullNotAllowed, pos));
        }
        if str_eq(base.as_str(), "float") || str_eq(base.as_str(), "double") {
            return Err(RuntimeError::at(RuntimeErrorKind::NotSupported, pos));
        }
        match name_tag_exec(base.as_str()) {
            None => Err(RuntimeError::at(RuntimeErrorKind::UnknownType, pos)),
            Some(t) => {
                let tk = tagl_to_k(t);
                if tk == tag_of_value(&value) {
                    return Ok(Variable { name: name.clone(), variable_type: value, nullable });
                }
                if !cast {
                    return Err(RuntimeError::at(RuntimeErrorKind::TypeMismatch, pos));
                }
                match rendered {
                    None => Ok(
                        Variable { name: name.clone(), variable_type: null_value(t), nullable },
                    ),
                    Some(text) => match parse_literal(t, text.as_str()) {
                        None => Err(RuntimeError::at(RuntimeErrorKind::CastFailure, pos)),
                        Some(v) => Ok(Variable { name: name.clone(), variable_type: v, nullable }),
                    },
                }
            },
        }
    }

    /// Reassign from a static literal, re-parsed under the variable's
    /// sticky tag.
    pub fn copy(var: Variable, value: &String, pos: Position) -> (r: Result<
        Variable,
        RuntimeError,
    >)
        ensures
            match r {
                Ok(v) => var_set_static_spec(var@, value@) == Ok::<VariableS, RuntimeErrorKind>(
                    v@,
                ),
                Err(e) => var_set_static_spec(var@, value@) == Err::<VariableS, _>(e.kind)
                    && e.pos == Some(pos),
            },
    {
        let is_null = str_eq(value.as_str(), "null");
        if is_null && !var.nullable {
            return Err(RuntimeError::at(RuntimeErrorKind::NullNotAllowed, pos));
        }
        match static_tagl_exec(&var.variable_type) {
            None => Err(RuntimeError::at(RuntimeErrorKind::TypeMismatch, pos)),
            Some(t) => {
                if is_null {
                    Ok(
                        Variable {
                            name: var.name,
                            variable_type: null_value(t),
                            nullable: var.nullable,
                        },
                    )
                } else {
                    match parse_literal(t, value.as_str()) {
                        None => Err(RuntimeError::at(RuntimeErrorKind::TypeMismatch, pos)),
                        Some(v) => Ok(
                            Variable {
                                name: var.name,
                                variable_type: v,
                                nullable: var.nullable,
                            },
                        ),
                    }
                }
            },
        }
    }

    /// Reassign from a dynamically resolved value under the cast policy.
    pub fn copy_type(var: Variable, cast: bool, value: VariableType, pos: Position) -> (r: Result<
        Variable,
        RuntimeError,
    >)
        ensures
            match r {
                Ok(v) => var_set_dyn_spec(var@, cast, value@) == Ok::<
                    VariableS,
                    RuntimeErrorKind,
                >(v@),
                Err(e) => var_set_dyn_spec(var@, cast, value@) == Err::<VariableS, _>(e.kind)
                    && e.pos == Some(pos),
            },
    {
        let rendered = type_value_to_string(&value);
        let is_null = rendered.is_none();
        if is_null && !var.nullable {
            return Err(RuntimeError::at(RuntimeErrorKind::NullNotAllowed, pos));
        }
        if tag_of_value(&var.variable_type) == tag_of_value(&value) {
            return Ok(Variable { name: var.name, variable_type: value, nullable: var.nullable });
        }
        if !cast {
            return Err(RuntimeError::at(RuntimeErrorKind::TypeMismatch, pos));
        }
        match static_tagl_exec(&var.variable_type) {
            None => Err(RuntimeError::at(RuntimeErrorKind::CastFailure, pos)),
            Some(t) => match rendered {
                None => Ok(
                    Variable {
                        name: var.name,
                        variable_type: null_value(t),
                        nullable: var.nullable,
                    },
                ),
                Some(text) => match parse_literal(t, text.as_str()) {
                    None => Err(RuntimeError::at(RuntimeErrorKind::CastFailure, pos)),
                    Some(v) => Ok(
                        Variable { name: var.name, variable_type: v, nullable: var.nullable },
                    ),
                },
            },
        }
    }
}

/// The payload-free tag a declarable tag corresponds to.
fn tagl_to_k(t: TagL) -> (k: TagK)
    ensures
        k == tagl_k(t),
{
    match t {
        TagL::Int(it) => TagK::I(it),
        TagL::Chr => TagK::C,
        TagL::Str => TagK::S,
        TagL::Bool => TagK::B,
    }
}

/// The cast policy, for every source value `value`, target variable
/// `var`, and cast request: matching tags succeed and keep the target's
/// tag; differing tags without a cast are a `TypeMismatch`; differing tags
/// with a cast succeed exactly when the value's rendered text re-parses
/// under the target tag's literal grammar, and are a `CastFailure`
/// otherwise.  Null values are governed by the null policy and left out
/// here.
pub proof fn lemma_cast_policy(var: VariableS, cast: bool, value: ValS)
    requires
        render_val(value) is Some || var.nullable,
    ensures
        same_tag(var.val, value) ==> var_set_dyn_spec(var, cast, value) == Ok::<
            VariableS,
            RuntimeErrorKind,
        >(VariableS { name: var.name, val: value, nullable: var.nullable }),
        !same_tag(var.val, value) && !cast ==> var_set_dyn_spec(var, cast, value) == Err::<
            VariableS,
            _,
        >(RuntimeErrorKind::TypeMismatch),
        !same_tag(var.val, value) && cast && render_val(value) is Some ==> var_set_dyn_spec(
            var,
            cast,
            value,
        ) == (match static_tagl(var.val) {
            None => Err(RuntimeErrorKind::CastFailure),
            Some(t) => match lit_parse(t, render_val(value)->0) {
                None => Err::<VariableS, _>(RuntimeErrorKind::CastFailure),
                Some(v) => Ok(VariableS { name: var.name, val: v, nullable: var.nullable }),
            },
        }),
{
}

/// The null policy: a null assigned to a variable succeeds exactly when
/// the variable was declared nullable, whatever the cast flag says; a
/// fresh declaration accepts the literal `null` exactly when its declared
/// type carries the leading `?` marker.
pub proof fn lemma_null_policy(
    var: VariableS,
    cast: bool,
    value: ValS,
    name: Seq<char>,
    typ: Seq<char>,
)
    ensures
        render_val(value) is None && !var.nullable ==> var_set_dyn_spec(var, cast, value)
            == Err::<VariableS, _>(RuntimeErrorKind::NullNotAllowed),
        render_val(value) is None && var.nullable && same_tag(var.val, value)
            ==> var_set_dyn_spec(var, cast, value) == Ok::<VariableS, RuntimeErrorKind>(
            VariableS { name: var.name, val: value, nullable: var.nullable },
        ),
        static_tagl(var.val) matches Some(t) ==> ((render_val(value) is None && var.nullable
            && cast && !same_tag(var.val, value)) ==> var_set_dyn_spec(var, cast, value)
            == Ok::<VariableS, RuntimeErrorKind>(
            VariableS { name: var.name, val: null_of(t), nullable: var.nullable },
        )),
        !var.nullable ==> var_set_static_spec(var, "null"@) == Err::<VariableS, _>(
            RuntimeErrorKind::NullNotAllowed,
        ),
        static_tagl(var.val) matches Some(t) ==> (var.nullable ==> var_set_static_spec(
            var,
            "null"@,
        ) == Ok::<VariableS, RuntimeErrorKind>(
            VariableS { name: var.name, val: null_of(t), nullable: var.nullable },
        )),
        !(typ.len() > 0 && typ.first() == '?') ==> var_new_spec(name, typ, "null"@) == Err::<
            VariableS,
            _,
        >(RuntimeErrorKind::NullNotAllowed),
        name_tag(typ.drop_first()) matches Some(t) ==> ((typ.len() > 0 && typ.first() == '?'
            && !name_unsupported(typ.drop_first())) ==> var_new_spec(name, typ, "null"@)
            == Ok::<VariableS, RuntimeErrorKind>(
            VariableS { name, val: null_of(t), nullable: true },
        )),
{
}

} // verus!
