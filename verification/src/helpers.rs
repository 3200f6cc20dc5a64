//! Lowering of user helper functions: lane slots for locals and parameters,
//! and the `let` bindings that keep shared loop state shared.
use vstd::prelude::*;
use crate::checker::Checker;
use crate::sx::{Sx, SxArgs, SxVec};
use crate::text::{cat2, cat3, str_eq};
use crate::value::Value;

verus! {

/// The lane slot names of a helper local with `components` lanes.
pub open spec fn spec_helper_slots(name: Seq<char>, components: u8) -> Seq<Seq<char>> {
    let base = "loc__"@ + name;
    if components == 1 {
        seq![base]
    } else if components == 2 {
        seq![base + "__x"@, base + "__y"@]
    } else if components == 3 {
        seq![base + "__x"@, base + "__y"@, base + "__z"@]
    } else if components == 4 {
        seq![base + "__x"@, base + "__y"@, base + "__z"@, base + "__w"@]
    } else {
        Seq::empty()
    }
}

/// The lanes of a scalar-like or vector value.
pub open spec fn spec_value_components(v: Value) -> Option<u8> {
    match v {
        Value::Scalar(_) | Value::Distance(_) | Value::Coverage(_) | Value::Mask(_) => Some(1),
        Value::Vec2(_) => Some(2),
        Value::Vec3(_) => Some(3),
        Value::Vec4(_) => Some(4),
        _ => None,
    }
}

/// `sx` is a read of the parameter named `p`.
pub open spec fn is_param(sx: Sx, p: Seq<char>) -> bool {
    sx matches Sx::Param(q) && q@ == p
}

/// `v` reads the slots `slots` in order, one lane each.
pub open spec fn is_placeholder(v: Value, slots: Seq<Seq<char>>) -> bool {
    if slots.len() == 1 {
        v matches Value::Scalar(x) && is_param(x, slots[0])
    } else if slots.len() == 2 {
        v matches Value::Vec2((x, y)) && is_param(x, slots[0]) && is_param(y, slots[1])
    } else if slots.len() == 3 {
        v matches Value::Vec3((x, y, z)) && is_param(x, slots[0]) && is_param(y, slots[1])
            && is_param(z, slots[2])
    } else {
        v matches Value::Vec4((x, y, z, w)) && is_param(x, slots[0]) && is_param(y, slots[1])
            && is_param(z, slots[2]) && is_param(w, slots[3])
    }
}

/// `sx` mentions the variable `name` somewhere.
pub open spec fn uses_var(sx: Sx, name: Seq<char>) -> bool
    decreases sx, 0int,
{
    match sx {
        Sx::Var(v) => v@ == name,
        Sx::Unary(_, a) => uses_var(*a, name),
        Sx::Binary(_, a, b) => uses_var(*a, name) || uses_var(*b, name),
        Sx::Ternary(_, a, b, c) => uses_var(*a, name) || uses_var(*b, name) || uses_var(*c, name),
        Sx::Dot(a, b) => vec_uses_var(a, name) || vec_uses_var(b, name),
        Sx::Length(a) => vec_uses_var(a, name),
        Sx::UserCall { args, .. } => args_use_var(args, name),
        Sx::Let { value, body, .. } => uses_var(*value, name) || uses_var(*body, name),
        _ => false,
    }
}

pub open spec fn vec_uses_var(v: SxVec, name: Seq<char>) -> bool
    decreases v, 1int,
{
    match v {
        SxVec::V2(a, b) => uses_var(*a, name) || uses_var(*b, name),
        SxVec::V3(a, b, c) => uses_var(*a, name) || uses_var(*b, name) || uses_var(*c, name),
        SxVec::V4(a, b, c, d) => uses_var(*a, name) || uses_var(*b, name) || uses_var(*c, name)
            || uses_var(*d, name),
    }
}

pub open spec fn args_use_var(args: SxArgs, name: Seq<char>) -> bool
    decreases args, 1int,
{
    match args {
        SxArgs::Nil => false,
        SxArgs::Cons(a, rest) => uses_var(*a, name) || args_use_var(*rest, name),
    }
}

pub fn uses_var_exec(sx: &Sx, name: &str) -> (r: bool)
    ensures
        r == uses_var(*sx, name@),
    decreases sx, 0int,
{
    match sx {
        Sx::Var(v) => str_eq(v.as_str(), name),
        Sx::Unary(_, a) => uses_var_exec(a, name),
        Sx::Binary(_, a, b) => uses_var_exec(a, name) || uses_var_exec(b, name),
        Sx::Ternary(_, a, b, c) => uses_var_exec(a, name) || uses_var_exec(b, name) || uses_var_exec(c, name),
        Sx::Dot(a, b) => vec_uses_var_exec(a, name) || vec_uses_var_exec(b, name),
        Sx::Length(a) => vec_uses_var_exec(a, name),
        Sx::UserCall { args, .. } => args_use_var_exec(args, name),
        Sx::Let { value, body, .. } => uses_var_exec(value, name) || uses_var_exec(body, name),
        _ => false,
    }
}

pub fn vec_uses_var_exec(v: &SxVec, name: &str) -> (r: bool)
    ensures
        r == vec_uses_var(*v, name@),
    decreases v, 1int,
{
    match v {
        SxVec::V2(a, b) => uses_var_exec(a, name) || uses_var_exec(b, name),
        SxVec::V3(a, b, c) => uses_var_exec(a, name) || uses_var_exec(b, name) || uses_var_exec(c, name),
        SxVec::V4(a, b, c, d) => uses_var_exec(a, name) || uses_var_exec(b, name) || uses_var_exec(c, name)
            || uses_var_exec(d, name),
    }
}

pub fn args_use_var_exec(args: &SxArgs, name: &str) -> (r: bool)
    ensures
        r == args_use_var(*args, name@),
    decreases args, 1int,
{
    match args {
        SxArgs::Nil => false,
        SxArgs::Cons(a, rest) => uses_var_exec(a, name) || args_use_var_exec(rest, name),
    }
}

/// `sx` wrapped in the pending bindings it uses, the first binding outermost.
pub open spec fn spec_wrap_lets(sx: Sx, pending: Seq<(String, Sx)>) -> Sx
    decreases pending.len(),
{
    if pending.len() == 0 {
        sx
    } else {
        let body = spec_wrap_lets(sx, pending.drop_first());
        if uses_var(body, pending[0].0@) {
            Sx::Let { name: pending[0].0, value: Box::new(pending[0].1), body: Box::new(body) }
        } else {
            body
        }
    }
}

/// The lanes of `value` wrapped in the pending bindings they use.
pub open spec fn spec_apply_pending_lets(value: Value, pending: Seq<(String, Sx)>) -> Value {
    match value {
        Value::Scalar(sx) => Value::Scalar(spec_wrap_lets(sx, pending)),
        Value::Distance(sx) => Value::Distance(spec_wrap_lets(sx, pending)),
        Value::Coverage(sx) => Value::Coverage(spec_wrap_lets(sx, pending)),
        Value::Mask(sx) => Value::Mask(spec_wrap_lets(sx, pending)),
        Value::Vec2((x, y)) => Value::Vec2((spec_wrap_lets(x, pending), spec_wrap_lets(y, pending))),
        Value::Vec3((x, y, z)) => Value::Vec3(
            (spec_wrap_lets(x, pending), spec_wrap_lets(y, pending), spec_wrap_lets(z, pending)),
        ),
        Value::Vec4((x, y, z, w)) => Value::Vec4(
            (
                spec_wrap_lets(x, pending),
                spec_wrap_lets(y, pending),
                spec_wrap_lets(z, pending),
                spec_wrap_lets(w, pending),
            ),
        ),
        other => other,
    }
}

fn wrap_lets(sx: Sx, pending: &[(String, Sx)]) -> (r: Sx)
    ensures
        r == spec_wrap_lets(sx, pending@),
{
    let mut acc = sx;
    let mut i: usize = pending.len();
    assert(pending@.skip(i as int) =~= Seq::<(String, Sx)>::empty());
    while i > 0
        invariant
            i <= pending@.len(),
            acc == spec_wrap_lets(sx, pending@.skip(i as int)),
        decreases i,
    {
        i -= 1;
        assert(pending@.skip(i as int).drop_first() =~= pending@.skip(i + 1));
        assert(pending@.skip(i as int)[0] == pending@[i as int]);
        if uses_var_exec(&acc, pending[i].0.as_str()) {
            acc = Sx::Let {
                name: pending[i].0.clone(),
                value: Box::new(pending[i].1.clone_sx()),
                body: Box::new(acc),
            };
        }
    }
    assert(pending@.skip(0) =~= pending@);
    acc
}

impl Checker {
    /// The lane slot names of a helper local.
    pub fn helper_slots(name: &str, components: u8) -> (r: Vec<String>)
        ensures
            crate::text::string_views(r@) == spec_helper_slots(name@, components),
    {
        let base = cat2("loc__", name);
        let mut out: Vec<String> = Vec::new();
        if components == 1 {
            out.push(base);
        } else if components >= 2 && components <= 4 {
            out.push(cat2(base.as_str(), "__x"));
            out.push(cat2(base.as_str(), "__y"));
            if components >= 3 {
                out.push(cat2(base.as_str(), "__z"));
            }
            if components == 4 {
                out.push(cat2(base.as_str(), "__w"));
            }
        }
        assert(crate::text::string_views(out@) =~= spec_helper_slots(name@, components));
        out
    }

    /// The number of lanes of a scalar-like or vector value.
    pub fn helper_value_components(value: &Value) -> (r: Option<u8>)
        ensures
            r == spec_value_components(*value),
    {
        match value {
            Value::Scalar(_) | Value::Distance(_) | Value::Coverage(_) | Value::Mask(_) => Some(1),
            Value::Vec2(_) => Some(2),
            Value::Vec3(_) => Some(3),
            Value::Vec4(_) => Some(4),
            _ => None,
        }
    }

    /// The value reading the given lane slots, for one to four slots.
    pub fn helper_placeholder_value(slots: &[String]) -> (r: Option<Value>)
        ensures
            1 <= slots@.len() <= 4 <==> r is Some,
            r matches Some(v) ==> is_placeholder(v, crate::text::string_views(slots@)),
    {
        let n = slots.len();
        if n == 1 {
            Some(Value::Scalar(Sx::Param(slots[0].clone())))
        } else if n == 2 {
            Some(Value::Vec2((Sx::Param(slots[0].clone()), Sx::Param(slots[1].clone()))))
        } else if n == 3 {
            Some(
                Value::Vec3(
                    (
                        Sx::Param(slots[0].clone()),
                        Sx::Param(slots[1].clone()),
                        Sx::Param(slots[2].clone()),
                    ),
                ),
            )
        } else if n == 4 {
            Some(
                Value::Vec4(
                    (
                        Sx::Param(slots[0].clone()),
                        Sx::Param(slots[1].clone()),
                        Sx::Param(slots[2].clone()),
                        Sx::Param(slots[3].clone()),
                    ),
                ),
            )
        } else {
            None
        }
    }

    /// Wraps each lane of `value` in the pending bindings it uses.
    pub fn apply_pending_lets(value: Value, pending: &[(String, Sx)]) -> (r: Value)
        ensures
            r == spec_apply_pending_lets(value, pending@),
    {
        match value {
            Value::Scalar(sx) => Value::Scalar(wrap_lets(sx, pending)),
            Value::Distance(sx) => Value::Distance(wrap_lets(sx, pending)),
            Value::Coverage(sx) => Value::Coverage(wrap_lets(sx, pending)),
            Value::Mask(sx) => Value::Mask(wrap_lets(sx, pending)),
            Value::Vec2((x, y)) => {
                let a = wrap_lets(x, pending);
                let b = wrap_lets(y, pending);
                Value::Vec2((a, b))
            },
            Value::Vec3((x, y, z)) => {
                let a = wrap_lets(x, pending);
                let b = wrap_lets(y, pending);
                let c = wrap_lets(z, pending);
                Value::Vec3((a, b, c))
            },
            Value::Vec4((x, y, z, w)) => {
                let a = wrap_lets(x, pending);
                let b = wrap_lets(y, pending);
                let c = wrap_lets(z, pending);
                let d = wrap_lets(w, pending);
                Value::Vec4((a, b, c, d))
            },
            other => other,
        }
    }
}

} // verus!
