//! Member access on values: record fields and vector and color swizzles.
use vstd::prelude::*;
use crate::checker::Checker;
use crate::diag::{is_error_diag, pushed_one, Diag, Span};
use crate::enums::{decl_order, order_by_key, pair_keys, spec_names};
use crate::num::Num;
use crate::sx::Sx;
use crate::text::{cat2, cat3, cat5, chars_of, join, spec_join, string_views};
use crate::value::{Fields, Value};

verus! {

/// The lane a swizzle letter selects in a vector of `size` lanes.
pub open spec fn swizzle_index(c: char, size: usize) -> Option<usize> {
    if (c == 'x' || c == 'r') && size >= 1 {
        Some(0)
    } else if (c == 'y' || c == 'g') && size >= 2 {
        Some(1)
    } else if (c == 'z' || c == 'b') && size >= 3 {
        Some(2)
    } else if (c == 'w' || c == 'a') && size >= 4 {
        Some(3)
    } else {
        None
    }
}

/// The lanes a swizzle of one to four letters selects, if every letter names one.
pub open spec fn swizzle(field: Seq<char>, size: usize) -> Option<Seq<usize>> {
    if field.len() == 0 || field.len() > 4 || exists|i: int| 0 <= i < field.len()
        && #[trigger] swizzle_index(field[i], size) is None {
        None
    } else {
        Some(Seq::new(field.len(), |i: int| swizzle_index(field[i], size).unwrap()))
    }
}

/// The value a swizzle builds from `lanes`: one lane is a scalar (the alpha
/// lane of a color is a coverage), more lanes a vector.
pub open spec fn pick(lanes: Seq<Sx>, ixs: Seq<usize>, color: bool) -> Value {
    if ixs.len() == 1 {
        if color && ixs[0] == 3 {
            Value::Coverage(lanes[ixs[0] as int])
        } else {
            Value::Scalar(lanes[ixs[0] as int])
        }
    } else if ixs.len() == 2 {
        Value::Vec2((lanes[ixs[0] as int], lanes[ixs[1] as int]))
    } else if ixs.len() == 3 {
        Value::Vec3((lanes[ixs[0] as int], lanes[ixs[1] as int], lanes[ixs[2] as int]))
    } else {
        Value::Vec4((lanes[ixs[0] as int], lanes[ixs[1] as int], lanes[ixs[2] as int], lanes[ixs[3] as int]))
    }
}

/// Names in order of their characters, equal names in their given order.
pub open spec fn name_order(names: Seq<Seq<char>>) -> Seq<Seq<char>> {
    decl_order(Seq::new(names.len(), |i: int| (names[i], 0usize)))
}

/// The help listing a record's fields.
pub open spec fn fields_help(ty_name: Seq<char>, names: Seq<Seq<char>>) -> Seq<char> {
    "`"@ + ty_name + "` fields: "@ + if names.len() == 0 {
        "<none>"@
    } else {
        spec_join(name_order(names), ", "@)
    }
}

/// The lanes of a vector or color value and whether it is a color.
pub open spec fn swizzle_lanes(v: Value) -> Option<(Seq<Sx>, bool)> {
    match v {
        Value::Color { rgba, .. } => Some((seq![Sx::Lit(rgba[0]), Sx::Lit(rgba[1]), Sx::Lit(rgba[2]), Sx::Lit(rgba[3])], true)),
        Value::ColorField { rgba, .. } => Some((rgba@, true)),
        Value::Vec2((x, y)) => Some((seq![x, y], false)),
        Value::Vec3((x, y, z)) => Some((seq![x, y, z], false)),
        Value::Vec4((x, y, z, w)) => Some((seq![x, y, z, w], false)),
        _ => None,
    }
}

/// The kind word and help of the error for a swizzle a value does not have.
pub open spec fn swizzle_error(v: Value) -> (Seq<char>, Seq<char>) {
    match v {
        Value::Vec2(_) => (
            "unknown vec2"@,
            "valid vec2 components: .x, .y (aliases: .r, .g) and swizzles like .xy/.yx/.rr"@,
        ),
        Value::Vec3(_) => (
            "unknown vec3"@,
            "valid vec3 components: .x, .y, .z (aliases: .r, .g, .b) and swizzles like .xyz/.yzx/.bgr"@,
        ),
        Value::Vec4(_) => (
            "unknown vec4"@,
            "valid vec4 components: .x, .y, .z, .w (aliases: .r, .g, .b, .a) and swizzles like .xyz/.rgba/.bgr"@,
        ),
        _ => (
            "unknown color"@,
            "valid color components: .r, .g, .b, .a and swizzles like .rgb/.bgr/.rgba"@,
        ),
    }
}

/// What `base_name.field` gives on `base`: a value, or the error message and help.
pub open spec fn spec_select(base_name: Seq<char>, field: Seq<char>, base: Value) -> Result<Value, (Seq<char>, Seq<char>)> {
    match base {
        Value::Error => Ok(Value::Error),
        Value::Struct { ty_name, fields } => match fields.spec_get(field) {
            Some(v) => Ok(v),
            None => Err((
                "unknown field `"@ + field + "` on `"@ + base_name + "`"@,
                fields_help(ty_name@, fields.spec_names()),
            )),
        },
        _ => match swizzle_lanes(base) {
            Some((lanes, color)) => match swizzle(field, lanes.len() as usize) {
                Some(ixs) => Ok(pick(lanes, ixs, color)),
                None => Err((
                    swizzle_error(base).0 + " component `"@ + field + "` on `"@ + base_name + "`"@,
                    swizzle_error(base).1,
                )),
            },
            None => Err((
                "`"@ + base_name + "` is a "@ + base.spec_kind() + ", so `"@ + base_name + "."@ + field
                    + "` is invalid"@,
                "component selectors are supported on colors (.r/.g/.b/.a), vec2 (.x/.y), vec3 (.x/.y/.z), and vec4 (.x/.y/.z/.w)"@,
            )),
        },
    }
}

fn swizzle_index_exec(c: char, size: usize) -> (r: Option<usize>)
    ensures
        r == swizzle_index(c, size),
{
    if (c == 'x' || c == 'r') && size >= 1 {
        Some(0)
    } else if (c == 'y' || c == 'g') && size >= 2 {
        Some(1)
    } else if (c == 'z' || c == 'b') && size >= 3 {
        Some(2)
    } else if (c == 'w' || c == 'a') && size >= 4 {
        Some(3)
    } else {
        None
    }
}

/// The lanes a swizzle selects, if it is one.
pub fn parse_swizzle(field: &str, size: usize) -> (r: Option<Vec<usize>>)
    ensures
        match r {
            Some(v) => swizzle(field@, size) == Some(v@),
            None => swizzle(field@, size) is None,
        },
{
    let cs = chars_of(field);
    if cs.len() == 0 || cs.len() > 4 {
        return None;
    }
    let mut out: Vec<usize> = Vec::new();
    let mut i: usize = 0;
    while i < cs.len()
        invariant
            cs@ == field@,
            i <= cs@.len(),
            out@.len() == i,
            forall|j: int| 0 <= j < i ==> #[trigger] swizzle_index(cs@[j], size) == Some(out@[j]),
        decreases cs@.len() - i,
    {
        match swizzle_index_exec(cs[i], size) {
            Some(ix) => out.push(ix),
            None => return None,
        }
        i += 1;
    }
    assert(out@ =~= Seq::new(field@.len(), |k: int| swizzle_index(field@[k], size).unwrap()));
    Some(out)
}

fn pick_exec(lanes: &Vec<Sx>, ixs: &Vec<usize>, color: bool) -> (r: Value)
    requires
        1 <= ixs@.len() <= 4,
        forall|j: int| 0 <= j < ixs@.len() ==> #[trigger] ixs@[j] < lanes@.len(),
    ensures
        r == pick(lanes@, ixs@, color),
{
    if ixs.len() == 1 {
        let l = lanes[ixs[0]].clone_sx();
        if color && ixs[0] == 3 {
            Value::Coverage(l)
        } else {
            Value::Scalar(l)
        }
    } else if ixs.len() == 2 {
        Value::Vec2((lanes[ixs[0]].clone_sx(), lanes[ixs[1]].clone_sx()))
    } else if ixs.len() == 3 {
        Value::Vec3((lanes[ixs[0]].clone_sx(), lanes[ixs[1]].clone_sx(), lanes[ixs[2]].clone_sx()))
    } else {
        Value::Vec4((
            lanes[ixs[0]].clone_sx(),
            lanes[ixs[1]].clone_sx(),
            lanes[ixs[2]].clone_sx(),
            lanes[ixs[3]].clone_sx(),
        ))
    }
}

fn field_names(fields: &Fields) -> (r: Vec<String>)
    ensures
        spec_names(r@) == fields.spec_names(),
    decreases fields,
{
    match fields {
        Fields::Nil => Vec::new(),
        Fields::Cons(n, _, rest) => {
            let mut tail = field_names(rest);
            let ghost t = tail@;
            tail.insert(0, n.clone());
            assert(spec_names(tail@) =~= seq![n@] + spec_names(t));
            tail
        },
    }
}

/// The names in order of their characters.
pub fn sorted_names(names: &Vec<String>) -> (r: Vec<String>)
    ensures
        spec_names(r@) == name_order(spec_names(names@)),
{
    let mut keyed: Vec<(String, usize)> = Vec::new();
    let mut i: usize = 0;
    while i < names.len()
        invariant
            i <= names@.len(),
            keyed@.len() == i,
            forall|k: int| 0 <= k < i ==> #[trigger] keyed@[k].0@ == names@[k]@ && keyed@[k].1 == 0,
        decreases names@.len() - i,
    {
        keyed.push((names[i].clone(), 0));
        i += 1;
    }
    assert(pair_keys(keyed@) =~= Seq::new(spec_names(names@).len(), |k: int| (spec_names(names@)[k], 0usize)));
    order_by_key(keyed)
}

impl Checker {
    /// `base_name.field` on `base`: a record's field, a vector's or color's
    /// swizzle; otherwise an error naming what the value offers.
    pub fn select_component(&mut self, base_name: &str, field: &str, base: Value, span: &Span) -> (r: Option<Value>)
        ensures
            match spec_select(base_name@, field@, base) {
                Ok(v) => r == Some(v) && final(self).diags@ == old(self).diags@,
                Err((message, help)) => r is None && pushed_one(old(self).diags@, final(self).diags@)
                    && is_error_diag(final(self).diags@.last(), *span, message, None, Some(help)),
            },
            old(self).same_but_diags(*final(self)),
    {
        let (lanes, color): (Vec<Sx>, bool) = match base {
            Value::Error => return Some(Value::Error),
            Value::Struct { ty_name, fields } => {
                match fields.get(field) {
                    Some(v) => return Some(v.clone_value()),
                    None => {},
                }
                let names = field_names(&fields);
                let listed = if names.len() == 0 {
                    String::from_str("<none>")
                } else {
                    let sorted = sorted_names(&names);
                    assert(string_views(sorted@) =~= spec_names(sorted@));
                    join(&sorted, ", ")
                };
                let head = cat3("`", ty_name.as_str(), "` fields: ");
                let help = cat2(head.as_str(), listed.as_str());
                let message = cat5("unknown field `", field, "` on `", base_name, "`");
                self.diags.push(Diag::error(*span, message).with_help(help));
                return None;
            },
            Value::Color { rgba, .. } => (
                vec![Sx::Lit(rgba[0]), Sx::Lit(rgba[1]), Sx::Lit(rgba[2]), Sx::Lit(rgba[3])],
                true,
            ),
            Value::ColorField { rgba, .. } => {
                let lanes = vec![rgba[0].clone_sx(), rgba[1].clone_sx(), rgba[2].clone_sx(), rgba[3].clone_sx()];
                assert(lanes@ =~= rgba@);
                (lanes, true)
            },
            Value::Vec2((x, y)) => (vec![x, y], false),
            Value::Vec3((x, y, z)) => (vec![x, y, z], false),
            Value::Vec4((x, y, z, w)) => (vec![x, y, z, w], false),
            other => {
                let head = cat5("`", base_name, "` is a ", other.kind(), ", so `");
                let message = cat5(head.as_str(), base_name, ".", field, "` is invalid");
                let d = Diag::error(*span, message).with_help(String::from_str(
                    "component selectors are supported on colors (.r/.g/.b/.a), vec2 (.x/.y), vec3 (.x/.y/.z), and vec4 (.x/.y/.z/.w)",
                ));
                self.diags.push(d);
                return None;
            },
        };
        match parse_swizzle(field, lanes.len()) {
            Some(ixs) => {
                assert forall|j: int| 0 <= j < ixs@.len() implies #[trigger] ixs@[j] < lanes@.len() by {
                    assert(swizzle_index(field@[j], lanes@.len() as usize) == Some(ixs@[j]));
                }
                Some(pick_exec(&lanes, &ixs, color))
            },
            None => {
                let kind = if color {
                    "unknown color"
                } else if lanes.len() == 2 {
                    "unknown vec2"
                } else if lanes.len() == 3 {
                    "unknown vec3"
                } else {
                    "unknown vec4"
                };
                let help = if color {
                    "valid color components: .r, .g, .b, .a and swizzles like .rgb/.bgr/.rgba"
                } else if lanes.len() == 2 {
                    "valid vec2 components: .x, .y (aliases: .r, .g) and swizzles like .xy/.yx/.rr"
                } else if lanes.len() == 3 {
                    "valid vec3 components: .x, .y, .z (aliases: .r, .g, .b) and swizzles like .xyz/.yzx/.bgr"
                } else {
                    "valid vec4 components: .x, .y, .z, .w (aliases: .r, .g, .b, .a) and swizzles like .xyz/.rgba/.bgr"
                };
                let head = cat5(kind, " component `", field, "` on `", base_name);
                let message = cat2(head.as_str(), "`");
                self.diags.push(Diag::error(*span, message).with_help(String::from_str(help)));
                None
            },
        }
    }
}

} // verus!
