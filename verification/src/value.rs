//! Checker-time values: what an expression evaluates to, lane by lane.
use vstd::prelude::*;
use crate::num::Num;
use crate::sx::Sx;

verus! {

#[derive(Clone, Copy, Debug, PartialEq, Eq, Structural)]
pub enum ColorSpace {
    Srgb,
    Linear,
}

/// The semantic flavour of a scalar.
#[derive(Clone, Copy, Debug, PartialEq, Eq, Structural)]
pub enum ScalarKind {
    Plain,
    Distance,
    Coverage,
    Mask,
}

/// A value of the checked language.
#[allow(inconsistent_fields)]
#[derive(Debug, PartialEq)]
pub enum Value {
    Error,
    Scalar(Sx),
    Distance(Sx),
    Coverage(Sx),
    Mask(Sx),
    Vec2((Sx, Sx)),
    Vec3((Sx, Sx, Sx)),
    Vec4((Sx, Sx, Sx, Sx)),
    Mat2(((Sx, Sx), (Sx, Sx))),
    Mat3(((Sx, Sx, Sx), (Sx, Sx, Sx), (Sx, Sx, Sx))),
    Color { rgba: [Num; 4], space: ColorSpace },
    ColorField { rgba: [Sx; 4], space: ColorSpace },
    Array(Values),
    Struct { ty_name: String, fields: Fields },
    Shape(u32),
    Layer(u32),
}

/// The elements of an array value, in order.
#[derive(Debug, PartialEq)]
pub enum Values {
    Nil,
    Cons(Box<Value>, Box<Values>),
}

/// The named fields of a record value, in order.
#[derive(Debug, PartialEq)]
pub enum Fields {
    Nil,
    Cons(String, Box<Value>, Box<Fields>),
}

impl Values {
    pub open spec fn spec_len(self) -> nat
        decreases self,
    {
        match self {
            Values::Nil => 0,
            Values::Cons(_, rest) => 1 + rest.spec_len(),
        }
    }

    /// Whether both lists have the same length.
    pub fn same_len(&self, other: &Values) -> (r: bool)
        ensures
            r == (self.spec_len() == other.spec_len()),
        decreases self,
    {
        match (self, other) {
            (Values::Nil, Values::Nil) => true,
            (Values::Cons(_, a), Values::Cons(_, b)) => a.same_len(b),
            _ => false,
        }
    }

    pub fn clone_values(&self) -> (r: Values)
        ensures
            r == *self,
        decreases self,
    {
        match self {
            Values::Nil => Values::Nil,
            Values::Cons(v, rest) => Values::Cons(
                Box::new(v.clone_value()),
                Box::new(rest.clone_values()),
            ),
        }
    }
}

impl Fields {
    /// The value bound to `name` (by its characters); the first binding wins.
    pub open spec fn spec_get(self, name: Seq<char>) -> Option<Value>
        decreases self,
    {
        match self {
            Fields::Nil => None,
            Fields::Cons(n, v, rest) => if n@ == name {
                Some(*v)
            } else {
                rest.spec_get(name)
            },
        }
    }

    pub open spec fn spec_len(self) -> nat
        decreases self,
    {
        match self {
            Fields::Nil => 0,
            Fields::Cons(_, _, rest) => 1 + rest.spec_len(),
        }
    }

    /// The field names, in order.
    pub open spec fn spec_names(self) -> Seq<Seq<char>>
        decreases self,
    {
        match self {
            Fields::Nil => Seq::empty(),
            Fields::Cons(n, _, rest) => seq![n@] + rest.spec_names(),
        }
    }

    /// Whether both records have the same number of fields.
    pub fn same_len(&self, other: &Fields) -> (r: bool)
        ensures
            r == (self.spec_len() == other.spec_len()),
        decreases self,
    {
        match (self, other) {
            (Fields::Nil, Fields::Nil) => true,
            (Fields::Cons(_, _, a), Fields::Cons(_, _, b)) => a.same_len(b),
            _ => false,
        }
    }

    pub fn clone_fields(&self) -> (r: Fields)
        ensures
            r == *self,
        decreases self,
    {
        match self {
            Fields::Nil => Fields::Nil,
            Fields::Cons(n, v, rest) => Fields::Cons(
                n.clone(),
                Box::new(v.clone_value()),
                Box::new(rest.clone_fields()),
            ),
        }
    }

    pub fn get(&self, name: &str) -> (r: Option<&Value>)
        ensures
            r matches Some(v) ==> self.spec_get(name@) == Some(*v),
            r is None ==> self.spec_get(name@) is None,
        decreases self,
    {
        match self {
            Fields::Nil => None,
            Fields::Cons(n, v, rest) => {
                if crate::text::str_eq(n.as_str(), name) {
                    Some(&**v)
                } else {
                    rest.get(name)
                }
            },
        }
    }
}

pub fn clone_sx2(t: &(Sx, Sx)) -> (r: (Sx, Sx))
    ensures
        r == *t,
{
    (t.0.clone_sx(), t.1.clone_sx())
}

pub fn clone_sx3(t: &(Sx, Sx, Sx)) -> (r: (Sx, Sx, Sx))
    ensures
        r == *t,
{
    (t.0.clone_sx(), t.1.clone_sx(), t.2.clone_sx())
}

pub fn clone_sx4(t: &(Sx, Sx, Sx, Sx)) -> (r: (Sx, Sx, Sx, Sx))
    ensures
        r == *t,
{
    (t.0.clone_sx(), t.1.clone_sx(), t.2.clone_sx(), t.3.clone_sx())
}

pub fn clone_sx_array(a: &[Sx; 4]) -> (r: [Sx; 4])
    ensures
        r == *a,
{
    let r = [a[0].clone_sx(), a[1].clone_sx(), a[2].clone_sx(), a[3].clone_sx()];
    assert(r@ =~= a@);
    proof {
        vstd::array::axiom_array_ext_equal(r, *a);
    }
    r
}

impl Value {
    pub fn clone_value(&self) -> (r: Value)
        ensures
            r == *self,
        decreases self,
    {
        match self {
            Value::Error => Value::Error,
            Value::Scalar(s) => Value::Scalar(s.clone_sx()),
            Value::Distance(s) => Value::Distance(s.clone_sx()),
            Value::Coverage(s) => Value::Coverage(s.clone_sx()),
            Value::Mask(s) => Value::Mask(s.clone_sx()),
            Value::Vec2(v) => Value::Vec2(clone_sx2(v)),
            Value::Vec3(v) => Value::Vec3(clone_sx3(v)),
            Value::Vec4(v) => Value::Vec4(clone_sx4(v)),
            Value::Mat2(m) => Value::Mat2((clone_sx2(&m.0), clone_sx2(&m.1))),
            Value::Mat3(m) => Value::Mat3((clone_sx3(&m.0), clone_sx3(&m.1), clone_sx3(&m.2))),
            Value::Color { rgba, space } => Value::Color { rgba: *rgba, space: *space },
            Value::ColorField { rgba, space } => Value::ColorField {
                rgba: clone_sx_array(rgba),
                space: *space,
            },
            Value::Array(vs) => Value::Array(vs.clone_values()),
            Value::Struct { ty_name, fields } => Value::Struct {
                ty_name: ty_name.clone(),
                fields: fields.clone_fields(),
            },
            Value::Shape(id) => Value::Shape(*id),
            Value::Layer(id) => Value::Layer(*id),
        }
    }

    /// The name of the value's kind, as diagnostics print it.
    pub open spec fn spec_kind(self) -> Seq<char> {
        match self {
            Value::Error => "error"@,
            Value::Scalar(_) => "scalar"@,
            Value::Distance(_) => "distance"@,
            Value::Coverage(_) => "coverage"@,
            Value::Mask(_) => "mask"@,
            Value::Vec2(_) => "vec2"@,
            Value::Vec3(_) => "vec3"@,
            Value::Vec4(_) => "vec4"@,
            Value::Mat2(_) => "mat2"@,
            Value::Mat3(_) => "mat3"@,
            Value::Color { .. } => "color"@,
            Value::ColorField { .. } => "color"@,
            Value::Array(_) => "array"@,
            Value::Struct { .. } => "struct"@,
            Value::Shape(_) => "shape"@,
            Value::Layer(_) => "layer"@,
        }
    }

    pub fn kind(&self) -> (r: &'static str)
        ensures
            r@ == self.spec_kind(),
    {
        match self {
            Value::Error => "error",
            Value::Scalar(_) => "scalar",
            Value::Distance(_) => "distance",
            Value::Coverage(_) => "coverage",
            Value::Mask(_) => "mask",
            Value::Vec2(_) => "vec2",
            Value::Vec3(_) => "vec3",
            Value::Vec4(_) => "vec4",
            Value::Mat2(_) => "mat2",
            Value::Mat3(_) => "mat3",
            Value::Color { .. } => "color",
            Value::ColorField { .. } => "color",
            Value::Array(_) => "array",
            Value::Struct { .. } => "struct",
            Value::Shape(_) => "shape",
            Value::Layer(_) => "layer",
        }
    }
}

impl Clone for Value {
    fn clone(&self) -> (r: Self)
        ensures
            r == *self,
    {
        self.clone_value()
    }
}

/// The record holding `entries` in order.
pub open spec fn spec_fields_of(entries: Seq<(String, Value)>) -> Fields
    decreases entries.len(),
{
    if entries.len() == 0 {
        Fields::Nil
    } else {
        Fields::Cons(entries[0].0, Box::new(entries[0].1), Box::new(spec_fields_of(entries.drop_first())))
    }
}

/// The record holding `entries` in order.
pub fn fields_from_vec(entries: Vec<(String, Value)>) -> (r: Fields)
    ensures
        r == spec_fields_of(entries@),
{
    let ghost all = entries@;
    let mut rest = entries;
    let mut acc = Fields::Nil;
    assert(all.skip(all.len() as int) =~= Seq::<(String, Value)>::empty());
    while rest.len() > 0
        invariant
            rest@ == all.take(rest@.len() as int),
            rest@.len() <= all.len(),
            acc == spec_fields_of(all.skip(rest@.len() as int)),
        decreases rest@.len(),
    {
        let ghost k = rest@.len() - 1;
        let (name, value) = rest.pop().unwrap();
        assert(all.skip(k).drop_first() =~= all.skip(k + 1));
        assert(all.skip(k)[0] == all[k]);
        acc = Fields::Cons(name, Box::new(value), Box::new(acc));
        assert(rest@ =~= all.take(k));
    }
    assert(all.skip(0) =~= all);
    acc
}

} // verus!
