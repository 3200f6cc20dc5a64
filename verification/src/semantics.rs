//! Laws on what checked values mean: which lane a component letter reads,
//! how many lanes a uniform field has, which kind a mixed product has, and
//! which component each lane of a material channel's symbol reads.
use vstd::prelude::*;
use crate::components::{pick, spec_select, swizzle, swizzle_index, swizzle_lanes};
use crate::fold::spec_promoted_kind;
use crate::globals::{spec_field_shape, FieldShape};
use crate::ast::BinOp;
use crate::surface::{allowed_channel_type, channel_lanes, is_channel_lane, spec_payload_value, value_matches_type};
use crate::sx::Sx;
use crate::types::{is_ws, last_match_below, ltrim, match_at, rsplit_once, rtrim, spec_strip_spatial, trim};
use crate::value::{ScalarKind, Value};

verus! {

/// The component letters, by lane.
pub open spec fn xyzw() -> Seq<char> {
    seq!['x', 'y', 'z', 'w']
}

/// The color component letters, by lane.
pub open spec fn rgba() -> Seq<char> {
    seq!['r', 'g', 'b', 'a']
}

/// A component letter reads the lane at its position in `xyzw` (or `rgba`)
/// exactly when that lane exists: `.y` and `.g` read lane 1 of any vector
/// of two or more lanes, and no letter reads a lane past the vector's size.
pub proof fn law_component_letters_read_their_lane(c: char, size: usize)
    ensures
        forall|i: int|
            0 <= i < 4 && i < size && (c == xyzw()[i] || c == rgba()[i]) ==> swizzle_index(c, size) == Some(
                i as usize,
            ),
        swizzle_index(c, size) matches Some(i) ==> i < size && i < 4 && (c == xyzw()[i as int] || c
            == rgba()[i as int]),
{
}

/// Reading one component letter of a vector gives the scalar in the lane the
/// letter names, whenever the vector has that lane.
pub proof fn law_vector_component_is_its_lane(base_name: Seq<char>, v: Value, c: char, i: int)
    requires
        v is Vec2 || v is Vec3 || v is Vec4,
        0 <= i < 4,
        c == xyzw()[i] || c == rgba()[i],
        i < (swizzle_lanes(v)->0).0.len(),
    ensures
        spec_select(base_name, seq![c], v) == Ok::<Value, (Seq<char>, Seq<char>)>(Value::Scalar((swizzle_lanes(v)->0).0[i])),
{
    let lanes = (swizzle_lanes(v)->0).0;
    law_component_letters_read_their_lane(c, lanes.len() as usize);
    assert(swizzle_index(seq![c][0], lanes.len() as usize) == Some(i as usize));
    assert(swizzle(seq![c], lanes.len() as usize) == Some(seq![i as usize])) by {
        assert(Seq::new(1, |k: int| swizzle_index(seq![c][k], lanes.len() as usize).unwrap()) =~= seq![
            i as usize,
        ]);
    }
}

/// The lane each letter of a swizzle reads, when every letter names a lane
/// of a vector of `size` lanes.
pub open spec fn letter_lanes(field: Seq<char>, size: int) -> Option<Seq<int>> {
    if forall|j: int|
        0 <= j < field.len() ==> exists|i: int|
            0 <= i < 4 && i < size && (#[trigger] field[j] == xyzw()[i] || field[j] == rgba()[i]) {
        Some(
            Seq::new(
                field.len(),
                |j: int| choose|i: int| 0 <= i < 4 && i < size && (field[j] == xyzw()[i] || field[j] == rgba()[i]),
            ),
        )
    } else {
        None
    }
}

/// A swizzle of one to four letters on a vector reads, in order, the lanes
/// its letters name: one letter gives that lane as a scalar, more letters a
/// vector of those lanes.
pub proof fn law_swizzle_reads_lanes_in_letter_order(base_name: Seq<char>, v: Value, field: Seq<char>)
    requires
        v is Vec2 || v is Vec3 || v is Vec4,
        1 <= field.len() <= 4,
        letter_lanes(field, (swizzle_lanes(v)->0).0.len() as int) is Some,
    ensures
        spec_select(base_name, field, v) matches Ok(r) && value_lanes(r) == Seq::new(
            field.len(),
            |j: int| (swizzle_lanes(v)->0).0[letter_lanes(field, (swizzle_lanes(v)->0).0.len() as int)->0[j]],
        ) && (field.len() == 1 ==> r is Scalar),
{
    let lanes = (swizzle_lanes(v)->0).0;
    let size = lanes.len() as int;
    let ls = letter_lanes(field, size)->0;
    assert forall|j: int| 0 <= j < field.len() implies #[trigger] swizzle_index(field[j], size as usize) == Some(
        ls[j] as usize,
    ) by {
        let i = ls[j];
        assert(0 <= i < 4 && i < size && (field[j] == xyzw()[i] || field[j] == rgba()[i]));
        law_component_letters_read_their_lane(field[j], size as usize);
    }
    let ixs = Seq::new(field.len(), |j: int| swizzle_index(field[j], size as usize).unwrap());
    assert(swizzle(field, size as usize) == Some(ixs));
    let r = pick(lanes, ixs, false);
    assert(value_lanes(r) =~= Seq::new(field.len(), |j: int| lanes[ls[j]]));
}

/// The type names of channels and uniform fields are pairwise distinct.
pub proof fn lemma_type_words_distinct()
    ensures
        "f32"@ != "f64"@,
        "f32"@ != "half"@,
        "f32"@ != "i32"@,
        "f32"@ != "u32"@,
        "f32"@ != "bool"@,
        "f32"@ != "angle"@,
        "f32"@ != "length"@,
        "f32"@ != "signal"@,
        "f32"@ != "delta"@,
        "f32"@ != "vec2"@,
        "f32"@ != "vec3"@,
        "f32"@ != "vec4"@,
        "f32"@ != "color"@,
        "f64"@ != "half"@,
        "f64"@ != "i32"@,
        "f64"@ != "u32"@,
        "f64"@ != "bool"@,
        "f64"@ != "angle"@,
        "f64"@ != "length"@,
        "f64"@ != "signal"@,
        "f64"@ != "delta"@,
        "f64"@ != "vec2"@,
        "f64"@ != "vec3"@,
        "f64"@ != "vec4"@,
        "f64"@ != "color"@,
        "half"@ != "i32"@,
        "half"@ != "u32"@,
        "half"@ != "bool"@,
        "half"@ != "angle"@,
        "half"@ != "length"@,
        "half"@ != "signal"@,
        "half"@ != "delta"@,
        "half"@ != "vec2"@,
        "half"@ != "vec3"@,
        "half"@ != "vec4"@,
        "half"@ != "color"@,
        "i32"@ != "u32"@,
        "i32"@ != "bool"@,
        "i32"@ != "angle"@,
        "i32"@ != "length"@,
        "i32"@ != "signal"@,
        "i32"@ != "delta"@,
        "i32"@ != "vec2"@,
        "i32"@ != "vec3"@,
        "i32"@ != "vec4"@,
        "i32"@ != "color"@,
        "u32"@ != "bool"@,
        "u32"@ != "angle"@,
        "u32"@ != "length"@,
        "u32"@ != "signal"@,
        "u32"@ != "delta"@,
        "u32"@ != "vec2"@,
        "u32"@ != "vec3"@,
        "u32"@ != "vec4"@,
        "u32"@ != "color"@,
        "bool"@ != "angle"@,
        "bool"@ != "length"@,
        "bool"@ != "signal"@,
        "bool"@ != "delta"@,
        "bool"@ != "vec2"@,
        "bool"@ != "vec3"@,
        "bool"@ != "vec4"@,
        "bool"@ != "color"@,
        "angle"@ != "length"@,
        "angle"@ != "signal"@,
        "angle"@ != "delta"@,
        "angle"@ != "vec2"@,
        "angle"@ != "vec3"@,
        "angle"@ != "vec4"@,
        "angle"@ != "color"@,
        "length"@ != "signal"@,
        "length"@ != "delta"@,
        "length"@ != "vec2"@,
        "length"@ != "vec3"@,
        "length"@ != "vec4"@,
        "length"@ != "color"@,
        "signal"@ != "delta"@,
        "signal"@ != "vec2"@,
        "signal"@ != "vec3"@,
        "signal"@ != "vec4"@,
        "signal"@ != "color"@,
        "delta"@ != "vec2"@,
        "delta"@ != "vec3"@,
        "delta"@ != "vec4"@,
        "delta"@ != "color"@,
        "vec2"@ != "vec3"@,
        "vec2"@ != "vec4"@,
        "vec2"@ != "color"@,
        "vec3"@ != "vec4"@,
        "vec3"@ != "color"@,
        "vec4"@ != "color"@,
{
    reveal_strlit("f32");
    reveal_strlit("f64");
    reveal_strlit("half");
    reveal_strlit("i32");
    reveal_strlit("u32");
    reveal_strlit("bool");
    reveal_strlit("angle");
    reveal_strlit("length");
    reveal_strlit("signal");
    reveal_strlit("delta");
    reveal_strlit("vec2");
    reveal_strlit("vec3");
    reveal_strlit("vec4");
    reveal_strlit("color");
    assert("f32"@[1] != "f64"@[1]);
    assert("f32"@.len() != "half"@.len());
    assert("f32"@[0] != "i32"@[0]);
    assert("f32"@[0] != "u32"@[0]);
    assert("f32"@.len() != "bool"@.len());
    assert("f32"@.len() != "angle"@.len());
    assert("f32"@.len() != "length"@.len());
    assert("f32"@.len() != "signal"@.len());
    assert("f32"@.len() != "delta"@.len());
    assert("f32"@.len() != "vec2"@.len());
    assert("f32"@.len() != "vec3"@.len());
    assert("f32"@.len() != "vec4"@.len());
    assert("f32"@.len() != "color"@.len());
    assert("f64"@.len() != "half"@.len());
    assert("f64"@[0] != "i32"@[0]);
    assert("f64"@[0] != "u32"@[0]);
    assert("f64"@.len() != "bool"@.len());
    assert("f64"@.len() != "angle"@.len());
    assert("f64"@.len() != "length"@.len());
    assert("f64"@.len() != "signal"@.len());
    assert("f64"@.len() != "delta"@.len());
    assert("f64"@.len() != "vec2"@.len());
    assert("f64"@.len() != "vec3"@.len());
    assert("f64"@.len() != "vec4"@.len());
    assert("f64"@.len() != "color"@.len());
    assert("half"@.len() != "i32"@.len());
    assert("half"@.len() != "u32"@.len());
    assert("half"@[0] != "bool"@[0]);
    assert("half"@.len() != "angle"@.len());
    assert("half"@.len() != "length"@.len());
    assert("half"@.len() != "signal"@.len());
    assert("half"@.len() != "delta"@.len());
    assert("half"@[0] != "vec2"@[0]);
    assert("half"@[0] != "vec3"@[0]);
    assert("half"@[0] != "vec4"@[0]);
    assert("half"@.len() != "color"@.len());
    assert("i32"@[0] != "u32"@[0]);
    assert("i32"@.len() != "bool"@.len());
    assert("i32"@.len() != "angle"@.len());
    assert("i32"@.len() != "length"@.len());
    assert("i32"@.len() != "signal"@.len());
    assert("i32"@.len() != "delta"@.len());
    assert("i32"@.len() != "vec2"@.len());
    assert("i32"@.len() != "vec3"@.len());
    assert("i32"@.len() != "vec4"@.len());
    assert("i32"@.len() != "color"@.len());
    assert("u32"@.len() != "bool"@.len());
    assert("u32"@.len() != "angle"@.len());
    assert("u32"@.len() != "length"@.len());
    assert("u32"@.len() != "signal"@.len());
    assert("u32"@.len() != "delta"@.len());
    assert("u32"@.len() != "vec2"@.len());
    assert("u32"@.len() != "vec3"@.len());
    assert("u32"@.len() != "vec4"@.len());
    assert("u32"@.len() != "color"@.len());
    assert("bool"@.len() != "angle"@.len());
    assert("bool"@.len() != "length"@.len());
    assert("bool"@.len() != "signal"@.len());
    assert("bool"@.len() != "delta"@.len());
    assert("bool"@[0] != "vec2"@[0]);
    assert("bool"@[0] != "vec3"@[0]);
    assert("bool"@[0] != "vec4"@[0]);
    assert("bool"@.len() != "color"@.len());
    assert("angle"@.len() != "length"@.len());
    assert("angle"@.len() != "signal"@.len());
    assert("angle"@[0] != "delta"@[0]);
    assert("angle"@.len() != "vec2"@.len());
    assert("angle"@.len() != "vec3"@.len());
    assert("angle"@.len() != "vec4"@.len());
    assert("angle"@[0] != "color"@[0]);
    assert("length"@[0] != "signal"@[0]);
    assert("length"@.len() != "delta"@.len());
    assert("length"@.len() != "vec2"@.len());
    assert("length"@.len() != "vec3"@.len());
    assert("length"@.len() != "vec4"@.len());
    assert("length"@.len() != "color"@.len());
    assert("signal"@.len() != "delta"@.len());
    assert("signal"@.len() != "vec2"@.len());
    assert("signal"@.len() != "vec3"@.len());
    assert("signal"@.len() != "vec4"@.len());
    assert("signal"@.len() != "color"@.len());
    assert("delta"@.len() != "vec2"@.len());
    assert("delta"@.len() != "vec3"@.len());
    assert("delta"@.len() != "vec4"@.len());
    assert("delta"@[0] != "color"@[0]);
    assert("vec2"@[3] != "vec3"@[3]);
    assert("vec2"@[3] != "vec4"@[3]);
    assert("vec2"@.len() != "color"@.len());
    assert("vec3"@[3] != "vec4"@[3]);
    assert("vec3"@.len() != "color"@.len());
    assert("vec4"@.len() != "color"@.len());
}

/// No match of a pattern that starts with white space in a text without any.
proof fn lemma_no_match(s: Seq<char>, p: Seq<char>, k: int)
    requires
        p.len() > 0,
        is_ws(p[0]),
        forall|i: int| 0 <= i < s.len() ==> !is_ws(#[trigger] s[i]),
    ensures
        last_match_below(s, p, k) is None,
    decreases k,
{
    if k > 0 {
        if match_at(s, p, k - 1) {
            assert(s.subrange(k - 1, k - 1 + p.len())[0] == s[k - 1]);
        }
        lemma_no_match(s, p, k - 1);
    }
}

/// A type name without white space is its own base type.
pub proof fn lemma_plain_type_name(s: Seq<char>)
    requires
        forall|i: int| 0 <= i < s.len() ==> !is_ws(#[trigger] s[i]),
    ensures
        spec_strip_spatial(s) == s,
{
    assert(ltrim(s) == s);
    assert(rtrim(s) == s);
    reveal_strlit(" in ");
    reveal_strlit(" from ");
    lemma_no_match(s, " in "@, (s.len() + 1) as int);
    lemma_no_match(s, " from "@, (s.len() + 1) as int);
    assert(rsplit_once(trim(s), " in "@) is None);
    assert(rsplit_once(trim(s), " from "@) is None);
}

/// The scalar type names a uniform field may have.
pub open spec fn uniform_scalar_names() -> Seq<Seq<char>> {
    seq!["f32"@, "f64"@, "half"@, "i32"@, "u32"@, "bool"@, "signal"@, "delta"@, "angle"@, "length"@]
}

/// Every scalar type a uniform field may have is one scalar lane, and each
/// vector type as many lanes as its width.
pub proof fn law_uniform_field_lanes(t: Seq<char>)
    ensures
        uniform_scalar_names().contains(t) ==> spec_field_shape(t) == Some(FieldShape::Scalar),
        t == "vec2"@ ==> spec_field_shape(t) == Some(FieldShape::Vec2),
        t == "vec3"@ ==> spec_field_shape(t) == Some(FieldShape::Vec3),
        t == "vec4"@ ==> spec_field_shape(t) == Some(FieldShape::Vec4),
{
    lemma_type_words_distinct();
    assert(spec_strip_spatial("f32"@) == "f32"@) by {
        reveal_strlit("f32");
        assert forall|i: int| 0 <= i < "f32"@.len() implies !is_ws(#[trigger] "f32"@[i]) by {
            assert("f32"@[i] as u32 >= 0x30);
        }
        lemma_plain_type_name("f32"@);
    }
    assert(spec_strip_spatial("f64"@) == "f64"@) by {
        reveal_strlit("f64");
        assert forall|i: int| 0 <= i < "f64"@.len() implies !is_ws(#[trigger] "f64"@[i]) by {
            assert("f64"@[i] as u32 >= 0x30);
        }
        lemma_plain_type_name("f64"@);
    }
    assert(spec_strip_spatial("half"@) == "half"@) by {
        reveal_strlit("half");
        assert forall|i: int| 0 <= i < "half"@.len() implies !is_ws(#[trigger] "half"@[i]) by {
            assert("half"@[i] as u32 >= 0x30);
        }
        lemma_plain_type_name("half"@);
    }
    assert(spec_strip_spatial("i32"@) == "i32"@) by {
        reveal_strlit("i32");
        assert forall|i: int| 0 <= i < "i32"@.len() implies !is_ws(#[trigger] "i32"@[i]) by {
            assert("i32"@[i] as u32 >= 0x30);
        }
        lemma_plain_type_name("i32"@);
    }
    assert(spec_strip_spatial("u32"@) == "u32"@) by {
        reveal_strlit("u32");
        assert forall|i: int| 0 <= i < "u32"@.len() implies !is_ws(#[trigger] "u32"@[i]) by {
            assert("u32"@[i] as u32 >= 0x30);
        }
        lemma_plain_type_name("u32"@);
    }
    assert(spec_strip_spatial("bool"@) == "bool"@) by {
        reveal_strlit("bool");
        assert forall|i: int| 0 <= i < "bool"@.len() implies !is_ws(#[trigger] "bool"@[i]) by {
            assert("bool"@[i] as u32 >= 0x30);
        }
        lemma_plain_type_name("bool"@);
    }
    assert(spec_strip_spatial("signal"@) == "signal"@) by {
        reveal_strlit("signal");
        assert forall|i: int| 0 <= i < "signal"@.len() implies !is_ws(#[trigger] "signal"@[i]) by {
            assert("signal"@[i] as u32 >= 0x30);
        }
        lemma_plain_type_name("signal"@);
    }
    assert(spec_strip_spatial("delta"@) == "delta"@) by {
        reveal_strlit("delta");
        assert forall|i: int| 0 <= i < "delta"@.len() implies !is_ws(#[trigger] "delta"@[i]) by {
            assert("delta"@[i] as u32 >= 0x30);
        }
        lemma_plain_type_name("delta"@);
    }
    assert(spec_strip_spatial("angle"@) == "angle"@) by {
        reveal_strlit("angle");
        assert forall|i: int| 0 <= i < "angle"@.len() implies !is_ws(#[trigger] "angle"@[i]) by {
            assert("angle"@[i] as u32 >= 0x30);
        }
        lemma_plain_type_name("angle"@);
    }
    assert(spec_strip_spatial("length"@) == "length"@) by {
        reveal_strlit("length");
        assert forall|i: int| 0 <= i < "length"@.len() implies !is_ws(#[trigger] "length"@[i]) by {
            assert("length"@[i] as u32 >= 0x30);
        }
        lemma_plain_type_name("length"@);
    }
    assert(spec_strip_spatial("vec2"@) == "vec2"@) by {
        reveal_strlit("vec2");
        assert forall|i: int| 0 <= i < "vec2"@.len() implies !is_ws(#[trigger] "vec2"@[i]) by {
            assert("vec2"@[i] as u32 >= 0x30);
        }
        lemma_plain_type_name("vec2"@);
    }
    assert(spec_strip_spatial("vec3"@) == "vec3"@) by {
        reveal_strlit("vec3");
        assert forall|i: int| 0 <= i < "vec3"@.len() implies !is_ws(#[trigger] "vec3"@[i]) by {
            assert("vec3"@[i] as u32 >= 0x30);
        }
        lemma_plain_type_name("vec3"@);
    }
    assert(spec_strip_spatial("vec4"@) == "vec4"@) by {
        reveal_strlit("vec4");
        assert forall|i: int| 0 <= i < "vec4"@.len() implies !is_ws(#[trigger] "vec4"@[i]) by {
            assert("vec4"@[i] as u32 >= 0x30);
        }
        lemma_plain_type_name("vec4"@);
    }
    reveal_strlit("uvec2");
    reveal_strlit("coord");
    reveal_strlit("coord_like");
    reveal_strlit("resolution");
    reveal_strlit("vec3");
    reveal_strlit("vec4");
    assert("vec3"@.len() != "uvec2"@.len() && "vec3"@.len() != "coord"@.len() && "vec3"@.len()
        != "coord_like"@.len() && "vec3"@.len() != "resolution"@.len());
    assert("vec4"@.len() != "uvec2"@.len() && "vec4"@.len() != "coord"@.len() && "vec4"@.len()
        != "coord_like"@.len() && "vec4"@.len() != "resolution"@.len());
    if uniform_scalar_names().contains(t) {
        let k = choose|k: int| 0 <= k < uniform_scalar_names().len() && uniform_scalar_names()[k] == t;
        assert(uniform_scalar_names()[k] == t);
    }
}

/// How strongly a kind of scalar constrains its use: a plain number least,
/// then a mask, a coverage, and a distance most.
pub open spec fn kind_rank(k: ScalarKind) -> int {
    match k {
        ScalarKind::Plain => 0,
        ScalarKind::Mask => 1,
        ScalarKind::Coverage => 2,
        ScalarKind::Distance => 3,
    }
}

/// A product or quotient of two scalars has the stronger of their kinds (a
/// coverage scaled by a mask stays a coverage); any other operator accepts
/// two kinds only when they agree or one is a plain number, and then gives
/// the other.
pub proof fn law_kind_promotion_keeps_the_stronger_kind(op: BinOp, a: ScalarKind, b: ScalarKind)
    ensures
        (op is Mul || op is Div) ==> spec_promoted_kind(op, a, b) == Some(
            if kind_rank(a) >= kind_rank(b) {
                a
            } else {
                b
            },
        ),
        !(op is Mul || op is Div) ==> (spec_promoted_kind(op, a, b) is Some <==> (a == b || a is Plain
            || b is Plain)),
        spec_promoted_kind(op, a, b) matches Some(k) ==> (k == a || k == b) && kind_rank(k) >= kind_rank(a)
            && kind_rank(k) >= kind_rank(b),
{
}

/// The lanes of a value, in order.
pub open spec fn value_lanes(v: Value) -> Seq<Sx> {
    match v {
        Value::Scalar(a) => seq![a],
        Value::Vec2((a, b)) => seq![a, b],
        Value::Vec3((a, b, c)) => seq![a, b, c],
        Value::Vec4((a, b, c, d)) => seq![a, b, c, d],
        Value::ColorField { rgba, .. } => rgba@,
        _ => Seq::empty(),
    }
}

/// How many lanes a channel type has.
pub open spec fn channel_width(base: Seq<char>) -> int {
    if base == "vec2"@ {
        2
    } else if base == "vec3"@ {
        3
    } else if base == "vec4"@ || base == "color"@ {
        4
    } else {
        1
    }
}

/// The symbol of a channel named `n` reads the channel's own components in
/// order: lane `i` is `n.x`, `n.y`, `n.z`, `n.w` for `i` = 0..3, it has as
/// many lanes as the type, and it is a value of the type.
pub proof fn law_channel_symbol_reads_components_in_order(name: Seq<char>, ty: Seq<char>, lanes: [Sx; 4])
    requires
        channel_lanes(lanes, name),
        allowed_channel_type(spec_strip_spatial(ty)),
    ensures
        value_lanes(spec_payload_value(ty, lanes)).len() == channel_width(spec_strip_spatial(ty)),
        forall|i: int|
            0 <= i < value_lanes(spec_payload_value(ty, lanes)).len() ==> is_channel_lane(
                #[trigger] value_lanes(spec_payload_value(ty, lanes))[i],
                name,
                xyzw()[i],
            ),
        value_matches_type(spec_payload_value(ty, lanes), ty),
        spec_strip_spatial(ty) == "color"@ ==> (spec_payload_value(ty, lanes) matches Value::ColorField {
            space,
            ..
        } && space == crate::value::ColorSpace::Srgb),
{
    lemma_type_words_distinct();
    let v = spec_payload_value(ty, lanes);
    assert forall|i: int| 0 <= i < value_lanes(v).len() implies is_channel_lane(
        #[trigger] value_lanes(v)[i],
        name,
        xyzw()[i],
    ) by {
        assert(value_lanes(v)[i] == lanes[i]);
    }
}

} // verus!
