use fresco::checker::Checker;
use fresco::components::{parse_swizzle, sorted_names};
use fresco::diag::Span;
use fresco::num::Num;
use fresco::sx::Sx;
use fresco::value::{ColorSpace, Fields, Value};

fn span() -> Span {
    Span { start: 0, end: 6 }
}

fn lit(n: i64) -> Sx {
    Sx::Lit(Num::whole(n))
}

fn vec3() -> Value {
    Value::Vec3((lit(1), lit(2), lit(3)))
}

#[test]
fn swizzles_select_lanes_in_order() {
    let mut c = Checker::new();
    assert_eq!(c.select_component("v", "x", vec3(), &span()), Some(Value::Scalar(lit(1))));
    assert_eq!(c.select_component("v", "zy", vec3(), &span()), Some(Value::Vec2((lit(3), lit(2)))));
    assert_eq!(
        c.select_component("v", "bgr", vec3(), &span()),
        Some(Value::Vec3((lit(3), lit(2), lit(1))))
    );
    assert_eq!(
        c.select_component("v", "xxxx", vec3(), &span()),
        Some(Value::Vec4((lit(1), lit(1), lit(1), lit(1))))
    );
    assert!(c.diags.is_empty());
}

#[test]
fn color_alpha_is_a_coverage() {
    let mut c = Checker::new();
    let color = Value::Color { rgba: [Num::whole(1), Num::zero(), Num::zero(), Num::one()], space: ColorSpace::Srgb };
    assert_eq!(c.select_component("tint", "a", color.clone(), &span()), Some(Value::Coverage(lit(1))));
    assert_eq!(c.select_component("tint", "r", color.clone(), &span()), Some(Value::Scalar(lit(1))));
    assert_eq!(
        c.select_component("tint", "rgb", color, &span()),
        Some(Value::Vec3((lit(1), Sx::Lit(Num::zero()), Sx::Lit(Num::zero()))))
    );
    let field = Value::ColorField { rgba: [Sx::CoordX, lit(0), lit(0), Sx::CoordY], space: ColorSpace::Linear };
    assert_eq!(c.select_component("f", "w", field, &span()), Some(Value::Coverage(Sx::CoordY)));
    assert!(c.diags.is_empty());
}

#[test]
fn unknown_swizzles_are_reported_by_kind() {
    let mut c = Checker::new();
    assert_eq!(c.select_component("p", "z", Value::Vec2((lit(1), lit(2))), &span()), None);
    assert_eq!(c.diags[0].message, "unknown vec2 component `z` on `p`");
    assert_eq!(
        c.diags[0].help.as_deref(),
        Some("valid vec2 components: .x, .y (aliases: .r, .g) and swizzles like .xy/.yx/.rr")
    );
    assert_eq!(c.select_component("v", "xyzwx", vec3(), &span()), None);
    assert_eq!(c.diags[1].message, "unknown vec3 component `xyzwx` on `v`");
    assert_eq!(c.select_component("v", "", vec3(), &span()), None);
    assert_eq!(c.diags.len(), 3);
}

#[test]
fn record_fields_and_their_sorted_help() {
    let mut c = Checker::new();
    let rec = Value::Struct {
        ty_name: "Light".to_string(),
        fields: Fields::Cons(
            "intensity".to_string(),
            Box::new(Value::Scalar(lit(2))),
            Box::new(Fields::Cons("color".to_string(), Box::new(vec3()), Box::new(Fields::Nil))),
        ),
    };
    assert_eq!(c.select_component("sun", "color", rec.clone(), &span()), Some(vec3()));
    assert!(c.diags.is_empty());
    assert_eq!(c.select_component("sun", "radius", rec, &span()), None);
    assert_eq!(c.diags[0].message, "unknown field `radius` on `sun`");
    assert_eq!(c.diags[0].help.as_deref(), Some("`Light` fields: color, intensity"));
    let empty = Value::Struct { ty_name: "Unit".to_string(), fields: Fields::Nil };
    assert_eq!(c.select_component("u", "x", empty, &span()), None);
    assert_eq!(c.diags[1].help.as_deref(), Some("`Unit` fields: <none>"));
}

#[test]
fn error_values_pass_through_and_others_are_rejected() {
    let mut c = Checker::new();
    assert_eq!(c.select_component("e", "x", Value::Error, &span()), Some(Value::Error));
    assert!(c.diags.is_empty());
    assert_eq!(c.select_component("s", "x", Value::Scalar(lit(1)), &span()), None);
    assert_eq!(c.diags[0].message, "`s` is a scalar, so `s.x` is invalid");
    assert_eq!(
        c.diags[0].help.as_deref(),
        Some("component selectors are supported on colors (.r/.g/.b/.a), vec2 (.x/.y), vec3 (.x/.y/.z), and vec4 (.x/.y/.z/.w)")
    );
}

#[test]
fn swizzle_parsing_and_name_sorting() {
    assert_eq!(parse_swizzle("rgba", 4), Some(vec![0, 1, 2, 3]));
    assert_eq!(parse_swizzle("w", 3), None);
    assert_eq!(parse_swizzle("xé", 4), None);
    let names = vec!["zeta".to_string(), "alpha".to_string(), "mid".to_string(), "alpha".to_string()];
    assert_eq!(sorted_names(&names), vec!["alpha", "alpha", "mid", "zeta"]);
}
