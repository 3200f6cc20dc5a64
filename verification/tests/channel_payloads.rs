use fresco::checker::Checker;
use fresco::diag::Span;
use fresco::num::Num;
use fresco::payloads::{
    material_value, validate_surface_vertex_expr, value_to_channel_vec4_payload, value_to_scalar_sx, MaterialValue,
};
use fresco::sx::{BinaryOp, Sx, UnaryOp};
use fresco::value::{ColorSpace, Fields, Value, Values};

fn span() -> Span {
    Span { start: 1, end: 4 }
}

fn lit(n: i64) -> Sx {
    Sx::Lit(Num::whole(n))
}

#[test]
fn scalar_like_values_give_their_lane() {
    let mut c = Checker::new();
    assert_eq!(value_to_scalar_sx(Value::Scalar(lit(2)), &span(), &mut c), Some(lit(2)));
    assert_eq!(value_to_scalar_sx(Value::Mask(lit(1)), &span(), &mut c), Some(lit(1)));
    assert!(c.diags.is_empty());
    assert_eq!(value_to_scalar_sx(Value::Vec2((lit(1), lit(2))), &span(), &mut c), None);
    assert_eq!(c.diags.len(), 1);
    assert_eq!(c.diags[0].message, "expected scalar, found vec2");
    assert_eq!(c.diags[0].help.as_deref(), Some("use a scalar expression here"));
    assert_eq!(c.diags[0].span, span());
}

#[test]
fn vec4_payloads_pad_with_zeros() {
    let mut c = Checker::new();
    let zero = Sx::Lit(Num::zero());
    assert_eq!(
        value_to_channel_vec4_payload(Some(Value::Scalar(lit(7))), &span(), &mut c, "uv"),
        Some([lit(7), zero.clone(), zero.clone(), zero.clone()])
    );
    assert_eq!(
        value_to_channel_vec4_payload(Some(Value::Vec3((lit(1), lit(2), lit(3)))), &span(), &mut c, "uv"),
        Some([lit(1), lit(2), lit(3), zero.clone()])
    );
    let color = Value::Color { rgba: [Num::whole(1), Num::zero(), Num::zero(), Num::one()], space: ColorSpace::Srgb };
    assert_eq!(
        value_to_channel_vec4_payload(Some(color), &span(), &mut c, "tint"),
        Some([lit(1), zero.clone(), zero.clone(), lit(1)])
    );
    assert_eq!(value_to_channel_vec4_payload(None, &span(), &mut c, "uv"), None);
    assert!(c.diags.is_empty());
    assert_eq!(value_to_channel_vec4_payload(Some(Value::Shape(3)), &span(), &mut c, "vertex context field"), None);
    assert_eq!(c.diags[0].message, "expected scalar/vec/color value for vertex context field, found shape");
    assert_eq!(c.diags[0].help.as_deref(), Some("use scalar, vec2/vec3/vec4, or color values"));
}

#[test]
fn material_values_mirror_the_value_shape() {
    match material_value(Value::Coverage(lit(1))) {
        MaterialValue::Scalar(s) => assert_eq!(s, lit(1)),
        other => panic!("unexpected {:?}", other),
    }
    match material_value(Value::Mat2(((lit(1), lit(2)), (lit(3), lit(4))))) {
        MaterialValue::Matrix(rows) => assert_eq!(rows, vec![vec![lit(1), lit(2)], vec![lit(3), lit(4)]]),
        other => panic!("unexpected {:?}", other),
    }
    let arr = Value::Array(Values::Cons(
        Box::new(Value::Vec2((lit(1), lit(2)))),
        Box::new(Values::Cons(Box::new(Value::Scalar(lit(5))), Box::new(Values::Nil))),
    ));
    match material_value(arr) {
        MaterialValue::Array(items) => {
            assert_eq!(items.len(), 2);
            match &items[0] {
                MaterialValue::Vector(v) => assert_eq!(v, &vec![lit(1), lit(2)]),
                other => panic!("unexpected {:?}", other),
            }
            match &items[1] {
                MaterialValue::Scalar(s) => assert_eq!(s, &lit(5)),
                other => panic!("unexpected {:?}", other),
            }
        }
        other => panic!("unexpected {:?}", other),
    }
    let rec = Value::Struct {
        ty_name: "Layer".to_string(),
        fields: Fields::Cons(
            "weight".to_string(),
            Box::new(Value::Scalar(lit(1))),
            Box::new(Fields::Cons("tint".to_string(), Box::new(Value::ColorField { rgba: [lit(1), lit(0), lit(0), lit(1)], space: ColorSpace::Linear }), Box::new(Fields::Nil))),
        ),
    };
    match material_value(rec) {
        MaterialValue::Record(fields) => {
            assert_eq!(fields.len(), 2);
            assert_eq!(fields[0].0, "weight");
            assert_eq!(fields[1].0, "tint");
            match &fields[1].1 {
                MaterialValue::Vector(v) => assert_eq!(v, &vec![lit(1), lit(0), lit(0), lit(1)]),
                other => panic!("unexpected {:?}", other),
            }
        }
        other => panic!("unexpected {:?}", other),
    }
}

#[test]
fn vertex_lanes_reject_textures_and_derivatives() {
    let mut c = Checker::new();
    let ok = vec![Sx::Binary(BinaryOp::Mul, Box::new(lit(2)), Box::new(Sx::Param("height".to_string()))), lit(0)];
    assert!(validate_surface_vertex_expr(&mut c, &ok, &span(), "offset"));
    assert!(c.diags.is_empty());
    let deriv = vec![lit(1), Sx::Binary(BinaryOp::Add, Box::new(lit(1)), Box::new(Sx::Unary(UnaryOp::Ddx, Box::new(Sx::CoordX))))];
    assert!(!validate_surface_vertex_expr(&mut c, &deriv, &span(), "offset"));
    assert_eq!(c.diags[0].message, "surface vertex `offset:` cannot use texture sampling or screen-space derivatives");
    assert_eq!(
        c.diags[0].help.as_deref(),
        Some("vertex expressions can use surface fields, params, and scalar math but not texture sampling or ddx/ddy/fwidth")
    );
    let tex = vec![Sx::TexChannel { texture: "albedo".to_string(), channel: 0 }, Sx::TexChannel { texture: "albedo".to_string(), channel: 1 }];
    assert!(!validate_surface_vertex_expr(&mut c, &tex, &span(), "uv"));
    assert_eq!(c.diags.len(), 2);
}
