use fresco::ast::BinOp;
use fresco::binops::ShapeNode;
use fresco::checker::Checker;
use fresco::diag::Span;
use fresco::num::Num;
use fresco::sx::{BinaryOp, Sx, UnaryOp};
use fresco::value::{ColorSpace, Value, Values};

fn span() -> Span {
    Span { start: 2, end: 8 }
}

fn lit(n: i64) -> Sx {
    Sx::Lit(Num::whole(n))
}

fn bin(op: BinaryOp, a: Sx, b: Sx) -> Sx {
    Sx::Binary(op, Box::new(a), Box::new(b))
}

fn last_message(c: &Checker) -> String {
    c.diags.last().unwrap().message.clone()
}

#[test]
fn scalar_literals_fold_and_kinds_promote() {
    let mut c = Checker::new();
    let r = c.eval_binary_values(BinOp::Add, &span(), Value::Scalar(lit(1)), Value::Scalar(lit(2)));
    assert_eq!(r, Some(Value::Scalar(lit(3))));
    let r = c.eval_binary_values(BinOp::Mul, &span(), Value::Distance(Sx::CoordX), Value::Coverage(Sx::CoordY));
    assert!(matches!(r, Some(Value::Distance(_))));
    let r = c.eval_binary_values(BinOp::Add, &span(), Value::Scalar(lit(1)), Value::Mask(Sx::CoordY));
    assert!(matches!(r, Some(Value::Mask(_))));
    assert!(c.diags.is_empty());
}

#[test]
fn cross_kind_sums_are_rejected() {
    let mut c = Checker::new();
    let r = c.eval_binary_values(BinOp::Add, &span(), Value::Distance(Sx::CoordX), Value::Coverage(Sx::CoordY));
    assert_eq!(r, None);
    assert_eq!(last_message(&c), "unsafe cross-kind arithmetic: distance Add coverage");
    assert_eq!(
        c.diags[0].help.as_deref(),
        Some("allowed promotions: matching kinds, scalar with any kind, and multiplicative attenuation between distance/coverage/mask")
    );
}

#[test]
fn comparisons_build_comparison_lanes() {
    let mut c = Checker::new();
    let r = c.eval_binary_values(BinOp::Lt, &span(), Value::Scalar(Sx::CoordX), Value::Scalar(lit(1)));
    assert_eq!(r, Some(Value::Scalar(bin(BinaryOp::Lt, Sx::CoordX, lit(1)))));
}

#[test]
fn vectors_combine_lane_by_lane() {
    let mut c = Checker::new();
    let r = c.eval_binary_values(
        BinOp::Add,
        &span(),
        Value::Vec2((lit(1), lit(2))),
        Value::Vec2((lit(10), lit(20))),
    );
    assert_eq!(r, Some(Value::Vec2((lit(11), lit(22)))));
    let r = c.eval_binary_values(BinOp::Mul, &span(), Value::Vec2((lit(2), lit(3))), Value::Scalar(Sx::CoordX));
    assert_eq!(
        r,
        Some(Value::Vec2((bin(BinaryOp::Mul, lit(2), Sx::CoordX), bin(BinaryOp::Mul, lit(3), Sx::CoordX))))
    );
    assert_eq!(c.let_counter, 0);
    let r = c.eval_binary_values(BinOp::Add, &span(), Value::Vec2((lit(1), lit(2))), Value::Vec3((lit(1), lit(2), lit(3))));
    assert_eq!(r, None);
    assert_eq!(last_message(&c), "operator `Add` is not defined for vec2 and vec3");
}

#[test]
fn compound_scalars_are_shared_before_broadcast() {
    let mut c = Checker::new();
    let s = bin(BinaryOp::Add, Sx::CoordX, Sx::CoordY);
    let r = c.eval_binary_values(BinOp::Mul, &span(), Value::Vec2((lit(1), lit(5))), Value::Scalar(s.clone()));
    assert_eq!(c.let_counter, 1);
    let shared = Sx::Let {
        name: "__bcast_1".to_string(),
        value: Box::new(s),
        body: Box::new(Sx::Var("__bcast_1".to_string())),
    };
    match r {
        Some(Value::Vec2((x, _))) => assert_eq!(x, shared),
        other => panic!("unexpected {:?}", other),
    }
}

#[test]
fn matrices_multiply_vectors() {
    let mut c = Checker::new();
    let m = Value::Mat2(((lit(1), lit(2)), (lit(3), lit(4))));
    let r = c.eval_binary_values(BinOp::Mul, &span(), m, Value::Vec2((lit(5), lit(6))));
    assert_eq!(r, Some(Value::Vec2((lit(23), lit(34)))));
    let m = Value::Mat2(((lit(1), lit(2)), (lit(3), lit(4))));
    let r = c.eval_binary_values(BinOp::Mul, &span(), Value::Vec2((lit(5), lit(6))), m);
    assert_eq!(r, Some(Value::Vec2((lit(17), lit(39)))));
}

#[test]
fn colors_combine_in_linear_space() {
    let mut c = Checker::new();
    let a = Value::Color { rgba: [Num::one(), Num::zero(), Num::zero(), Num::one()], space: ColorSpace::Linear };
    let r = c.eval_binary_values(BinOp::Mul, &span(), a, Value::Scalar(lit(2)));
    assert_eq!(
        r,
        Some(Value::ColorField {
            rgba: [
                bin(BinaryOp::Mul, lit(1), lit(2)),
                bin(BinaryOp::Mul, lit(0), lit(2)),
                bin(BinaryOp::Mul, lit(0), lit(2)),
                bin(BinaryOp::Mul, lit(1), lit(2)),
            ],
            space: ColorSpace::Linear,
        })
    );
    let s = Value::Color { rgba: [Num::one(), Num::one(), Num::one(), Num::one()], space: ColorSpace::Srgb };
    match c.eval_binary_values(BinOp::Add, &span(), s.clone(), s) {
        Some(Value::ColorField { rgba, space: ColorSpace::Linear }) => {
            let to_linear = Sx::Unary(UnaryOp::SrgbToLinear, Box::new(lit(1)));
            assert_eq!(rgba[0], bin(BinaryOp::Add, to_linear.clone(), to_linear));
            assert_eq!(rgba[3], bin(BinaryOp::Add, lit(1), lit(1)));
        }
        other => panic!("unexpected {:?}", other),
    }
    assert!(c.diags.is_empty());
}

#[test]
fn colors_reject_other_operands() {
    let mut c = Checker::new();
    let a = Value::Color { rgba: [Num::one(); 4], space: ColorSpace::Srgb };
    assert_eq!(c.eval_binary_values(BinOp::Add, &span(), a.clone(), Value::Vec2((lit(1), lit(2)))), None);
    assert_eq!(
        last_message(&c),
        "color arithmetic `Add` only supports color/color or color/scalar operands, found color and vec2"
    );
    assert_eq!(c.eval_binary_values(BinOp::Lt, &span(), a, Value::Scalar(lit(1))), None);
    assert_eq!(last_message(&c), "operator `Lt` is not defined for color and scalar");
}

#[test]
fn shapes_combine_into_new_shapes() {
    let mut c = Checker::new();
    let r = c.eval_binary_values(BinOp::Union, &span(), Value::Shape(7), Value::Shape(9));
    assert_eq!(r, Some(Value::Shape(0)));
    assert_eq!(c.shapes, vec![ShapeNode::Union(7, 9)]);
    let items = Values::Cons(
        Box::new(Value::Shape(1)),
        Box::new(Values::Cons(Box::new(Value::Shape(2)), Box::new(Values::Nil))),
    );
    let r = c.eval_binary_values(BinOp::Sub, &span(), Value::Shape(5), Value::Array(items));
    assert_eq!(r, Some(Value::Shape(2)));
    assert_eq!(
        c.shapes,
        vec![ShapeNode::Union(7, 9), ShapeNode::Subtract(5, 1), ShapeNode::Subtract(1, 2)]
    );
    let r = c.eval_binary_values(BinOp::Sub, &span(), Value::Shape(5), Value::Array(Values::Nil));
    assert_eq!(r, Some(Value::Shape(5)));
    assert!(c.diags.is_empty());
}

#[test]
fn shape_arrays_need_shape_elements() {
    let mut c = Checker::new();
    let items = Values::Cons(
        Box::new(Value::Shape(1)),
        Box::new(Values::Cons(Box::new(Value::Scalar(lit(2))), Box::new(Values::Nil))),
    );
    assert_eq!(c.eval_binary_values(BinOp::Sub, &span(), Value::Shape(0), Value::Array(items)), None);
    assert_eq!(c.shapes, vec![ShapeNode::Subtract(0, 1)]);
    assert_eq!(last_message(&c), "shape subtraction with an array requires shape elements");
    assert_eq!(c.diags[0].help.as_deref(), Some("use `shape - [shape1, shape2, ...]`"));
}

#[test]
fn bit_operators_point_to_helpers() {
    let mut c = Checker::new();
    assert_eq!(c.eval_binary_values(BinOp::Shl, &span(), Value::Scalar(lit(1)), Value::Scalar(lit(2))), None);
    assert_eq!(last_message(&c), "operator `<<` is not supported in expressions");
    assert_eq!(c.eval_binary_values(BinOp::BitXor, &span(), Value::Vec2((lit(1), lit(1))), Value::Vec2((lit(1), lit(1)))), None);
    assert_eq!(last_message(&c), "operator `^` is not supported in expressions");
    assert_eq!(c.eval_binary_values(BinOp::Union, &span(), Value::Scalar(lit(1)), Value::Scalar(lit(2))), None);
    assert_eq!(last_message(&c), "operator `|` on scalars is not supported; use bit helpers");
    assert_eq!(c.eval_binary_values(BinOp::LogicalAnd, &span(), Value::Scalar(lit(1)), Value::Scalar(lit(2))), None);
    assert_eq!(last_message(&c), "operator `LogicalAnd` is not defined for scalar and scalar");
    assert_eq!(c.diags.len(), 4);
}

#[test]
fn errors_pass_through() {
    let mut c = Checker::new();
    assert_eq!(c.eval_binary_values(BinOp::Add, &span(), Value::Error, Value::Shape(1)), Some(Value::Error));
    assert_eq!(c.eval_binary_values(BinOp::Shl, &span(), Value::Scalar(lit(1)), Value::Error), Some(Value::Error));
    assert!(c.diags.is_empty());
}
