use fresco::ast::{Arg, Args, BinOp, Expr, SExpr, UnOp, Unit};
use fresco::checker::Checker;
use fresco::diag::Span;
use fresco::num::Num;
use fresco::sx::Sx;
use fresco::value::{Fields, Value};

fn at(node: Expr) -> SExpr {
    SExpr { node, span: Span { start: 0, end: 1 } }
}

fn num(n: i64) -> SExpr {
    at(Expr::Num(Num::whole(n), Unit::Unitless))
}

fn var(name: &str) -> SExpr {
    at(Expr::Var(name.to_string()))
}

fn call(name: &str, args: Vec<SExpr>) -> SExpr {
    let mut list = Args::Nil;
    for a in args.into_iter().rev() {
        list = Args::Cons(Box::new(Arg { name: None, value: a }), Box::new(list));
    }
    at(Expr::Call { name: name.to_string(), name_span: Span { start: 0, end: 1 }, args: list })
}

fn bin(op: BinOp, a: SExpr, b: SExpr) -> SExpr {
    at(Expr::Binary(op, Box::new(a), Box::new(b)))
}

#[test]
fn literals_and_constructors_have_their_shapes() {
    let c = Checker::new();
    assert_eq!(c.arg_shape_hint(&num(3)), Some("scalar"));
    assert_eq!(c.arg_shape_hint(&at(Expr::Unary(UnOp::Neg, Box::new(num(3))))), Some("scalar"));
    assert_eq!(c.arg_shape_hint(&call("vec3", vec![])), Some("vec3"));
    assert_eq!(c.arg_shape_hint(&call("mat2", vec![])), Some("mat2"));
    assert_eq!(c.arg_shape_hint(&call("rgba", vec![])), Some("color"));
    assert_eq!(c.arg_shape_hint(&var("coord")), Some("vec2"));
    assert_eq!(c.arg_shape_hint(&var("time")), Some("scalar"));
    assert_eq!(c.arg_shape_hint(&var("unknown")), None);
    assert_eq!(c.arg_shape_hint(&at(Expr::Num(Num::whole(3), Unit::Px))), None);
}

#[test]
fn arithmetic_and_builtins_combine_shapes() {
    let c = Checker::new();
    assert_eq!(c.arg_shape_hint(&bin(BinOp::Mul, var("coord"), num(2))), Some("vec2"));
    assert_eq!(c.arg_shape_hint(&bin(BinOp::Add, num(2), call("vec4", vec![]))), Some("vec4"));
    assert_eq!(c.arg_shape_hint(&bin(BinOp::Add, var("coord"), call("vec3", vec![]))), None);
    assert_eq!(c.arg_shape_hint(&bin(BinOp::Lt, num(1), num(2))), None);
    assert_eq!(c.arg_shape_hint(&call("max", vec![num(0), var("coord")])), Some("vec2"));
    assert_eq!(c.arg_shape_hint(&call("cross", vec![call("vec3", vec![])])), Some("vec3"));
    assert_eq!(c.arg_shape_hint(&call("cross", vec![var("coord")])), Some("scalar"));
    assert_eq!(c.arg_shape_hint(&call("normalize", vec![call("vec3", vec![])])), Some("vec3"));
    assert_eq!(c.arg_shape_hint(&call("normalize", vec![])), None);
    assert_eq!(c.arg_shape_hint(&call("my_helper", vec![num(1)])), None);
}

#[test]
fn bound_names_and_members_report_their_values() {
    let mut c = Checker::new();
    c.bind("p".to_string(), Value::Vec3((Sx::CoordX, Sx::CoordY, Sx::CoordX)));
    let light = Value::Struct {
        ty_name: "Light".to_string(),
        fields: Fields::Cons(
            "dir".to_string(),
            Box::new(Value::Vec2((Sx::CoordX, Sx::CoordY))),
            Box::new(Fields::Nil),
        ),
    };
    c.bind("sun".to_string(), light);
    assert_eq!(c.arg_shape_hint(&var("p")), Some("vec3"));
    assert_eq!(c.arg_shape_hint(&var("sun.dir")), Some("vec2"));
    assert_eq!(c.arg_shape_hint(&at(Expr::Member(Box::new(var("sun")), "dir".to_string()))), Some("vec2"));
    assert_eq!(c.arg_shape_hint(&at(Expr::Member(Box::new(var("p")), "xyz".to_string()))), Some("vec3"));
    assert_eq!(c.arg_shape_hint(&var("sun")), None);
}
