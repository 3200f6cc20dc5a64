use fresco::ast::{Expr, SExpr, Unit};
use fresco::checker::Checker;
use fresco::declare::ParamDefault;
use fresco::value::Value;
use fresco::diag::{Severity, Span};
use fresco::num::Num;
use fresco::sx::{EntryInput, Sx};

fn span() -> Span {
    Span { start: 3, end: 9 }
}

fn lit(n: i64) -> Sx {
    Sx::Lit(Num::whole(n))
}

fn last_message(c: &Checker) -> String {
    c.diags.last().unwrap().message.clone()
}

#[test]
fn scalar_literals_pass_through() {
    let mut c = Checker::new();
    assert_eq!(c.require_const_param_scalar(&lit(5), "default", span()), Some(Num::whole(5)));
    let px = Sx::PxLit(Num::ratio(3, 2).unwrap());
    assert_eq!(c.require_const_param_scalar(&px, "min", span()), Some(Num::ratio(3, 2).unwrap()));
    assert!(c.diags.is_empty());
}

#[test]
fn non_literal_scalar_is_reported() {
    let mut c = Checker::new();
    let r = c.require_const_param_scalar(&Sx::EntryInput(EntryInput::Time), "max", span());
    assert_eq!(r, None);
    assert_eq!(c.diags.len(), 1);
    let d = &c.diags[0];
    assert_eq!(d.severity, Severity::Error);
    assert_eq!(d.span, span());
    assert_eq!(d.message, "param max must be a numeric literal");
    assert_eq!(
        d.help.as_deref(),
        Some("v0 manifest output requires literal `default`, `min`, and `max` values")
    );
}

#[test]
fn i32_values_are_whole_and_in_range() {
    let mut c = Checker::new();
    assert_eq!(c.require_const_param_i32(&lit(-3), "default", span()), Some(-3));
    assert_eq!(c.require_const_param_i32(&lit(2147483647), "default", span()), Some(2147483647));
    assert_eq!(c.require_const_param_i32(&lit(-2147483648), "default", span()), Some(-2147483648));
    let six_halves = Sx::Lit(Num { neg: false, mag: 6, den: 2 });
    assert_eq!(c.require_const_param_i32(&six_halves, "default", span()), Some(3));
    assert!(c.diags.is_empty());

    let half = Sx::Lit(Num::ratio(1, 2).unwrap());
    assert_eq!(c.require_const_param_i32(&half, "default", span()), None);
    assert_eq!(last_message(&c), "param default must be an integer literal");
    assert_eq!(c.diags.last().unwrap().help.as_deref(), Some("examples: -3, 0, 42"));

    assert_eq!(c.require_const_param_i32(&lit(2147483648), "default", span()), None);
    assert_eq!(last_message(&c), "param default is out of i32 range");
    assert_eq!(
        c.diags.last().unwrap().help.as_deref(),
        Some("expected -2147483648 .. 2147483647")
    );
    assert_eq!(c.require_const_param_i32(&lit(-2147483649), "default", span()), None);
    assert_eq!(c.diags.len(), 3);
}

#[test]
fn u32_values_are_whole_and_in_range() {
    let mut c = Checker::new();
    assert_eq!(c.require_const_param_u32(&lit(0), "default", span()), Some(0));
    assert_eq!(c.require_const_param_u32(&lit(4294967295), "default", span()), Some(4294967295));
    assert!(c.diags.is_empty());
    assert_eq!(c.require_const_param_u32(&lit(-1), "default", span()), None);
    assert_eq!(last_message(&c), "param default is out of u32 range");
    assert_eq!(c.diags.last().unwrap().help.as_deref(), Some("expected 0 .. 4294967295"));
    let third = Sx::Lit(Num::ratio(1, 3).unwrap());
    assert_eq!(c.require_const_param_u32(&third, "default", span()), None);
    assert_eq!(last_message(&c), "param default must be an integer literal");
    assert_eq!(c.diags.last().unwrap().help.as_deref(), Some("examples: 0, 7, 128"));
    assert_eq!(c.require_const_param_u32(&Sx::CoordX, "default", span()), None);
    assert_eq!(last_message(&c), "param default must be a numeric literal");
}

#[test]
fn bool_defaults_are_the_two_names() {
    let mut c = Checker::new();
    let t = SExpr { node: Expr::Var("true".to_string()), span: span() };
    let f = SExpr { node: Expr::Var("false".to_string()), span: span() };
    assert_eq!(c.require_const_param_bool(&t), Some(true));
    assert_eq!(c.require_const_param_bool(&f), Some(false));
    assert!(c.diags.is_empty());
    let other = SExpr { node: Expr::Var("yes".to_string()), span: span() };
    assert_eq!(c.require_const_param_bool(&other), None);
    assert_eq!(last_message(&c), "param default must be a bool literal");
    assert_eq!(c.diags.last().unwrap().help.as_deref(), Some("use `true` or `false`"));
    let num = SExpr { node: Expr::Num(Num::one(), fresco::ast::Unit::Unitless), span: span() };
    assert_eq!(c.require_const_param_bool(&num), None);
    assert_eq!(c.diags.len(), 2);
}

#[test]
fn vectors_name_the_first_non_literal_component() {
    let mut c = Checker::new();
    assert_eq!(
        c.require_const_param_vec2(&(lit(1), lit(2)), "element", span()),
        Some((Num::whole(1), Num::whole(2)))
    );
    assert_eq!(
        c.require_const_param_vec3(&(lit(1), lit(2), lit(3)), "element", span()),
        Some((Num::whole(1), Num::whole(2), Num::whole(3)))
    );
    assert!(c.diags.is_empty());
    assert_eq!(c.require_const_param_vec2(&(lit(1), Sx::CoordY), "element", span()), None);
    assert_eq!(last_message(&c), "param element y must be a numeric literal");
    assert_eq!(
        c.require_const_param_vec4(&(lit(1), lit(2), Sx::CoordX, Sx::CoordY), "element", span()),
        None
    );
    assert_eq!(last_message(&c), "param element z must be a numeric literal");
    assert_eq!(c.diags.len(), 2);
}

#[test]
fn matrices_read_row_by_row() {
    let mut c = Checker::new();
    let m = [[lit(1), lit(2)], [lit(3), lit(4)]];
    let r = c.require_const_param_mat2(&m, "element", span()).unwrap();
    assert_eq!(r, [[Num::whole(1), Num::whole(2)], [Num::whole(3), Num::whole(4)]]);
    let m3 = [[lit(1), lit(0), lit(0)], [lit(0), lit(1), Sx::CoordX], [lit(0), Sx::CoordY, lit(1)]];
    assert_eq!(c.require_const_param_mat3(&m3, "element", span()), None);
    assert_eq!(last_message(&c), "param element [1][2] must be a numeric literal");
    assert_eq!(c.diags.len(), 1);
    let m4 = [
        [lit(1), lit(0), lit(0), lit(0)],
        [lit(0), lit(1), lit(0), lit(0)],
        [lit(0), lit(0), lit(1), lit(0)],
        [lit(0), lit(0), lit(0), lit(1)],
    ];
    let r4 = c.require_const_param_mat4(&m4, "element", span()).unwrap();
    assert_eq!(r4[3][3], Num::whole(1));
    assert_eq!(r4[2][1], Num::whole(0));
    assert_eq!(c.diags.len(), 1);
}

fn num(n: i64, unit: Unit) -> SExpr {
    SExpr { node: Expr::Num(Num::whole(n), unit), span: Span { start: n as usize, end: n as usize + 2 } }
}

#[test]
fn param_literal_units_name_the_offending_literal() {
    let name_span = Span { start: 40, end: 41 };
    let mut c = Checker::new();
    assert!(!c.validate_param_literal_units("n", &name_span, "i32", &num(5, Unit::Px), None));
    assert_eq!(c.diags.len(), 1);
    let d = &c.diags[0];
    assert_eq!(d.severity, Severity::Error);
    assert_eq!(d.span, Span { start: 5, end: 7 });
    assert_eq!(d.message, "param `n` default must be unitless for `i32`");
    assert_eq!(d.label.as_deref(), Some("remove the unit suffix"));
    assert_eq!(d.help.as_deref(), Some("integer params accept plain integer literals only"));

    let range = (num(0, Unit::Deg), num(1, Unit::Deg));
    assert!(!c.validate_param_literal_units("n", &name_span, "f32", &num(10, Unit::Px), Some(&range)));
    assert_eq!(c.diags.len(), 2);
    let d = &c.diags[1];
    assert_eq!(d.span, name_span);
    assert_eq!(d.message, "param `n` mixes incompatible unit families in default/range");
    assert_eq!(d.label.as_deref(), Some("range minimum uses angle units here"));
    assert_eq!(d.help.as_deref(), Some("use one unit family consistently (current baseline: length)"));

    let range = (num(0, Unit::Px), num(20, Unit::Vw));
    assert!(c.validate_param_literal_units("n", &name_span, "f32", &num(10, Unit::Px), Some(&range)));
    assert_eq!(c.diags.len(), 2);
}

fn name_expr(n: &str) -> SExpr {
    SExpr { node: Expr::Var(n.to_string()), span: Span { start: 60, end: 61 } }
}

#[test]
fn declared_params_are_recorded_and_bound() {
    let ns = Span { start: 40, end: 45 };
    let mut c = Checker::new();
    let range = (num(0, Unit::Unitless), num(20, Unit::Unitless));
    c.declare_param("gain", &ns, "f32", &num(10, Unit::Unitless), Some(&range));
    assert!(c.diags.is_empty());
    assert_eq!(c.params.len(), 1);
    assert_eq!(c.params[0].name, "gain");
    assert_eq!(c.params[0].ty_name, "f32");
    assert_eq!(c.params[0].default, ParamDefault::Scalar(Num::whole(10)));
    assert_eq!(c.params[0].min, Some(Num::whole(0)));
    assert_eq!(c.params[0].max, Some(Num::whole(20)));
    assert_eq!(c.lookup("gain"), Some(Value::Scalar(Sx::Param("gain".to_string()))));

    c.declare_param("steps", &ns, "i32", &num(3, Unit::Unitless), None);
    assert_eq!(c.params[1].default, ParamDefault::Int(3));
    c.declare_param("on", &ns, "bool", &name_expr("true"), None);
    assert_eq!(c.params[2].default, ParamDefault::Bool(true));
    let tint = SExpr { node: Expr::Color([Num::one(), Num::zero(), Num::zero(), Num::one()]), span: ns };
    c.declare_param("tint", &ns, "color", &tint, None);
    assert_eq!(c.params[3].default, ParamDefault::Color([Num::one(), Num::zero(), Num::zero(), Num::one()]));
    assert!(matches!(c.lookup("tint"), Some(Value::ColorField { .. })));
    assert!(c.diags.is_empty());
}

#[test]
fn inverted_and_unsupported_params_are_reported() {
    let ns = Span { start: 40, end: 45 };
    let mut c = Checker::new();
    let range = (num(20, Unit::Unitless), num(2, Unit::Unitless));
    c.declare_param("gain", &ns, "f32", &num(10, Unit::Unitless), Some(&range));
    assert!(c.params.is_empty());
    assert!(c.lookup("gain").is_none());
    assert_eq!(c.diags.len(), 1);
    assert_eq!(c.diags[0].span, ns);
    assert_eq!(c.diags[0].message, "param range is inverted");
    assert_eq!(c.diags[0].label.as_deref(), Some("got 20 .. 2"));
    assert_eq!(c.diags[0].help.as_deref(), Some("write ranges as `min .. max` where `min <= max`"));

    c.declare_param("count", &ns, "u32", &num(1, Unit::Unitless), Some(&range));
    assert_eq!(c.diags[1].message, "param range is inverted");

    let small = (num(0, Unit::Unitless), num(1, Unit::Unitless));
    c.declare_param("on", &ns, "bool", &name_expr("true"), Some(&small));
    assert_eq!(c.diags[2].message, "bool params do not support ranges");
    c.declare_param("tint", &ns, "color", &name_expr("x"), Some(&small));
    assert_eq!(c.diags[3].message, "color params do not support ranges");
    assert_eq!(
        c.diags[3].help.as_deref(),
        Some("`param tint: color = ...` exposes a color directly; only scalar params support slider ranges (range written at spans 0..2 and 1..3)")
    );
    c.declare_param("m", &ns, "quat", &num(1, Unit::Unitless), None);
    assert_eq!(c.diags[4].message, "unsupported param type `quat`");
    c.declare_param("k", &ns, "i32", &num(1, Unit::Px), None);
    assert_eq!(c.diags[5].message, "param `k` default must be unitless for `i32`");
    assert!(c.params.is_empty());
}
