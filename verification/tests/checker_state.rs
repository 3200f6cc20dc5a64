use fresco::ast::{compose_entry_span, fn_stmt_span_kind, stmt_span};
use fresco::ast::{
    Arg, Args, ComposeEntry, Expr, GlobalParamDecl, LocalFnSpans, SExpr, Stmt, StructDecl,
    StructFieldDecl, Unit,
};
use fresco::checker::Checker;
use fresco::diag::{has_errors, Diag, Severity, Span};
use fresco::enums::{variants_in_decl_order, EnumDef};
use fresco::globals::{build_global_uniform_registry, field_shape, FieldShape, GlobalUniformDef};
use fresco::merge::LayerNode;
use fresco::num::Num;
use fresco::overloads::{FnValueTy, ScalarSpecialization};
use fresco::sx::{Sx, SxArgs};
use fresco::value::{ColorSpace, Fields, Value, Values};
use fresco::workbook::{SpanCapture, SpanValueKind};

fn span(start: usize, end: usize) -> Span {
    Span { start, end }
}

fn s(x: &str) -> String {
    x.to_string()
}

fn lit(n: i64) -> Sx {
    Sx::Lit(Num::whole(n))
}

fn var(name: &str, at: usize) -> SExpr {
    SExpr { node: Expr::Var(s(name)), span: span(at, at + 1) }
}

fn anchor_like_enum() -> EnumDef {
    EnumDef {
        variants: vec![(s("down"), span(30, 34)), (s("up"), span(10, 12)), (s("left"), span(20, 24))],
    }
}

fn checker_with_enums() -> Checker {
    let mut c = Checker::new();
    c.enum_defs.push((s("YAxis"), anchor_like_enum()));
    c.enum_defs.push((
        s("Blend"),
        EnumDef { variants: vec![(s("add"), span(5, 8)), (s("mul"), span(5, 8))] },
    ));
    c.enum_defs.push((s("Mode"), EnumDef { variants: vec![(s("up"), span(1, 2))] }));
    c
}

#[test]
fn enum_variants_follow_declaration_position_then_name() {
    assert_eq!(variants_in_decl_order(&anchor_like_enum()), vec![s("up"), s("left"), s("down")]);
    let c = checker_with_enums();
    assert_eq!(c.enum_variants_in_decl_order("Blend"), Some(vec![s("add"), s("mul")]));
    assert_eq!(c.enum_variants_in_decl_order("Missing"), None);
}

#[test]
fn enum_variant_ordinals_round_trip() {
    let def = anchor_like_enum();
    assert_eq!(Checker::enum_variant_scalar_value(&def, "left"), Value::Scalar(lit(1)));
    assert_eq!(Checker::enum_variant_scalar_value(&def, "nope"), Value::Scalar(lit(0)));
    let c = checker_with_enums();
    assert_eq!(c.enum_variant_name_from_scalar("YAxis", &lit(2)), Some(s("down")));
    assert_eq!(c.enum_variant_name_from_scalar("YAxis", &lit(3)), None);
    assert_eq!(c.enum_variant_name_from_scalar("YAxis", &lit(-1)), None);
    let half = Sx::Lit(Num::ratio(1, 2).unwrap());
    assert_eq!(c.enum_variant_name_from_scalar("YAxis", &half), None);
    assert_eq!(c.enum_variant_name_from_scalar("YAxis", &Sx::CoordX), None);
}

#[test]
fn enum_scalar_validation_reports_bad_values() {
    let mut c = checker_with_enums();
    assert!(c.validate_enum_scalar_value("YAxis", &Value::Scalar(lit(1)), span(0, 1), "argument"));
    assert!(c.validate_enum_scalar_value("YAxis", &Value::Scalar(Sx::CoordX), span(0, 1), "argument"));
    assert!(c.diags.is_empty());
    assert!(!c.validate_enum_scalar_value("YAxis", &Value::Scalar(lit(9)), span(2, 3), "argument"));
    assert_eq!(c.diags.len(), 1);
    assert_eq!(c.diags[0].message, "argument is not a valid `YAxis` variant value");
    assert_eq!(
        c.diags[0].help.as_deref(),
        Some("use `YAxis.<variant>` where <variant> is one of: up, left, down")
    );
    let v = Value::Vec2((lit(0), lit(0)));
    assert!(!c.validate_enum_scalar_value("YAxis", &v, span(4, 5), "field"));
    assert_eq!(c.diags[1].message, "field expected enum `YAxis` variant, found vec2");
    assert_eq!(c.diags[1].label.as_deref(), Some("enum type mismatch"));
}

#[test]
fn enum_call_arguments_must_name_the_expected_enum() {
    let mut c = checker_with_enums();
    assert!(c.validate_enum_call_arg_expr("YAxis", &var("YAxis.up", 0), "f", "dir"));
    assert!(!c.validate_enum_call_arg_expr("Blend", &var("YAxis.up", 0), "f", "mode"));
    assert_eq!(
        c.diags[0].message,
        "argument `mode` to `f` expected enum `Blend`, found variant `YAxis.up`"
    );
    assert!(!c.validate_enum_call_arg_expr("YAxis", &var("mul", 0), "f", "dir"));
    assert_eq!(
        c.diags[1].help.as_deref(),
        Some("qualify the expected enum variant, for example `YAxis.mul`")
    );
    assert!(c.validate_enum_call_arg_expr("YAxis", &var("up", 0), "f", "dir"));
    assert_eq!(c.diags.len(), 2);
    assert_eq!(c.infer_enum_for_unqualified_match_variant("up"), vec![s("YAxis"), s("Mode")]);
}

#[test]
fn enum_value_names_resolve_qualified_and_unqualified() {
    let mut c = checker_with_enums();
    c.unqualified_enums.push(s("Blend"));
    c.unqualified_enums.push(s("YAxis"));
    c.unqualified_enums.push(s("Mode"));
    assert_eq!(c.resolve_enum_value_name("YAxis.down", span(0, 1)), Some(Value::Scalar(lit(2))));
    assert_eq!(c.resolve_enum_value_name("mul", span(0, 1)), Some(Value::Scalar(lit(1))));
    assert_eq!(c.resolve_enum_value_name("Other.x", span(0, 1)), None);
    assert_eq!(c.resolve_enum_value_name("plain", span(0, 1)), None);
    assert!(c.diags.is_empty());
    assert_eq!(c.resolve_enum_value_name("up", span(7, 8)), Some(Value::Error));
    assert_eq!(c.diags[0].message, "ambiguous enum variant `up`");
    assert_eq!(c.diags[0].help.as_deref(), Some("qualify the variant: `YAxis.up` or `Mode.up`"));
    assert_eq!(c.resolve_enum_value_name("YAxis.sideways", span(0, 1)), Some(Value::Error));
    assert_eq!(c.diags[1].message, "unknown variant `sideways` on enum `YAxis`");
    assert_eq!(c.resolve_enum_value_name("YAxis.up.x", span(0, 1)), Some(Value::Error));
    assert_eq!(c.diags[2].message, "invalid enum variant path `YAxis.up.x`");
    assert!(Checker::is_anchor_variant_name("top_left"));
    assert!(!Checker::is_anchor_variant_name("middle"));
}

#[test]
fn global_uniform_fields_have_lane_shapes() {
    assert!(matches!(field_shape("f32"), Some(FieldShape::Scalar)));
    assert!(matches!(field_shape("coord in world"), Some(FieldShape::Vec2)));
    assert!(matches!(field_shape("vec4"), Some(FieldShape::Vec4)));
    assert!(field_shape("mat3").is_none());
}

#[test]
fn global_uniform_layout_follows_the_f32_abi() {
    let def = GlobalUniformDef {
        name: s("frame"),
        ty_name: s("FrameGlobals"),
        fields: vec![(s("time"), s("f32")), (s("resolution"), s("vec2")), (s("tint"), s("vec3")), (s("n"), s("f32"))],
    };
    assert_eq!(def.field_layouts(), vec![(0, 1), (8, 2), (16, 3), (28, 1)]);
    assert_eq!(def.byte_size(), 32);
    let empty = GlobalUniformDef { name: s("g"), ty_name: s("G"), fields: vec![] };
    assert_eq!(empty.byte_size(), 16);
    let one = GlobalUniformDef { name: s("g"), ty_name: s("G"), fields: vec![(s("a"), s("vec4"))] };
    assert_eq!(one.field_layouts(), vec![(0, 4)]);
    assert_eq!(one.byte_size(), 16);
}

fn param(name: &str, ty: &str) -> GlobalParamDecl {
    GlobalParamDecl {
        name: s(name),
        name_span: span(1, 2),
        ty_name: s(ty),
        ty_span: span(3, 4),
        default: None,
        span: span(0, 5),
    }
}

#[test]
fn global_uniform_registry_checks_struct_params() {
    let structs = vec![
        StructDecl {
            name: s("FrameGlobals"),
            fields: vec![
                StructFieldDecl { name: s("time"), ty_name: s("f32"), ty_span: span(10, 11) },
                StructFieldDecl { name: s("resolution"), ty_name: s("vec2"), ty_span: span(12, 13) },
            ],
        },
        StructDecl {
            name: s("Bad"),
            fields: vec![StructFieldDecl { name: s("m"), ty_name: s("mat4"), ty_span: span(20, 21) }],
        },
    ];
    let params = vec![param("frame", "FrameGlobals"), param("scale", "f32"), param("frame", "FrameGlobals"), param("bad", "Bad")];
    let mut diags: Vec<Diag> = Vec::new();
    let registry = build_global_uniform_registry(&params, &structs, &mut diags);
    assert_eq!(registry.defs.len(), 1);
    assert_eq!(registry.defs[0].name, "frame");
    assert_eq!(registry.defs[0].fields, vec![(s("time"), s("f32")), (s("resolution"), s("vec2"))]);
    assert_eq!(diags.len(), 2);
    assert_eq!(diags[0].message, "duplicate global uniform `frame`");
    assert_eq!(diags[1].message, "global uniform field `m` has unsupported type `mat4`");
    let bindings = registry.scope_bindings();
    assert_eq!(bindings.len(), 1);
    match &bindings[0].1 {
        Value::Struct { ty_name, fields } => {
            assert_eq!(ty_name, "FrameGlobals");
            match fields.get("resolution") {
                Some(Value::Vec2((Sx::UniformField { binding_name, field_index, component, .. }, _))) => {
                    assert_eq!(binding_name, "frame");
                    assert_eq!(*field_index, 1);
                    assert_eq!(*component, Some(0));
                }
                other => panic!("unexpected field value {other:?}"),
            }
        }
        other => panic!("unexpected binding {other:?}"),
    }
    let mut c = Checker::new();
    c.bind_global_uniforms(&registry);
    assert!(matches!(c.lookup("frame"), Some(Value::Struct { .. })));
    assert!(c.lookup("scale").is_none());
}

#[test]
fn scopes_bind_assign_and_lookup() {
    let mut c = Checker::new();
    assert_eq!(c.lookup("coord"), Some(Value::Vec2((Sx::CoordX, Sx::CoordY))));
    assert!(c.lookup("x").is_none());
    c.bind(s("x"), Value::Scalar(lit(1)));
    assert_eq!(c.lookup("x"), Some(Value::Scalar(lit(1))));
    assert!(c.assign("x", Value::Scalar(lit(2))));
    assert_eq!(c.lookup("x"), Some(Value::Scalar(lit(2))));
    assert!(!c.assign("y", Value::Scalar(lit(3))));
    assert!(c.lookup("y").is_none());
}

#[test]
fn span_values_log_kinds_and_capture_the_tightest_fit() {
    let mut c = Checker::new();
    c.workbook_enabled = true;
    c.capture_target = Some((5, 6));
    c.record_span_value(0, 10, &Value::Scalar(lit(1)));
    c.record_span_value(4, 7, &Value::Vec2((lit(1), lit(2))));
    c.record_span_value(5, 9, &Value::Scalar(lit(3)));
    c.record_span_value(5, 6, &Value::Error);
    c.record_span_value(8, 9, &Value::Layer(4));
    assert_eq!(
        c.span_log,
        vec![
            (span(0, 10), SpanValueKind::Scalar),
            (span(4, 7), SpanValueKind::Vec2),
            (span(5, 9), SpanValueKind::Scalar),
            (span(8, 9), SpanValueKind::Layer),
        ]
    );
    assert_eq!(c.captured, Some((3, SpanCapture::Vec2((lit(1), lit(2))))));
}

#[test]
fn helper_slots_and_placeholders_name_each_lane() {
    assert_eq!(Checker::helper_slots("p", 1), vec![s("loc__p")]);
    assert_eq!(Checker::helper_slots("p", 3), vec![s("loc__p__x"), s("loc__p__y"), s("loc__p__z")]);
    assert!(Checker::helper_slots("p", 5).is_empty());
    assert_eq!(Checker::helper_value_components(&Value::Mask(lit(0))), Some(1));
    assert_eq!(Checker::helper_value_components(&Value::Error), None);
    let slots = vec![s("a"), s("b")];
    assert_eq!(
        Checker::helper_placeholder_value(&slots),
        Some(Value::Vec2((Sx::Param(s("a")), Sx::Param(s("b")))))
    );
    assert_eq!(Checker::helper_placeholder_value(&[]), None);
}

#[test]
fn pending_lets_wrap_only_lanes_that_use_them() {
    let pending = vec![(s("acc"), lit(5)), (s("k"), lit(2))];
    let value = Value::Vec2((Sx::Var(s("acc")), Sx::CoordX));
    let wrapped = Checker::apply_pending_lets(value, &pending);
    assert_eq!(
        wrapped,
        Value::Vec2((
            Sx::Let { name: s("acc"), value: Box::new(lit(5)), body: Box::new(Sx::Var(s("acc"))) },
            Sx::CoordX,
        ))
    );
    let call = Sx::UserCall { helper_id: s("h"), args: SxArgs::Cons(Box::new(Sx::Var(s("k"))), Box::new(SxArgs::Nil)) };
    let wrapped = Checker::apply_pending_lets(Value::Scalar(call.clone()), &pending);
    assert_eq!(wrapped, Value::Scalar(Sx::Let { name: s("k"), value: Box::new(lit(2)), body: Box::new(call) }));
}

#[test]
fn conditional_merge_selects_lane_by_lane() {
    let mut c = Checker::new();
    let cond = Sx::CoordX;
    let merged = c.merge_conditional_values("f", "a.fr", cond.clone(), Value::Scalar(lit(1)), Value::Scalar(lit(2)), span(0, 1));
    assert_eq!(merged, Some(Value::Scalar(Checker::select_sx_on_cond(cond.clone(), lit(1), lit(2)))));
    let taken = c.merge_conditional_values("f", "a.fr", lit(1), Value::Vec2((lit(1), lit(2))), Value::Vec2((lit(3), lit(4))), span(0, 1));
    assert_eq!(taken, Some(Value::Vec2((lit(1), lit(2)))));
    let layer = c.merge_conditional_values("f", "a.fr", cond.clone(), Value::Layer(3), Value::Layer(7), span(0, 1));
    assert_eq!(layer, Some(Value::Layer(0)));
    assert_eq!(c.layers, vec![LayerNode::If { cond: cond.clone(), then_layer: 3, else_layer: 7 }]);
    let colors = c.merge_conditional_values(
        "f",
        "a.fr",
        lit(0),
        Value::Color { rgba: [Num::whole(1); 4], space: ColorSpace::Srgb },
        Value::Color { rgba: [Num::whole(0); 4], space: ColorSpace::Srgb },
        span(0, 1),
    );
    assert_eq!(colors, Some(Value::ColorField { rgba: [lit(0), lit(0), lit(0), lit(0)], space: ColorSpace::Srgb }));
    let arrays = c.merge_conditional_values(
        "f",
        "a.fr",
        lit(1),
        Value::Array(Values::Cons(Box::new(Value::Scalar(lit(1))), Box::new(Values::Nil))),
        Value::Array(Values::Cons(Box::new(Value::Scalar(lit(2))), Box::new(Values::Nil))),
        span(0, 1),
    );
    assert_eq!(arrays, Some(Value::Array(Values::Cons(Box::new(Value::Scalar(lit(1))), Box::new(Values::Nil)))));
    let record = |v: i64| Value::Struct {
        ty_name: s("P"),
        fields: Fields::Cons(s("x"), Box::new(Value::Scalar(lit(v))), Box::new(Fields::Nil)),
    };
    assert_eq!(c.merge_conditional_values("f", "a.fr", lit(0), record(1), record(2), span(0, 1)), Some(record(2)));
    assert!(c.diags.is_empty());
    let bad = c.merge_conditional_values("g", "b.fr", cond, Value::Scalar(lit(1)), Value::Vec2((lit(1), lit(2))), span(4, 5));
    assert_eq!(bad, None);
    assert_eq!(c.diags.len(), 1);
    assert_eq!(c.diags[0].message, "function `g` has incompatible `if` branch value kinds: scalar vs vec2");
    assert_eq!(c.diags[0].file.as_deref(), Some("b.fr"));
    assert!(has_errors(&c.diags));
    assert_eq!(c.diags[0].severity, Severity::Error);
}

#[test]
fn overload_scores_rank_argument_hints() {
    assert_eq!(Checker::non_scalar_shape_score(&FnValueTy::Vec2, None), Some(0));
    assert_eq!(Checker::non_scalar_shape_score(&FnValueTy::CoordLike, Some("vec2")), Some(3));
    assert_eq!(Checker::non_scalar_shape_score(&FnValueTy::Vec3, Some("vec2")), None);
    assert_eq!(Checker::non_scalar_shape_score(&FnValueTy::TypeVar(s("T")), Some("color")), Some(3));
    let int_lit = SExpr { node: Expr::Num(Num::whole(3), Unit::Unitless), span: span(0, 1) };
    let frac_lit = SExpr { node: Expr::Num(Num::ratio(1, 2).unwrap(), Unit::Unitless), span: span(0, 1) };
    let big = SExpr { node: Expr::Num(Num::whole(3_000_000_000), Unit::Unitless), span: span(0, 1) };
    let neg = SExpr { node: Expr::Unary(fresco::ast::UnOp::Neg, Box::new(int_lit.clone_sexpr())), span: span(0, 1) };
    let cast = SExpr { node: Expr::Call { name: s("u32"), name_span: span(0, 1), args: Args::Nil }, span: span(0, 1) };
    assert_eq!(Checker::scalar_arg_hint(&int_lit), Some((true, true, false, false, true)));
    assert_eq!(Checker::scalar_arg_hint(&frac_lit), Some((false, false, false, false, false)));
    assert_eq!(Checker::scalar_arg_hint(&big), Some((true, true, false, false, false)));
    assert_eq!(Checker::scalar_arg_hint(&neg), Some((true, false, true, false, true)));
    assert_eq!(Checker::scalar_arg_hint(&cast), Some((true, true, true, true, false)));
    assert_eq!(Checker::scalar_arg_hint(&var("x", 0)), None);
    let hint = Checker::scalar_arg_hint(&int_lit);
    assert_eq!(Checker::scalar_specialization_score(ScalarSpecialization::F32, hint), Some(1));
    assert_eq!(Checker::scalar_specialization_score(ScalarSpecialization::I32, hint), Some(3));
    assert_eq!(Checker::scalar_specialization_score(ScalarSpecialization::U32, Checker::scalar_arg_hint(&neg)), None);
    assert_eq!(Checker::scalar_specialization_score(ScalarSpecialization::F32, Checker::scalar_arg_hint(&frac_lit)), Some(3));
    assert_eq!(Checker::scalar_specialization_score(ScalarSpecialization::Any, None), Some(0));
    assert_eq!(Checker::scalar_specialization_score(ScalarSpecialization::I32, Checker::scalar_arg_hint(&cast)), None);
    let _ = Arg { name: None, value: var("x", 0) };
}

#[test]
fn statements_report_their_spans_and_kinds() {
    let assign = Stmt::Assign { name_span: span(1, 2), span: span(0, 9) };
    assert_eq!(fn_stmt_span_kind(&assign), (span(1, 2), "assignment"));
    assert_eq!(stmt_span(&assign), span(0, 9));
    let local = Stmt::LocalFnDecl(LocalFnSpans { name_span: span(3, 4), span: span(0, 20) });
    assert_eq!(fn_stmt_span_kind(&local), (span(3, 4), "local fn declaration"));
    assert_eq!(stmt_span(&local), span(0, 20));
    assert_eq!(fn_stmt_span_kind(&Stmt::ReturnVoid { span: span(5, 6) }), (span(5, 6), "return"));
    assert_eq!(compose_entry_span(&ComposeEntry::Expr { expr: var("a", 7) }), span(7, 8));
    assert_eq!(compose_entry_span(&ComposeEntry::For { span: span(2, 3) }), span(2, 3));
}

#[test]
fn assign_rewrites_only_the_innermost_binding_and_records_its_scope() {
    let mut c = Checker::new();
    c.bind(s("x"), Value::Scalar(lit(1)));
    c.scopes.push(Vec::new());
    c.bind(s("x"), Value::Scalar(lit(5)));
    c.assignment_scopes.push(Vec::new());
    c.assignment_scopes.push(vec![(0, s("y"))]);
    assert!(c.assign("x", Value::Scalar(lit(7))));
    assert_eq!(c.scopes[1], vec![(s("x"), Value::Scalar(lit(7)))]);
    assert_eq!(c.scopes[0], vec![(s("x"), Value::Scalar(lit(1)))]);
    assert_eq!(c.assignment_scopes[0], vec![(1, s("x"))]);
    assert_eq!(c.assignment_scopes[1], vec![(0, s("y")), (1, s("x"))]);
    c.scopes.pop();
    assert_eq!(c.lookup("x"), Some(Value::Scalar(lit(1))));
    assert!(c.assign("x", Value::Scalar(lit(9))));
    assert_eq!(c.assignment_scopes[0], vec![(1, s("x")), (0, s("x"))]);
}
