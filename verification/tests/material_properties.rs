use fresco::ast::{Expr, SExpr, StructDecl, StructFieldDecl, Unit};
use fresco::diag::Span;
use fresco::num::Num;
use fresco::surface::{
    validate_material_properties, MaterialChannelDecl, MaterialPropertiesDecl,
    ResolvedMaterialProperties,
};
use fresco::sx::Sx;
use fresco::value::Value;

fn span(start: usize, end: usize) -> Span {
    Span { start, end }
}

fn n(v: Num) -> SExpr {
    SExpr { node: Expr::Num(v, Unit::Unitless), span: span(0, 1) }
}

fn num_ratio(a: i64, b: u64) -> SExpr {
    n(Num::ratio(a, b).unwrap())
}

fn whole(v: i64) -> Num {
    Num::whole(v)
}

fn color(rgba: [i64; 4]) -> SExpr {
    SExpr {
        node: Expr::Color([whole(rgba[0]), whole(rgba[1]), whole(rgba[2]), whole(rgba[3])]),
        span: span(0, 1),
    }
}

fn vec3(x: i64, y: i64, z: i64) -> SExpr {
    SExpr {
        node: Expr::Vec3(Box::new(n(whole(x))), Box::new(n(whole(y))), Box::new(n(whole(z)))),
        span: span(0, 1),
    }
}

fn channel(name: &str, ty_name: &str, default: Option<SExpr>) -> MaterialChannelDecl {
    MaterialChannelDecl {
        compose: None,
        name: name.to_string(),
        name_span: span(1, 2),
        ty_name: ty_name.to_string(),
        ty_span: span(3, 4),
        default,
        span: span(1, 4),
    }
}

fn properties_decl(
    name: &str,
    extends_name: Option<&str>,
    channels: Vec<MaterialChannelDecl>,
) -> MaterialPropertiesDecl {
    MaterialPropertiesDecl {
        is_default: false,
        name: name.to_string(),
        name_span: span(10, 11),
        extends_name: extends_name.map(str::to_string),
        extends_span: extends_name.map(|_| span(12, 13)),
        channels,
        composition: None,
        evaluator: None,
        span: span(10, 20),
    }
}

#[test]
fn material_properties_inheritance_flattens_parent_channels() {
    let base = properties_decl(
        "base_surface",
        None,
        vec![
            channel("albedo", "color", Some(color([1, 0, 0, 1]))),
            channel("roughness", "f32", Some(num_ratio(1, 2))),
        ],
    );
    let child = properties_decl(
        "pbr_surface",
        Some("base_surface"),
        vec![
            channel("roughness", "f32", Some(num_ratio(3, 4))),
            channel("metallic", "f32", Some(num_ratio(1, 10))),
        ],
    );

    let resolved = validate_material_properties(&[base, child], &[])
        .expect("valid inheritance should resolve");

    let resolved_child: &ResolvedMaterialProperties = resolved
        .get("pbr_surface")
        .expect("flattened child properties should be present");
    assert_eq!(resolved_child.channels.len(), 3);
    assert_eq!(resolved_child.channels[0].name, "albedo");
    assert_eq!(resolved_child.channels[1].name, "roughness");
    assert_eq!(resolved_child.channels[2].name, "metallic");
    let three_quarters = Num::ratio(3, 4).unwrap();
    assert!(
        matches!(resolved_child.channels[1].default_payload.as_ref().unwrap(), Value::Scalar(Sx::Lit(v)) if *v == three_quarters)
    );
}

#[test]
fn material_properties_accepts_spatial_vec3_channel_type() {
    let props = properties_decl(
        "standard_like",
        None,
        vec![channel("normal", "vec3 in world", Some(vec3(0, 0, 1)))],
    );

    let resolved = validate_material_properties(&[props], &[])
        .expect("spatial vec3 channel type should be accepted");

    let resolved_props = resolved
        .get("standard_like")
        .expect("resolved material_properties should be present");
    assert_eq!(resolved_props.channels.len(), 1);
    assert_eq!(resolved_props.channels[0].name, "normal");
    assert_eq!(resolved_props.channels[0].ty_name, "vec3 in world");
}

#[test]
fn material_properties_inherited_spatial_vec3_override_requires_explicit_transform() {
    let base = properties_decl(
        "base_surface",
        None,
        vec![channel("normal", "vec3 in world", Some(vec3(0, 0, 1)))],
    );
    let derived = properties_decl(
        "derived_surface",
        Some("base_surface"),
        vec![channel("normal", "vec3 in object", Some(vec3(1, 0, 0)))],
    );

    let diags = match validate_material_properties(&[base, derived], &[]) {
        Ok(_) => panic!("override across labeled spaces should require an explicit transform"),
        Err(diags) => diags,
    };

    assert!(
        diags
            .iter()
            .any(|d| d.message.contains("no implicit space transform is available")),
        "expected transform-required diagnostic, got: {diags:?}"
    );
}

#[test]
fn material_properties_inherited_unlabeled_vec3_can_override_labeled_vec3() {
    let base = properties_decl(
        "base_surface",
        None,
        vec![channel("normal", "vec3", Some(vec3(0, 0, 1)))],
    );
    let derived = properties_decl(
        "derived_surface",
        Some("base_surface"),
        vec![channel("normal", "vec3 in object", Some(vec3(1, 0, 0)))],
    );

    let resolved = validate_material_properties(&[base, derived], &[])
        .expect("unlabeled vector channel should bridge to labeled vector channel");

    let resolved_child = resolved
        .get("derived_surface")
        .expect("resolved child material_properties should be present");
    assert_eq!(resolved_child.channels.len(), 1);
    assert_eq!(resolved_child.channels[0].name, "normal");
    let (one, zero) = (Num::whole(1), Num::whole(0));
    assert!(
        matches!(resolved_child.channels[0].default_payload.as_ref().unwrap(), Value::Vec3((Sx::Lit(x), Sx::Lit(y), Sx::Lit(z))) if (*x, *y, *z) == (one, zero, zero))
    );
}

fn with_default(mut d: MaterialPropertiesDecl) -> MaterialPropertiesDecl {
    d.is_default = true;
    d
}

fn errors_of(r: Result<fresco::surface::ResolvedTable, Vec<fresco::diag::Diag>>) -> Vec<String> {
    match r {
        Ok(_) => panic!("expected diagnostics"),
        Err(diags) => diags.into_iter().map(|d| d.message).collect(),
    }
}

#[test]
fn duplicate_declarations_are_rejected() {
    let a = properties_decl("surf", None, vec![]);
    let b = properties_decl("surf", None, vec![]);
    match validate_material_properties(&[a, b], &[]) {
        Ok(_) => panic!("duplicates must be rejected"),
        Err(diags) => {
            assert_eq!(diags[0].message, "duplicate material_properties declaration `surf`");
            assert_eq!(diags[0].help.as_deref(), Some("first declaration appears at bytes 10..11"));
        }
    }
}

#[test]
fn more_than_one_default_is_ambiguous() {
    let a = with_default(properties_decl("a", None, vec![]));
    let b = with_default(properties_decl("b", None, vec![]));
    let c = with_default(properties_decl("c", None, vec![]));
    assert_eq!(
        errors_of(validate_material_properties(&[a, b, c], &[])),
        vec!["multiple @default_material declarations are ambiguous".to_string()]
    );
}

#[test]
fn inheritance_cycles_are_reported_with_their_chain() {
    let a = properties_decl("a", Some("b"), vec![]);
    let b = properties_decl("b", Some("a"), vec![]);
    match validate_material_properties(&[a, b], &[]) {
        Ok(_) => panic!("cycles must be rejected"),
        Err(diags) => {
            assert_eq!(diags[0].message, "cyclic material_properties inheritance involving `a`");
            assert_eq!(diags[0].help.as_deref(), Some("inheritance chain: a -> b -> a"));
            assert_eq!(diags[0].label.as_deref(), Some("inheritance cycle"));
        }
    }
}

#[test]
fn channel_types_and_defaults_are_checked() {
    let bad_type = properties_decl("p", None, vec![channel("c", "mat5", None)]);
    assert_eq!(
        errors_of(validate_material_properties(&[bad_type], &[])),
        vec!["unsupported material channel type `mat5` for `p.c`".to_string()]
    );
    let mismatch = properties_decl("p", None, vec![channel("c", "f32", Some(color([1, 1, 1, 1])))]);
    assert_eq!(
        errors_of(validate_material_properties(&[mismatch], &[])),
        vec!["default for material_properties channel `p.c` does not match declared type `f32`".to_string()]
    );
    let dup = properties_decl("p", None, vec![channel("c", "f32", None), channel("c", "f32", None)]);
    assert_eq!(
        errors_of(validate_material_properties(&[dup], &[])),
        vec!["duplicate channel `c` in material_properties `p`".to_string()]
    );
    let base = properties_decl("base", None, vec![channel("c", "f32", None)]);
    let child = properties_decl("child", Some("base"), vec![channel("c", "vec3", None)]);
    assert_eq!(
        errors_of(validate_material_properties(&[base, child], &[])),
        vec!["material_properties `child` overrides inherited channel `c` with type `vec3`, but the inherited channel uses `f32`".to_string()]
    );
}

#[test]
fn record_and_array_channel_types() {
    let structs = vec![
        StructDecl {
            name: "Pair".to_string(),
            fields: vec![
                StructFieldDecl { name: "a".to_string(), ty_name: "f32".to_string(), ty_span: span(0, 1) },
                StructFieldDecl { name: "b".to_string(), ty_name: "array<vec2, 2>".to_string(), ty_span: span(0, 1) },
            ],
        },
        StructDecl {
            name: "Loop".to_string(),
            fields: vec![StructFieldDecl { name: "me".to_string(), ty_name: "Loop".to_string(), ty_span: span(0, 1) }],
        },
    ];
    let ok = properties_decl("p", None, vec![channel("pair", "Pair", None), channel("arr", "array<f32, 4>", None)]);
    assert!(validate_material_properties(&[ok], &structs).is_ok());
    let looped = properties_decl("q", None, vec![channel("l", "Loop", None)]);
    assert_eq!(
        errors_of(validate_material_properties(&[looped], &structs)),
        vec!["unsupported material channel type `Loop` for `q.l`".to_string()]
    );
    let empty = properties_decl("r", None, vec![channel("e", "array<f32, 0>", None)]);
    assert!(validate_material_properties(&[empty], &structs).is_err());
}

#[test]
fn defaults_may_name_declared_channels_and_missing_parents_give_nothing() {
    let p = properties_decl(
        "p",
        Some("absent"),
        vec![channel("a", "f32", None), channel("b", "f32", Some(SExpr { node: Expr::Var("a".to_string()), span: span(0, 1) }))],
    );
    let resolved = validate_material_properties(&[p], &[]).expect("resolves");
    let props = resolved.get("p").expect("present");
    assert_eq!(props.channels.len(), 2);
    assert_eq!(props.channels[1].default_payload, Some(Value::Scalar(Sx::Param("a.x".to_string()))));
}

#[test]
fn defaults_outside_the_evaluated_forms_are_reported() {
    let product = SExpr {
        node: Expr::Binary(fresco::ast::BinOp::Mul, Box::new(num_ratio(1, 4)), Box::new(n(whole(2)))),
        span: span(7, 9),
    };
    let props = properties_decl("p", None, vec![channel("gloss", "f32", Some(product))]);
    let errs = validate_material_properties(&[props], &[]).unwrap_err();
    assert!(errs.iter().any(|d| d.span == span(7, 9)
        && d.message == "material channel defaults take literals, channel names, negation, and vectors of scalars"));
}
