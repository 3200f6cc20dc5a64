use fresco::ast::{Expr, SExpr, Unit};
use fresco::diag::{Severity, Span};
use fresco::models::{validate_material_models, SchemaEvaluatorDecl, SchemaProgramDecl};
use fresco::num::Num;
use fresco::surface::{validate_material_properties, MaterialChannelDecl, MaterialPropertiesDecl};

fn span(start: usize, end: usize) -> Span {
    Span { start, end }
}

fn channel(name: &str) -> MaterialChannelDecl {
    MaterialChannelDecl {
        compose: None,
        name: name.to_string(),
        name_span: span(1, 2),
        ty_name: "f32".to_string(),
        ty_span: span(3, 4),
        default: Some(SExpr { node: Expr::Num(Num::whole(1), Unit::Unitless), span: span(5, 6) }),
        span: span(1, 6),
    }
}

fn decl(name: &str, parent: Option<&str>, channels: Vec<MaterialChannelDecl>) -> MaterialPropertiesDecl {
    MaterialPropertiesDecl {
        is_default: false,
        name: name.to_string(),
        name_span: span(10, 11),
        extends_name: parent.map(str::to_string),
        extends_span: parent.map(|_| span(12, 13)),
        channels,
        composition: None,
        evaluator: None,
        span: span(10, 20),
    }
}

fn program(name: &str, material: &str, outputs: usize) -> SchemaProgramDecl {
    let mut output = Vec::new();
    for _ in 0..outputs {
        output.push(SExpr { node: Expr::Var("shade".to_string()), span: span(30, 35) });
    }
    SchemaProgramDecl {
        name: name.to_string(),
        name_span: span(40, 41),
        material_model_name: material.to_string(),
        material_model_span: span(42, 43),
        output,
    }
}

fn evaluator(name: &str, material: &str) -> SchemaEvaluatorDecl {
    SchemaEvaluatorDecl {
        name: name.to_string(),
        name_span: span(50, 51),
        material_model_name: material.to_string(),
        material_model_span: span(52, 53),
        contract_span: None,
        permutations: Vec::new(),
        specialize_pattern: None,
    }
}

fn decls() -> Vec<MaterialPropertiesDecl> {
    let mut base = decl("base", None, vec![channel("albedo")]);
    base.composition = Some("layered".to_string());
    base.is_default = true;
    vec![base, decl("child", Some("base"), vec![channel("sheen")])]
}

#[test]
fn models_mirror_the_resolved_properties() {
    let ds = decls();
    let resolved = validate_material_properties(&ds, &[]).unwrap();
    let models = validate_material_models(&resolved, &ds, &[], &[]).unwrap();
    assert_eq!(models.entries.len(), resolved.entries.len());
    let child = &models.entries.iter().find(|(n, _)| n == "child").unwrap().1;
    assert_eq!(child.parent.as_deref(), Some("base"));
    assert_eq!(child.composition.as_deref(), Some("layered"));
    assert!(!child.is_default);
    assert_eq!(child.channels.len(), 2);
    let base = &models.entries.iter().find(|(n, _)| n == "base").unwrap().1;
    assert!(base.is_default);
    assert_eq!(base.parent, None);
}

#[test]
fn programs_bind_and_are_inherited_with_a_warning() {
    let ds = decls();
    let resolved = validate_material_properties(&ds, &[]).unwrap();
    let programs = [program("base_prog", "base", 1)];
    let models = validate_material_models(&resolved, &ds, &[], &programs).unwrap();
    let child = &models.entries.iter().find(|(n, _)| n == "child").unwrap().1;
    assert_eq!(child.schema_program_name.as_deref(), Some("base_prog"));
    assert!(child.schema_program_names.is_empty());
    let base = &models.entries.iter().find(|(n, _)| n == "base").unwrap().1;
    assert_eq!(base.schema_program_names, vec!["base_prog".to_string()]);
}

#[test]
fn program_and_evaluator_errors_are_reported() {
    let ds = decls();
    let resolved = validate_material_properties(&ds, &[]).unwrap();
    let errs = validate_material_models(&resolved, &ds, &[], &[program("p", "base", 0)]).unwrap_err();
    assert_eq!(errs[0].message, "schema program requires an explicit output expression");
    let errs = validate_material_models(&resolved, &ds, &[], &[program("p", "base", 1), program("q", "base", 1)])
        .unwrap_err();
    assert!(errs.iter().any(|d| d.message
        == "material_properties `base` has multiple schema_program declarations (`p` and `q`)"));
    let errs = validate_material_models(&resolved, &ds, &[], &[program("p", "base", 1), program("p", "child", 1)])
        .unwrap_err();
    assert!(errs.iter().any(|d| d.message == "duplicate schema_program declaration `p`"
        && d.help.as_deref() == Some("first declaration appears at bytes 40..41")));
    let errs = validate_material_models(&resolved, &ds, &[evaluator("e", "missing")], &[]).unwrap_err();
    assert_eq!(errs[0].message, "schema_evaluator `e` references unknown material_properties `missing`");
    assert_eq!(errs[0].severity, Severity::Error);
    let errs = validate_material_models(&resolved, &ds, &[evaluator("e", "base"), evaluator("f", "base")], &[])
        .unwrap_err();
    assert!(errs.iter().any(|d| d.message
        == "ambiguous evaluation models; select one with @evaluator(name) on the material schema"));
    let mut e = evaluator("e", "base");
    e.permutations.push("quality".to_string());
    let errs = validate_material_models(&resolved, &ds, &[e], &[]).unwrap_err();
    assert_eq!(errs[0].message, "schema_evaluator `e` declares permutations but no contract block");
    assert_eq!(errs[1].message, "schema_evaluator `e` declares permutations but no `specialize as` pattern");
    let models = validate_material_models(&resolved, &ds, &[evaluator("e", "base")], &[]).unwrap();
    let base = &models.entries.iter().find(|(n, _)| n == "base").unwrap().1;
    assert_eq!(base.schema_evaluator_name.as_deref(), Some("e"));
}
