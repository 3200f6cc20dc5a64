use fresco::naming::{
    apply_variant_pattern, expand_binding_pattern, expand_type_bindings, format_variant_value,
    hex, levenshtein_distance, nearest_material_arg_name, parse_u32_exec, permutation_values,
    EvaluationPermutationAtom, EvaluationPermutationSpec,
};
use fresco::text::{decimal, join};
use fresco::ast::{BinOp, Expr, Unit};
use fresco::naming::{evaluate_variant_predicate, SchemaEvaluatorPermutationDecl};
use fresco::types::{compact, spatial_qualifier, strip_spatial_type_suffix, SpatialQualifier};

fn strings(v: &[&str]) -> Vec<String> {
    v.iter().map(|s| s.to_string()).collect()
}

fn bindings(v: &[(&str, &str)]) -> Vec<(String, String)> {
    v.iter().map(|(a, b)| (a.to_string(), b.to_string())).collect()
}

#[test]
fn edit_distance_counts_single_character_edits() {
    assert_eq!(levenshtein_distance("kitten", "sitting"), 3);
    assert_eq!(levenshtein_distance("", "abc"), 3);
    assert_eq!(levenshtein_distance("abc", ""), 3);
    assert_eq!(levenshtein_distance("same", "same"), 0);
    assert_eq!(levenshtein_distance("flaw", "lawn"), 2);
}

#[test]
fn edit_distance_is_symmetric_on_examples() {
    for (a, b) in [("roughness", "rougness"), ("metal", "metallic"), ("ab", "ba")] {
        assert_eq!(levenshtein_distance(a, b), levenshtein_distance(b, a));
    }
}

#[test]
fn nearest_name_suggests_close_candidates_only() {
    let candidates = strings(&["albedo", "roughness", "metallic"]);
    assert_eq!(
        nearest_material_arg_name("rougness", &candidates),
        Some("roughness".to_string())
    );
    assert_eq!(
        nearest_material_arg_name("ROUGHNESS", &candidates),
        Some("roughness".to_string())
    );
    assert_eq!(nearest_material_arg_name("emission", &candidates), None);
    assert_eq!(nearest_material_arg_name("x", &strings(&[])), None);
}

#[test]
fn nearest_name_uses_tight_threshold_for_short_names() {
    let candidates = strings(&["ior"]);
    assert_eq!(nearest_material_arg_name("io", &candidates), Some("ior".to_string()));
    assert_eq!(nearest_material_arg_name("a", &candidates), None);
}

#[test]
fn hex_rendering_and_decimal_parsing() {
    assert_eq!(hex(255), "ff");
    assert_eq!(hex(0), "0");
    assert_eq!(hex(4096), "1000");
    assert_eq!(decimal(0), "0");
    assert_eq!(decimal(1207), "1207");
    assert_eq!(parse_u32_exec("42"), Some(42));
    assert_eq!(parse_u32_exec("+7"), Some(7));
    assert_eq!(parse_u32_exec(""), None);
    assert_eq!(parse_u32_exec("+"), None);
    assert_eq!(parse_u32_exec("12a"), None);
    assert_eq!(parse_u32_exec("4294967295"), Some(4294967295));
    assert_eq!(parse_u32_exec("4294967296"), None);
}

#[test]
fn variant_values_format_with_hex_hint() {
    assert_eq!(format_variant_value("255", Some("x")), "ff");
    assert_eq!(format_variant_value("abc", Some("x")), "abc");
    assert_eq!(format_variant_value("255", None), "255");
    assert_eq!(format_variant_value("255", Some("d")), "255");
}

#[test]
fn binding_patterns_expand_both_placeholder_forms() {
    let b = bindings(&[("mode", "fast"), ("level", "255")]);
    assert_eq!(expand_binding_pattern("shade_{mode}_${level:x}", &b), "shade_fast_ff");
    assert_eq!(apply_variant_pattern("{missing}_{mode}", &b), "missing_fast");
    assert_eq!(expand_binding_pattern("open_{mode", &b), "open_fast");
    assert_eq!(expand_binding_pattern("plain", &b), "plain");
}

#[test]
fn type_bindings_replace_whole_tokens() {
    let b = bindings(&[("T", "vec3"), ("N", "4")]);
    assert_eq!(expand_type_bindings(" array<T, N> ", &b), "array<vec3, 4>");
    assert_eq!(expand_type_bindings("Tx", &b), "Tx");
}

#[test]
fn permutation_values_enumerate_axis_domains() {
    let range = EvaluationPermutationSpec::Range { start: 2, end: 4 };
    assert_eq!(permutation_values(&range), strings(&["2", "3", "4"]));
    let empty = EvaluationPermutationSpec::Range { start: 5, end: 3 };
    assert!(permutation_values(&empty).is_empty());
    let list = EvaluationPermutationSpec::List(vec![
        EvaluationPermutationAtom::Ident("lit".to_string()),
        EvaluationPermutationAtom::Number(7),
    ]);
    assert_eq!(permutation_values(&list), strings(&["lit", "7"]));
    let single = EvaluationPermutationSpec::Single(EvaluationPermutationAtom::Number(0));
    assert_eq!(permutation_values(&single), strings(&["0"]));
}

#[test]
fn spatial_suffixes_strip_to_the_base_type() {
    assert_eq!(strip_spatial_type_suffix("  vec3 in world "), "vec3");
    assert_eq!(strip_spatial_type_suffix("vec3 from object to world"), "vec3");
    assert_eq!(strip_spatial_type_suffix("vec3 from object"), "vec3 from object");
    assert_eq!(strip_spatial_type_suffix(" in world"), "in world");
    assert_eq!(strip_spatial_type_suffix("f32"), "f32");
}

#[test]
fn spatial_qualifiers_are_parsed() {
    assert_eq!(
        spatial_qualifier("vec3 in world"),
        Some(SpatialQualifier::In("world".to_string()))
    );
    assert_eq!(
        spatial_qualifier("vec3 from object to world"),
        Some(SpatialQualifier::FromTo { from: "object".to_string(), to: "world".to_string() })
    );
    assert_eq!(spatial_qualifier("vec3"), None);
    assert_eq!(spatial_qualifier("vec3 from  to world"), None);
}

#[test]
fn type_names_compact_without_whitespace() {
    assert_eq!(compact(" array< f32 , 4 > "), "array<f32,4>");
}

#[test]
fn join_separates_parts() {
    assert_eq!(join(&strings(&["a", "b", "c"]), " -> "), "a -> b -> c");
    assert_eq!(join(&strings(&[]), ", "), "");
    assert_eq!(join(&strings(&["only"]), ", "), "only");
}

fn pred_span() -> fresco::diag::Span {
    fresco::diag::Span { start: 0, end: 1 }
}

fn pexpr(node: fresco::ast::Expr) -> fresco::ast::SExpr {
    fresco::ast::SExpr { node, span: pred_span() }
}

fn predicate(op: fresco::ast::BinOp, axis: &str, value: fresco::ast::Expr) -> fresco::ast::SExpr {
    pexpr(fresco::ast::Expr::Binary(
        op,
        Box::new(pexpr(fresco::ast::Expr::Var(axis.to_string()))),
        Box::new(pexpr(value)),
    ))
}

fn quality_axes() -> Vec<fresco::naming::SchemaEvaluatorPermutationDecl> {
    vec![
        SchemaEvaluatorPermutationDecl {
            name: "quality".to_string(),
            spec: EvaluationPermutationSpec::List(vec![
                EvaluationPermutationAtom::Ident("low".to_string()),
                EvaluationPermutationAtom::Ident("high".to_string()),
            ]),
        },
        SchemaEvaluatorPermutationDecl {
            name: "lights".to_string(),
            spec: EvaluationPermutationSpec::Range { start: 1, end: 4 },
        },
    ]
}

#[test]
fn variant_predicates_compare_axis_values() {
    let bindings = vec![("quality".to_string(), "high".to_string()), ("lights".to_string(), "2".to_string())];
    let axes = quality_axes();
    let eq_high = predicate(BinOp::Eq, "quality", Expr::Var("high".to_string()));
    assert_eq!(evaluate_variant_predicate(&eq_high, &bindings, &axes), Ok(true));
    let ne_high = predicate(BinOp::Ne, "quality", Expr::Var("high".to_string()));
    assert_eq!(evaluate_variant_predicate(&ne_high, &bindings, &axes), Ok(false));
    let two = predicate(BinOp::Eq, "lights", Expr::Num(fresco::num::Num::whole(2), Unit::Unitless));
    assert_eq!(evaluate_variant_predicate(&two, &bindings, &axes), Ok(true));
    let three = predicate(BinOp::Eq, "lights", Expr::Num(fresco::num::Num::whole(3), Unit::Unitless));
    assert_eq!(evaluate_variant_predicate(&three, &bindings, &axes), Ok(false));
}

#[test]
fn malformed_variant_predicates_are_explained() {
    let bindings = vec![("quality".to_string(), "high".to_string())];
    let axes = quality_axes();
    let medium = predicate(BinOp::Eq, "quality", Expr::Var("medium".to_string()));
    assert_eq!(
        evaluate_variant_predicate(&medium, &bindings, &axes),
        Err("`medium` is not a value of evaluation axis `quality`".to_string())
    );
    let unknown = predicate(BinOp::Eq, "size", Expr::Var("big".to_string()));
    assert_eq!(
        evaluate_variant_predicate(&unknown, &bindings, &axes),
        Err("unknown evaluation axis `size`".to_string())
    );
    let lt = predicate(BinOp::Lt, "quality", Expr::Var("low".to_string()));
    assert_eq!(
        evaluate_variant_predicate(&lt, &bindings, &axes),
        Err("variant predicate supports == and !=".to_string())
    );
    let half = predicate(BinOp::Eq, "quality", Expr::Num(fresco::num::Num::ratio(1, 2).unwrap(), Unit::Unitless));
    assert_eq!(
        evaluate_variant_predicate(&half, &bindings, &axes),
        Err("variant predicate requires an axis value".to_string())
    );
    let bare = pexpr(Expr::Var("quality".to_string()));
    assert_eq!(
        evaluate_variant_predicate(&bare, &bindings, &axes),
        Err("variant predicate requires an explicit axis comparison".to_string())
    );
    let flipped = pexpr(Expr::Binary(
        BinOp::Eq,
        Box::new(pexpr(Expr::Num(fresco::num::Num::one(), Unit::Unitless))),
        Box::new(pexpr(Expr::Var("quality".to_string()))),
    ));
    assert_eq!(
        evaluate_variant_predicate(&flipped, &bindings, &axes),
        Err("variant predicate must compare a declared axis".to_string())
    );
}
