use fresco::ast::BinOp;
use fresco::checker::Checker;
use fresco::fold::SymbolicFactorOp;
use fresco::num::Num;
use fresco::sx::{BinaryOp, Sx, SxVec, TernaryOp, UnaryOp};

fn lit(n: i64, d: u64) -> Sx {
    Sx::Lit(Num::ratio(n, d).unwrap())
}

fn mul(a: Sx, b: Sx) -> Sx {
    Sx::Binary(BinaryOp::Mul, Box::new(a), Box::new(b))
}

fn length_xy() -> Sx {
    Sx::Length(SxVec::V2(Box::new(Sx::CoordX), Box::new(Sx::CoordY)))
}

#[test]
fn fold_bin_if_literals_folds_literal_subgraphs() {
    let folded = Checker::fold_bin_if_literals(BinOp::Add, lit(5, 4), lit(11, 4));
    assert_eq!(folded, lit(4, 1));
}

#[test]
fn fold_bin_if_literals_eliminates_safe_identities() {
    assert_eq!(
        Checker::fold_bin_if_literals(BinOp::Sub, Sx::CoordX, lit(0, 1)),
        Sx::CoordX
    );
    assert_eq!(
        Checker::fold_bin_if_literals(BinOp::Mul, Sx::CoordY, lit(1, 1)),
        Sx::CoordY
    );
    assert_eq!(
        Checker::fold_bin_if_literals(BinOp::Div, Sx::CoordY, lit(1, 1)),
        Sx::CoordY
    );
}

#[test]
fn fold_bin_if_literals_normalizes_commutative_operands() {
    match Checker::fold_bin_if_literals(BinOp::Add, Sx::CoordX, lit(0, 1)) {
        Sx::Binary(BinaryOp::Add, left, right) => {
            assert!(matches!(*left, Sx::Lit(_)));
            assert!(matches!(*right, Sx::CoordX));
        }
        other => panic!("expected Add, found {other:?}"),
    }

    match Checker::fold_bin_if_literals(BinOp::Mul, Sx::CoordY, lit(2, 1)) {
        Sx::Binary(BinaryOp::Mul, left, right) => {
            assert!(matches!(*left, Sx::Lit(_)));
            assert!(matches!(*right, Sx::CoordY));
        }
        other => panic!("expected Mul, found {other:?}"),
    }
}

#[test]
fn factor_symbolic_pair_factors_shared_positive_symbol_through_max() {
    let lhs = mul(lit(3, 2), length_xy());
    let rhs = mul(lit(2, 1), length_xy());

    let factored = Checker::factor_symbolic_pair(SymbolicFactorOp::Max, lhs, rhs)
        .expect("expected shared-factor max rewrite");

    assert_eq!(factored, mul(lit(2, 1), length_xy()));
}

#[test]
fn factor_symbolic_pair_collapses_shared_nonnegative_symbol_through_sub() {
    let shape = Sx::Unary(UnaryOp::Abs, Box::new(Sx::CoordX));
    let lhs = mul(lit(3, 2), shape.clone());
    let rhs = mul(lit(1, 2), shape.clone());

    let factored = Checker::factor_symbolic_pair(SymbolicFactorOp::Sub, lhs, rhs)
        .expect("expected shared-factor subtraction rewrite");

    assert_eq!(factored, shape);
}

#[test]
fn factor_symbolic_pair_cancels_shared_positive_symbol_through_div() {
    let symbol = Sx::Binary(BinaryOp::Max, Box::new(length_xy()), Box::new(lit(1, 1)));
    let lhs = mul(lit(3, 1), symbol.clone());
    let rhs = mul(lit(2, 1), symbol);

    let factored = Checker::factor_symbolic_pair(SymbolicFactorOp::Div, lhs, rhs)
        .expect("expected shared-factor division rewrite");

    assert_eq!(factored, lit(3, 2));
}

#[test]
fn static_folding_and_rewrite_guards_share_vector_and_binding_semantics() {
    let expression = Sx::Let {
        name: "n".into(),
        value: Box::new(lit(4, 1)),
        body: Box::new(Sx::Length(SxVec::V2(Box::new(lit(3, 1)), Box::new(Sx::Var("n".into()))))),
    };
    assert_eq!(Checker::try_eval_static_scalar(&expression), Some(Num::whole(5)));
    assert_eq!(expression.try_eval_with_vars(&Vec::new()), Some(Num::whole(5)));
    let invalid = Sx::Ternary(
        TernaryOp::Clamp,
        Box::new(lit(1, 2)),
        Box::new(lit(2, 1)),
        Box::new(lit(1, 1)),
    );
    assert_eq!(Checker::try_eval_static_scalar(&invalid), None);
    assert_eq!(invalid.try_eval_with_vars(&Vec::new()), None);
}

#[test]
fn static_values_bind_variables_and_clamp() {
    let vars = vec![("k".to_string(), Num::whole(2)), ("k".to_string(), Num::whole(7))];
    let e = Sx::Binary(BinaryOp::Mul, Box::new(Sx::Var("k".into())), Box::new(lit(3, 1)));
    assert_eq!(e.try_eval_with_vars(&vars), Some(Num::whole(21)));
    assert_eq!(Checker::try_eval_static_scalar(&e), None);
    let c = Sx::Ternary(TernaryOp::Clamp, Box::new(lit(5, 1)), Box::new(lit(0, 1)), Box::new(lit(1, 1)));
    assert_eq!(Checker::try_eval_static_scalar(&c), Some(Num::whole(1)));
    let irrational = Sx::Length(SxVec::V2(Box::new(lit(1, 1)), Box::new(lit(1, 1))));
    assert_eq!(Checker::try_eval_static_scalar(&irrational), None);
    let quarter = Sx::Length(SxVec::V3(Box::new(lit(1, 4)), Box::new(lit(0, 1)), Box::new(lit(0, 1))));
    assert_eq!(Checker::try_eval_static_scalar(&quarter), Some(Num::ratio(1, 4).unwrap()));
}
