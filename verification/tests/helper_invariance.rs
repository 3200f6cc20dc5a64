use fresco::checker::Checker;
use fresco::invariance::UserHelper;
use fresco::num::Num;
use fresco::sx::{BinaryOp, EntryInput, Sx, SxArgs, SxVec, UnaryOp};

fn lit(n: i64) -> Sx {
    Sx::Lit(Num::whole(n))
}

fn call(id: &str, args: Vec<Sx>) -> Sx {
    let mut list = SxArgs::Nil;
    for a in args.into_iter().rev() {
        list = SxArgs::Cons(Box::new(a), Box::new(list));
    }
    Sx::UserCall { helper_id: id.to_string(), args: list }
}

fn helper(id: &str, body: Vec<Sx>) -> UserHelper {
    UserHelper { id: id.to_string(), body, sample_point_invariant: false, needs_entry_inputs: false }
}

fn flags(c: &Checker, id: &str) -> (bool, bool) {
    let h = c.user_helpers.iter().find(|h| h.id == id).unwrap();
    (h.sample_point_invariant, h.needs_entry_inputs)
}

#[test]
fn expressions_of_literals_params_and_inputs_are_invariant() {
    let map = vec![("k".to_string(), true), ("d".to_string(), false)];
    let e = Sx::Binary(BinaryOp::Add, Box::new(lit(1)), Box::new(Sx::Param("p".to_string())));
    assert!(Checker::user_helper_sx_is_sample_point_invariant(&e, &map));
    let t = Sx::Unary(UnaryOp::Sin, Box::new(Sx::EntryInput(EntryInput::Time)));
    assert!(Checker::user_helper_sx_is_sample_point_invariant(&t, &map));
    let v = SxVec::V2(Box::new(lit(1)), Box::new(lit(2)));
    assert!(Checker::user_helper_sxvec_is_sample_point_invariant(&v, &map));
}

#[test]
fn derivatives_coordinates_and_unflagged_calls_vary() {
    let map = vec![("k".to_string(), true), ("d".to_string(), false)];
    let ddx = Sx::Unary(UnaryOp::Ddx, Box::new(lit(1)));
    assert!(!Checker::user_helper_sx_is_sample_point_invariant(&ddx, &map));
    assert!(!Checker::user_helper_sx_is_sample_point_invariant(&Sx::CoordX, &map));
    assert!(Checker::user_helper_sx_is_sample_point_invariant(&call("k", vec![lit(1)]), &map));
    assert!(!Checker::user_helper_sx_is_sample_point_invariant(&call("d", vec![lit(1)]), &map));
    assert!(!Checker::user_helper_sx_is_sample_point_invariant(&call("missing", vec![]), &map));
    assert!(!Checker::user_helper_sx_is_sample_point_invariant(&call("k", vec![Sx::CoordY]), &map));
    let body = vec![lit(1), ddx];
    assert!(!Checker::user_helper_body_is_sample_point_invariant(&body, &map));
    assert!(Checker::user_helper_body_is_sample_point_invariant(&vec![lit(3)], &map));
}

#[test]
fn invariance_is_the_greatest_consistent_assignment() {
    let mut c = Checker::new();
    c.user_helpers.push(helper("pure", vec![Sx::Binary(BinaryOp::Mul, Box::new(lit(2)), Box::new(Sx::Param("x".to_string())))]));
    c.user_helpers.push(helper("deriv", vec![Sx::Unary(UnaryOp::Fwidth, Box::new(Sx::Param("x".to_string())))]));
    c.user_helpers.push(helper("uses_deriv", vec![call("deriv", vec![lit(1)])]));
    c.user_helpers.push(helper("self_loop", vec![call("self_loop", vec![lit(1)])]));
    c.user_helpers.push(helper("timed", vec![call("pure", vec![Sx::EntryInput(EntryInput::Time)])]));
    c.compute_user_helper_sample_point_invariance();
    assert_eq!(flags(&c, "pure").0, true);
    assert_eq!(flags(&c, "deriv").0, false);
    assert_eq!(flags(&c, "uses_deriv").0, false);
    assert_eq!(flags(&c, "self_loop").0, true);
    assert_eq!(flags(&c, "timed").0, true);
}

#[test]
fn entry_input_needs_propagate_through_calls() {
    let mut c = Checker::new();
    c.user_helpers.push(helper("outer", vec![call("middle", vec![])]));
    c.user_helpers.push(helper("middle", vec![call("inner", vec![])]));
    c.user_helpers.push(helper("inner", vec![Sx::Binary(BinaryOp::Add, Box::new(Sx::CoordX), Box::new(lit(1)))]));
    c.user_helpers.push(helper("plain", vec![lit(4)]));
    c.user_helpers.push(helper("cycle", vec![call("cycle", vec![])]));
    c.compute_user_helper_sample_point_invariance();
    assert_eq!(flags(&c, "inner").1, true);
    assert_eq!(flags(&c, "middle").1, true);
    assert_eq!(flags(&c, "outer").1, true);
    assert_eq!(flags(&c, "plain").1, false);
    assert_eq!(flags(&c, "cycle").1, false);
    assert_eq!(flags(&c, "inner").0, false);
    assert_eq!(flags(&c, "outer").0, false);
    assert_eq!(flags(&c, "plain").0, true);
}

#[test]
fn no_helpers_leaves_the_checker_unchanged() {
    let mut c = Checker::new();
    c.compute_user_helper_sample_point_invariance();
    assert!(c.user_helpers.is_empty());
}
