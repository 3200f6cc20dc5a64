//! Compile-time parameter values: the literals a parameter's default,
//! bounds and array elements must be written with.
use vstd::prelude::*;
use crate::ast::{Expr, SExpr};
use crate::checker::Checker;
use crate::diag::{is_error_diag, pushed_one, Diag, Span};
use crate::num::Num;
use crate::sx::Sx;
use crate::text::{cat2, cat3, cat5, decimal, spec_decimal, str_eq};

verus! {

/// The literal a lane is written as, if it is one.
pub open spec fn literal_of(sx: Sx) -> Option<Num> {
    match sx {
        Sx::Lit(v) | Sx::PxLit(v) => Some(v),
        _ => None,
    }
}

/// The literal denotes a whole number.
pub open spec fn integral_literal(n: Num) -> bool {
    n.den > 0 && n.mag % n.den == 0
}

/// The whole number an integral literal denotes.
pub open spec fn literal_whole(n: Num) -> int {
    if n.neg { -((n.mag / n.den) as int) } else { (n.mag / n.den) as int }
}

/// `d` reports that the parameter part `label` is not a numeric literal.
pub open spec fn non_literal_error(d: Diag, span: Span, label: Seq<char>) -> bool {
    is_error_diag(
        d,
        span,
        "param "@ + label + " must be a numeric literal"@,
        None,
        Some("v0 manifest output requires literal `default`, `min`, and `max` values"@),
    )
}

/// The index of the first entry that is not a literal (the length if all are).
pub open spec fn first_non_literal(s: Seq<Sx>) -> int
    decreases s.len(),
{
    if s.len() == 0 {
        0
    } else if literal_of(s[0]) is None {
        0
    } else {
        1 + first_non_literal(s.drop_first())
    }
}

proof fn lemma_first_non_literal(s: Seq<Sx>)
    ensures
        0 <= first_non_literal(s) <= s.len(),
        forall|j: int| 0 <= j < first_non_literal(s) ==> #[trigger] literal_of(s[j]) is Some,
        first_non_literal(s) < s.len() ==> literal_of(s[first_non_literal(s)]) is None,
    decreases s.len(),
{
    if s.len() > 0 && literal_of(s[0]) is Some {
        lemma_first_non_literal(s.drop_first());
        assert forall|j: int| 0 <= j < first_non_literal(s) implies #[trigger] literal_of(s[j]) is Some by {
            if j > 0 {
                assert(s[j] == s.drop_first()[j - 1]);
            }
        }
    }
}

proof fn lemma_first_non_literal_at(s: Seq<Sx>, k: int)
    requires
        0 <= k <= s.len(),
        forall|j: int| 0 <= j < k ==> #[trigger] literal_of(s[j]) is Some,
        k == s.len() || literal_of(s[k]) is None,
    ensures
        first_non_literal(s) == k,
    decreases s.len(),
{
    if s.len() > 0 && k > 0 {
        assert forall|j: int| 0 <= j < k - 1 implies #[trigger] literal_of(s.drop_first()[j]) is Some by {
            assert(s.drop_first()[j] == s[j + 1]);
        }
        if k < s.len() {
            assert(s.drop_first()[k - 1] == s[k]);
        }
        lemma_first_non_literal_at(s.drop_first(), k - 1);
        assert(literal_of(s[0]) is Some);
    }
}

/// The label of the grid entry at row `i`, column `j`.
pub open spec fn grid_label(label: Seq<char>, i: nat, j: nat) -> Seq<char> {
    label + " ["@ + spec_decimal(i) + "]["@ + spec_decimal(j) + "]"@
}

/// The entries of a square grid, row by row.
pub open spec fn mat2_entries(m: [[Sx; 2]; 2]) -> Seq<Sx> {
    Seq::new(4, |k: int| m@[k / 2]@[k % 2])
}

pub open spec fn mat3_entries(m: [[Sx; 3]; 3]) -> Seq<Sx> {
    Seq::new(9, |k: int| m@[k / 3]@[k % 3])
}

pub open spec fn mat4_entries(m: [[Sx; 4]; 4]) -> Seq<Sx> {
    Seq::new(16, |k: int| m@[k / 4]@[k % 4])
}

/// What reading a grid of literals gives: the values row by row, or the
/// position of the first entry that is not a literal.
pub open spec fn grid_outcome(entries: Seq<Sx>) -> Option<Seq<Num>> {
    if first_non_literal(entries) == entries.len() {
        Some(Seq::new(entries.len(), |k: int| literal_of(entries[k]).unwrap()))
    } else {
        None
    }
}

impl Checker {
    /// The literal a parameter part is written as; otherwise an error.
    pub fn require_const_param_scalar(&mut self, sx: &Sx, label: &str, span: Span) -> (r: Option<Num>)
        ensures
            r == literal_of(*sx),
            r is Some ==> final(self).diags@ == old(self).diags@,
            r is None ==> pushed_one(old(self).diags@, final(self).diags@)
                && non_literal_error(final(self).diags@.last(), span, label@),
            old(self).same_but_diags(*final(self)),
    {
        match sx {
            Sx::Lit(v) | Sx::PxLit(v) => Some(*v),
            _ => {
                let d = Diag::error(span, cat3("param ", label, " must be a numeric literal"))
                    .with_help(String::from_str("v0 manifest output requires literal `default`, `min`, and `max` values"));
                self.diags.push(d);
                None
            },
        }
    }

    /// A whole-number literal in `i32` range; otherwise an error.
    pub fn require_const_param_i32(&mut self, sx: &Sx, label: &str, span: Span) -> (r: Option<i32>)
        ensures
            match literal_of(*sx) {
                None => r is None && pushed_one(old(self).diags@, final(self).diags@)
                    && non_literal_error(final(self).diags@.last(), span, label@),
                Some(v) => if !integral_literal(v) {
                    r is None && pushed_one(old(self).diags@, final(self).diags@) && is_error_diag(
                        final(self).diags@.last(), span, "param "@ + label@ + " must be an integer literal"@,
                        None, Some("examples: -3, 0, 42"@))
                } else if literal_whole(v) < i32::MIN || literal_whole(v) > i32::MAX {
                    r is None && pushed_one(old(self).diags@, final(self).diags@) && is_error_diag(
                        final(self).diags@.last(), span, "param "@ + label@ + " is out of i32 range"@,
                        None, Some("expected -2147483648 .. 2147483647"@))
                } else {
                    r == Some(literal_whole(v) as i32) && final(self).diags@ == old(self).diags@
                },
            },
            old(self).same_but_diags(*final(self)),
    {
        let v = match self.require_const_param_scalar(sx, label, span) {
            Some(v) => v,
            None => return None,
        };
        if v.den == 0 || v.mag % v.den != 0 {
            let d = Diag::error(span, cat3("param ", label, " must be an integer literal"))
                .with_help(String::from_str("examples: -3, 0, 42"));
            self.diags.push(d);
            return None;
        }
        let q = v.mag / v.den;
        if (v.neg && q > 2147483648) || (!v.neg && q > 2147483647) {
            let d = Diag::error(span, cat3("param ", label, " is out of i32 range"))
                .with_help(String::from_str("expected -2147483648 .. 2147483647"));
            self.diags.push(d);
            return None;
        }
        if v.neg {
            let w: i64 = -(q as i64);
            Some(w as i32)
        } else {
            Some(q as i32)
        }
    }

    /// A whole-number literal in `u32` range; otherwise an error.
    pub fn require_const_param_u32(&mut self, sx: &Sx, label: &str, span: Span) -> (r: Option<u32>)
        ensures
            match literal_of(*sx) {
                None => r is None && pushed_one(old(self).diags@, final(self).diags@)
                    && non_literal_error(final(self).diags@.last(), span, label@),
                Some(v) => if !integral_literal(v) {
                    r is None && pushed_one(old(self).diags@, final(self).diags@) && is_error_diag(
                        final(self).diags@.last(), span, "param "@ + label@ + " must be an integer literal"@,
                        None, Some("examples: 0, 7, 128"@))
                } else if literal_whole(v) < 0 || literal_whole(v) > u32::MAX {
                    r is None && pushed_one(old(self).diags@, final(self).diags@) && is_error_diag(
                        final(self).diags@.last(), span, "param "@ + label@ + " is out of u32 range"@,
                        None, Some("expected 0 .. 4294967295"@))
                } else {
                    r == Some(literal_whole(v) as u32) && final(self).diags@ == old(self).diags@
                },
            },
            old(self).same_but_diags(*final(self)),
    {
        let v = match self.require_const_param_scalar(sx, label, span) {
            Some(v) => v,
            None => return None,
        };
        if v.den == 0 || v.mag % v.den != 0 {
            let d = Diag::error(span, cat3("param ", label, " must be an integer literal"))
                .with_help(String::from_str("examples: 0, 7, 128"));
            self.diags.push(d);
            return None;
        }
        let q = v.mag / v.den;
        if (v.neg && q > 0) || (!v.neg && q > 4294967295) {
            let d = Diag::error(span, cat3("param ", label, " is out of u32 range"))
                .with_help(String::from_str("expected 0 .. 4294967295"));
            self.diags.push(d);
            return None;
        }
        Some(q as u32)
    }

    /// `true` or `false` written as a name; otherwise an error.
    pub fn require_const_param_bool(&mut self, expr: &SExpr) -> (r: Option<bool>)
        ensures
            r == (match expr.node {
                Expr::Var(name) => if name@ == "true"@ { Some(true) } else if name@ == "false"@ { Some(false) } else { None },
                _ => None,
            }),
            r is Some ==> final(self).diags@ == old(self).diags@,
            r is None ==> pushed_one(old(self).diags@, final(self).diags@) && is_error_diag(
                final(self).diags@.last(), expr.span, "param default must be a bool literal"@, None,
                Some("use `true` or `false`"@)),
            old(self).same_but_diags(*final(self)),
    {
        if let Expr::Var(name) = &expr.node {
            if str_eq(name.as_str(), "true") {
                return Some(true);
            }
            if str_eq(name.as_str(), "false") {
                return Some(false);
            }
        }
        let d = Diag::error(expr.span, String::from_str("param default must be a bool literal"))
            .with_help(String::from_str("use `true` or `false`"));
        self.diags.push(d);
        None
    }

    /// Both components as literals; otherwise an error for the first that is not.
    pub fn require_const_param_vec2(&mut self, v2: &(Sx, Sx), label: &str, span: Span) -> (r: Option<(Num, Num)>)
        ensures
            match (literal_of(v2.0), literal_of(v2.1)) {
                (Some(x), Some(y)) => r == Some((x, y)) && final(self).diags@ == old(self).diags@,
                (None, _) => r is None && pushed_one(old(self).diags@, final(self).diags@)
                    && non_literal_error(final(self).diags@.last(), span, label@ + " x"@),
                (Some(_), None) => r is None && pushed_one(old(self).diags@, final(self).diags@)
                    && non_literal_error(final(self).diags@.last(), span, label@ + " y"@),
            },
            old(self).same_but_diags(*final(self)),
    {
        let x = match self.require_const_param_scalar(&v2.0, cat2(label, " x").as_str(), span) {
            Some(x) => x,
            None => return None,
        };
        let y = match self.require_const_param_scalar(&v2.1, cat2(label, " y").as_str(), span) {
            Some(y) => y,
            None => return None,
        };
        Some((x, y))
    }

    /// All three components as literals; otherwise an error for the first that is not.
    pub fn require_const_param_vec3(&mut self, v3: &(Sx, Sx, Sx), label: &str, span: Span) -> (r: Option<(Num, Num, Num)>)
        ensures
            match (literal_of(v3.0), literal_of(v3.1), literal_of(v3.2)) {
                (Some(x), Some(y), Some(z)) => r == Some((x, y, z)) && final(self).diags@ == old(self).diags@,
                (None, _, _) => r is None && pushed_one(old(self).diags@, final(self).diags@)
                    && non_literal_error(final(self).diags@.last(), span, label@ + " x"@),
                (Some(_), None, _) => r is None && pushed_one(old(self).diags@, final(self).diags@)
                    && non_literal_error(final(self).diags@.last(), span, label@ + " y"@),
                (Some(_), Some(_), None) => r is None && pushed_one(old(self).diags@, final(self).diags@)
                    && non_literal_error(final(self).diags@.last(), span, label@ + " z"@),
            },
            old(self).same_but_diags(*final(self)),
    {
        let x = match self.require_const_param_scalar(&v3.0, cat2(label, " x").as_str(), span) {
            Some(x) => x,
            None => return None,
        };
        let y = match self.require_const_param_scalar(&v3.1, cat2(label, " y").as_str(), span) {
            Some(y) => y,
            None => return None,
        };
        let z = match self.require_const_param_scalar(&v3.2, cat2(label, " z").as_str(), span) {
            Some(z) => z,
            None => return None,
        };
        Some((x, y, z))
    }

    /// All four components as literals; otherwise an error for the first that is not.
    pub fn require_const_param_vec4(&mut self, v4: &(Sx, Sx, Sx, Sx), label: &str, span: Span) -> (r: Option<(Num, Num, Num, Num)>)
        ensures
            match (literal_of(v4.0), literal_of(v4.1), literal_of(v4.2), literal_of(v4.3)) {
                (Some(x), Some(y), Some(z), Some(w)) => r == Some((x, y, z, w)) && final(self).diags@ == old(self).diags@,
                (None, _, _, _) => r is None && pushed_one(old(self).diags@, final(self).diags@)
                    && non_literal_error(final(self).diags@.last(), span, label@ + " x"@),
                (Some(_), None, _, _) => r is None && pushed_one(old(self).diags@, final(self).diags@)
                    && non_literal_error(final(self).diags@.last(), span, label@ + " y"@),
                (Some(_), Some(_), None, _) => r is None && pushed_one(old(self).diags@, final(self).diags@)
                    && non_literal_error(final(self).diags@.last(), span, label@ + " z"@),
                (Some(_), Some(_), Some(_), None) => r is None && pushed_one(old(self).diags@, final(self).diags@)
                    && non_literal_error(final(self).diags@.last(), span, label@ + " w"@),
            },
            old(self).same_but_diags(*final(self)),
    {
        let x = match self.require_const_param_scalar(&v4.0, cat2(label, " x").as_str(), span) {
            Some(x) => x,
            None => return None,
        };
        let y = match self.require_const_param_scalar(&v4.1, cat2(label, " y").as_str(), span) {
            Some(y) => y,
            None => return None,
        };
        let z = match self.require_const_param_scalar(&v4.2, cat2(label, " z").as_str(), span) {
            Some(z) => z,
            None => return None,
        };
        let w = match self.require_const_param_scalar(&v4.3, cat2(label, " w").as_str(), span) {
            Some(w) => w,
            None => return None,
        };
        Some((x, y, z, w))
    }

    /// Reads the `n` by `n` grid `entries`, row by row, as literals; stops at
    /// the first entry that is not one, with an error naming its position.
    fn require_const_param_grid(&mut self, entries: &Vec<Sx>, n: usize, label: &str, span: Span) -> (r: Option<Vec<Num>>)
        requires
            1 <= n <= 4,
            entries@.len() == n * n,
        ensures
            match grid_outcome(entries@) {
                Some(vals) => r is Some && r.unwrap()@ == vals && final(self).diags@ == old(self).diags@,
                None => r is None && pushed_one(old(self).diags@, final(self).diags@) && non_literal_error(
                    final(self).diags@.last(),
                    span,
                    grid_label(label@, (first_non_literal(entries@) / n as int) as nat,
                        (first_non_literal(entries@) % n as int) as nat),
                ),
            },
            old(self).same_but_diags(*final(self)),
    {
        let mut vals: Vec<Num> = Vec::new();
        let mut k: usize = 0;
        assert(n * n <= 16) by (nonlinear_arith)
            requires
                1 <= n <= 4,
        ;
        proof {
            lemma_first_non_literal(entries@);
        }
        while k < entries.len()
            invariant
                1 <= n <= 4,
                entries@.len() == n * n,
                k <= entries@.len(),
                vals@.len() == k,
                forall|j: int| 0 <= j < k ==> #[trigger] literal_of(entries@[j]) == Some(vals@[j]),
                self.diags@ == old(self).diags@,
                old(self).same_but_diags(*self),
            decreases entries@.len() - k,
        {
            let i = k / n;
            let j = k % n;
            let head = cat5(label, " [", decimal(i as u64).as_str(), "][", decimal(j as u64).as_str());
            let name = cat2(head.as_str(), "]");
            match self.require_const_param_scalar(&entries[k], name.as_str(), span) {
                Some(v) => vals.push(v),
                None => {
                    proof {
                        lemma_first_non_literal_at(entries@, k as int);
                    }
                    return None;
                },
            }
            k += 1;
        }
        proof {
            lemma_first_non_literal_at(entries@, entries@.len() as int);
            assert(vals@ =~= Seq::new(entries@.len(), |q: int| literal_of(entries@[q]).unwrap()));
        }
        Some(vals)
    }

    /// All entries of a 2x2 grid as literals, row by row; otherwise an error
    /// for the first entry that is not one.
    pub fn require_const_param_mat2(&mut self, mat: &[[Sx; 2]; 2], label: &str, span: Span) -> (r: Option<[[Num; 2]; 2]>)
        ensures
            match grid_outcome(mat2_entries(*mat)) {
                Some(vals) => r is Some && final(self).diags@ == old(self).diags@
                    && forall|k: int| 0 <= k < 4 ==> #[trigger] r.unwrap()@[k / 2]@[k % 2] == vals[k],
                None => r is None && pushed_one(old(self).diags@, final(self).diags@) && non_literal_error(
                    final(self).diags@.last(),
                    span,
                    grid_label(label@, (first_non_literal(mat2_entries(*mat)) / 2) as nat,
                        (first_non_literal(mat2_entries(*mat)) % 2) as nat),
                ),
            },
            old(self).same_but_diags(*final(self)),
    {
        let mut entries: Vec<Sx> = Vec::new();
        let mut k: usize = 0;
        while k < 4
            invariant
                k <= 4,
                entries@ =~= mat2_entries(*mat).take(k as int),
            decreases 4 - k,
        {
            entries.push(mat[k / 2][k % 2].clone_sx());
            k += 1;
        }
        assert(entries@ =~= mat2_entries(*mat));
        let vals = match self.require_const_param_grid(&entries, 2, label, span) {
            Some(v) => v,
            None => return None,
        };
        let out = [[vals[0], vals[1]], [vals[2], vals[3]]];
        assert forall|q: int| 0 <= q < 4 implies #[trigger] out@[q / 2]@[q % 2] == vals@[q] by {
            if q == 0 {} else if q == 1 {} else if q == 2 {} else {}
        }
        Some(out)
    }

    /// All entries of a 3x3 grid as literals, row by row; otherwise an error
    /// for the first entry that is not one.
    pub fn require_const_param_mat3(&mut self, mat: &[[Sx; 3]; 3], label: &str, span: Span) -> (r: Option<[[Num; 3]; 3]>)
        ensures
            match grid_outcome(mat3_entries(*mat)) {
                Some(vals) => r is Some && final(self).diags@ == old(self).diags@
                    && forall|k: int| 0 <= k < 9 ==> #[trigger] r.unwrap()@[k / 3]@[k % 3] == vals[k],
                None => r is None && pushed_one(old(self).diags@, final(self).diags@) && non_literal_error(
                    final(self).diags@.last(),
                    span,
                    grid_label(label@, (first_non_literal(mat3_entries(*mat)) / 3) as nat,
                        (first_non_literal(mat3_entries(*mat)) % 3) as nat),
                ),
            },
            old(self).same_but_diags(*final(self)),
    {
        let mut entries: Vec<Sx> = Vec::new();
        let mut k: usize = 0;
        while k < 9
            invariant
                k <= 9,
                entries@ =~= mat3_entries(*mat).take(k as int),
            decreases 9 - k,
        {
            entries.push(mat[k / 3][k % 3].clone_sx());
            k += 1;
        }
        assert(entries@ =~= mat3_entries(*mat));
        let vals = match self.require_const_param_grid(&entries, 3, label, span) {
            Some(v) => v,
            None => return None,
        };
        let out = [[vals[0], vals[1], vals[2]], [vals[3], vals[4], vals[5]], [vals[6], vals[7], vals[8]]];
        assert forall|q: int| 0 <= q < 9 implies #[trigger] out@[q / 3]@[q % 3] == vals@[q] by {
            if q == 0 {} else if q == 1 {} else if q == 2 {} else if q == 3 {} else if q == 4 {} else if q == 5 {} else if q == 6 {} else if q == 7 {} else {}
        }
        Some(out)
    }

    /// All entries of a 4x4 grid as literals, row by row; otherwise an error
    /// for the first entry that is not one.
    pub fn require_const_param_mat4(&mut self, mat: &[[Sx; 4]; 4], label: &str, span: Span) -> (r: Option<[[Num; 4]; 4]>)
        ensures
            match grid_outcome(mat4_entries(*mat)) {
                Some(vals) => r is Some && final(self).diags@ == old(self).diags@
                    && forall|k: int| 0 <= k < 16 ==> #[trigger] r.unwrap()@[k / 4]@[k % 4] == vals[k],
                None => r is None && pushed_one(old(self).diags@, final(self).diags@) && non_literal_error(
                    final(self).diags@.last(),
                    span,
                    grid_label(label@, (first_non_literal(mat4_entries(*mat)) / 4) as nat,
                        (first_non_literal(mat4_entries(*mat)) % 4) as nat),
                ),
            },
            old(self).same_but_diags(*final(self)),
    {
        let mut entries: Vec<Sx> = Vec::new();
        let mut k: usize = 0;
        while k < 16
            invariant
                k <= 16,
                entries@ =~= mat4_entries(*mat).take(k as int),
            decreases 16 - k,
        {
            entries.push(mat[k / 4][k % 4].clone_sx());
            k += 1;
        }
        assert(entries@ =~= mat4_entries(*mat));
        let vals = match self.require_const_param_grid(&entries, 4, label, span) {
            Some(v) => v,
            None => return None,
        };
        let out = [[vals[0], vals[1], vals[2], vals[3]], [vals[4], vals[5], vals[6], vals[7]], [vals[8], vals[9], vals[10], vals[11]], [vals[12], vals[13], vals[14], vals[15]]];
        assert forall|q: int| 0 <= q < 16 implies #[trigger] out@[q / 4]@[q % 4] == vals@[q] by {
            if q == 0 {} else if q == 1 {} else if q == 2 {} else if q == 3 {} else if q == 4 {} else if q == 5 {} else if q == 6 {} else if q == 7 {} else if q == 8 {} else if q == 9 {} else if q == 10 {} else if q == 11 {} else if q == 12 {} else if q == 13 {} else if q == 14 {} else {}
        }
        Some(out)
    }
}

} // verus!
