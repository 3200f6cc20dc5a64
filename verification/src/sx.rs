//! Symbolic scalar expressions (`Sx`): the checker's per-lane representation of
//! shader values, with exact literals.
use vstd::prelude::*;
use crate::num::{Num, lemma_make_value, spec_make};

verus! {

/// Runtime inputs supplied by the entry point.
#[derive(Clone, Copy, Debug, PartialEq, Eq, Structural)]
pub enum EntryInput {
    Time,
    Delta,
    ResolutionX,
    ResolutionY,
}

/// One-argument lane functions.
#[derive(Clone, Copy, Debug, PartialEq, Eq, Structural)]
pub enum UnaryOp {
    Neg,
    Sin,
    Cos,
    Tan,
    Asin,
    Acos,
    Atan,
    Sqrt,
    InverseSqrt,
    Fract,
    Abs,
    Sign,
    Floor,
    Ceil,
    Round,
    Trunc,
    Exp,
    Exp2,
    Log,
    Log2,
    Ddx,
    Ddy,
    Fwidth,
    SrgbToLinear,
    LinearToSrgb,
}

/// Two-argument lane functions and operators.
#[derive(Clone, Copy, Debug, PartialEq, Eq, Structural)]
pub enum BinaryOp {
    Add,
    Sub,
    Mul,
    Div,
    Lt,
    Le,
    Gt,
    Ge,
    Eq,
    Ne,
    Atan2,
    Pow,
    Min,
    Max,
    Step,
}

/// Three-argument lane functions.
#[derive(Clone, Copy, Debug, PartialEq, Eq, Structural)]
pub enum TernaryOp {
    Clamp,
    Mix,
    Select,
    SmoothStep,
}

/// A small vector of lanes, operand of `dot` and `length`.
#[derive(Debug, PartialEq)]
pub enum SxVec {
    V2(Box<Sx>, Box<Sx>),
    V3(Box<Sx>, Box<Sx>, Box<Sx>),
    V4(Box<Sx>, Box<Sx>, Box<Sx>, Box<Sx>),
}

/// The argument list of a helper call.
#[derive(Debug, PartialEq)]
pub enum SxArgs {
    Nil,
    Cons(Box<Sx>, Box<SxArgs>),
}

/// A symbolic scalar lane.
#[derive(Debug, PartialEq)]
pub enum Sx {
    Lit(Num),
    PxLit(Num),
    EntryInput(EntryInput),
    UniformField { binding_name: String, field_name: String, field_index: u32, component: Option<u8> },
    CoordX,
    CoordY,
    PostColorR,
    PostColorG,
    PostColorB,
    PostColorA,
    Param(String),
    Var(String),
    TexChannel { texture: String, channel: u8 },
    Unary(UnaryOp, Box<Sx>),
    Binary(BinaryOp, Box<Sx>, Box<Sx>),
    Ternary(TernaryOp, Box<Sx>, Box<Sx>, Box<Sx>),
    Dot(SxVec, SxVec),
    Length(SxVec),
    UserCall { helper_id: String, args: SxArgs },
    Let { name: String, value: Box<Sx>, body: Box<Sx> },
}

pub fn clone_opt_u8(o: &Option<u8>) -> (r: Option<u8>)
    ensures
        r == *o,
{
    match o {
        Some(v) => Some(*v),
        None => None,
    }
}

impl SxVec {
    pub fn clone_vec(&self) -> (r: SxVec)
        ensures
            r == *self,
        decreases self,
    {
        match self {
            SxVec::V2(a, b) => SxVec::V2(Box::new(a.clone_sx()), Box::new(b.clone_sx())),
            SxVec::V3(a, b, c) => SxVec::V3(
                Box::new(a.clone_sx()),
                Box::new(b.clone_sx()),
                Box::new(c.clone_sx()),
            ),
            SxVec::V4(a, b, c, d) => SxVec::V4(
                Box::new(a.clone_sx()),
                Box::new(b.clone_sx()),
                Box::new(c.clone_sx()),
                Box::new(d.clone_sx()),
            ),
        }
    }
}

impl SxArgs {
    pub fn clone_args(&self) -> (r: SxArgs)
        ensures
            r == *self,
        decreases self,
    {
        match self {
            SxArgs::Nil => SxArgs::Nil,
            SxArgs::Cons(a, rest) => SxArgs::Cons(Box::new(a.clone_sx()), Box::new(rest.clone_args())),
        }
    }
}

impl Clone for SxVec {
    fn clone(&self) -> (r: Self)
        ensures
            r == *self,
    {
        self.clone_vec()
    }
}

impl Sx {
    /// A copy of the expression, equal to it.
    pub fn clone_sx(&self) -> (r: Sx)
        ensures
            r == *self,
        decreases self,
    {
        match self {
            Sx::Lit(v) => Sx::Lit(*v),
            Sx::PxLit(v) => Sx::PxLit(*v),
            Sx::EntryInput(e) => Sx::EntryInput(*e),
            Sx::UniformField { binding_name, field_name, field_index, component } => {
                let b = binding_name.clone();
                let f = field_name.clone();
                let c = clone_opt_u8(component);
                assert(b == *binding_name);
                assert(f == *field_name);
                Sx::UniformField { binding_name: b, field_name: f, field_index: *field_index, component: c }
            },
            Sx::CoordX => Sx::CoordX,
            Sx::CoordY => Sx::CoordY,
            Sx::PostColorR => Sx::PostColorR,
            Sx::PostColorG => Sx::PostColorG,
            Sx::PostColorB => Sx::PostColorB,
            Sx::PostColorA => Sx::PostColorA,
            Sx::Param(s) => Sx::Param(s.clone()),
            Sx::Var(s) => Sx::Var(s.clone()),
            Sx::TexChannel { texture, channel } => Sx::TexChannel {
                texture: texture.clone(),
                channel: *channel,
            },
            Sx::Unary(op, a) => Sx::Unary(*op, Box::new(a.clone_sx())),
            Sx::Binary(op, a, b) => Sx::Binary(*op, Box::new(a.clone_sx()), Box::new(b.clone_sx())),
            Sx::Ternary(op, a, b, c) => Sx::Ternary(
                *op,
                Box::new(a.clone_sx()),
                Box::new(b.clone_sx()),
                Box::new(c.clone_sx()),
            ),
            Sx::Dot(a, b) => Sx::Dot(a.clone_vec(), b.clone_vec()),
            Sx::Length(v) => Sx::Length(v.clone_vec()),
            Sx::UserCall { helper_id, args } => Sx::UserCall {
                helper_id: helper_id.clone(),
                args: args.clone_args(),
            },
            Sx::Let { name, value, body } => Sx::Let {
                name: name.clone(),
                value: Box::new(value.clone_sx()),
                body: Box::new(body.clone_sx()),
            },
        }
    }
}

impl Clone for Sx {
    fn clone(&self) -> (r: Self)
        ensures
            r == *self,
    {
        self.clone_sx()
    }
}

/// The value most recently bound to `name` in `env`.
pub open spec fn env_get(env: Seq<(Seq<char>, Num)>, name: Seq<char>) -> Option<Num>
    decreases env.len(),
{
    if env.len() == 0 {
        None
    } else if env.last().0 == name {
        Some(env.last().1)
    } else {
        env_get(env.drop_last(), name)
    }
}

pub open spec fn square(k: nat) -> nat {
    k * k
}

/// The whole square root of `n`, when `n` is a perfect square.
pub open spec fn exact_sqrt(n: nat) -> Option<nat> {
    if exists|k: nat| #[trigger] square(k) == n {
        Some(choose|k: nat| #[trigger] square(k) == n)
    } else {
        None
    }
}

/// The exact square root of a non-negative literal, when numerator and
/// denominator of its reduced form are perfect squares.
pub open spec fn num_sqrt(v: Num) -> Option<Num> {
    if v.numer() < 0 {
        None
    } else {
        match spec_make(v.numer(), v.den as int) {
            Some(r) => match (exact_sqrt(r.mag as nat), exact_sqrt(r.den as nat)) {
                (Some(a), Some(b)) => Some(Num { neg: false, mag: a as u64, den: b as u64 }),
                _ => None,
            },
            None => None,
        }
    }
}

/// `x * x + y`, when both steps fit.
pub open spec fn add_square(x: Num, acc: Num) -> Option<Num> {
    match x.spec_mul(x) {
        Some(sq) => sq.spec_add(acc),
        None => None,
    }
}

/// The exact value of an expression made only of literals, variables bound
/// in `env` or by `let`, and the exactly computable operations (negation,
/// absolute value, `+ - * /`, `min`, `max`, `clamp` with ordered bounds, and
/// `length` when the square root is exact). Any other node, a zero divisor
/// or a result that does not fit gives `None`.
pub open spec fn static_value_in(sx: Sx, env: Seq<(Seq<char>, Num)>) -> Option<Num>
    decreases sx, 0int,
{
    match sx {
        Sx::Lit(v) => if v.wf() { Some(v) } else { None },
        Sx::PxLit(v) => if v.wf() { Some(v) } else { None },
        Sx::Var(name) => match env_get(env, name@) {
            Some(v) => if v.wf() { Some(v) } else { None },
            None => None,
        },
        Sx::Unary(op, a) => match static_value_in(*a, env) {
            Some(x) => match op {
                UnaryOp::Neg => Some(x.spec_neg()),
                UnaryOp::Abs => Some(x.spec_abs()),
                _ => None,
            },
            None => None,
        },
        Sx::Binary(op, a, b) => match (static_value_in(*a, env), static_value_in(*b, env)) {
            (Some(x), Some(y)) => match op {
                BinaryOp::Add => x.spec_add(y),
                BinaryOp::Sub => x.spec_sub(y),
                BinaryOp::Mul => x.spec_mul(y),
                BinaryOp::Div => x.spec_div(y),
                BinaryOp::Min => Some(x.spec_min(y)),
                BinaryOp::Max => Some(x.spec_max(y)),
                _ => None,
            },
            _ => None,
        },
        Sx::Ternary(TernaryOp::Clamp, x, lo, hi) => match (
            static_value_in(*x, env),
            static_value_in(*lo, env),
            static_value_in(*hi, env),
        ) {
            (Some(x), Some(l), Some(h)) => if h.spec_lt(l) {
                None
            } else {
                Some(x.spec_max(l).spec_min(h))
            },
            _ => None,
        },
        Sx::Length(v) => match sum_squares(v, env) {
            Some(s) => num_sqrt(s),
            None => None,
        },
        Sx::Let { name, value, body } => match static_value_in(*value, env) {
            Some(v) => static_value_in(*body, env.push((name@, v))),
            None => None,
        },
        _ => None,
    }
}

/// The sum of the squares of a vector's static lanes.
pub open spec fn sum_squares(v: SxVec, env: Seq<(Seq<char>, Num)>) -> Option<Num>
    decreases v, 1int,
{
    match v {
        SxVec::V2(a, b) => match (static_value_in(*a, env), static_value_in(*b, env)) {
            (Some(x), Some(y)) => match add_square(y, Num::spec_zero()) {
                Some(acc) => add_square(x, acc),
                None => None,
            },
            _ => None,
        },
        SxVec::V3(a, b, c) => match (static_value_in(*a, env), static_value_in(*b, env), static_value_in(*c, env)) {
            (Some(x), Some(y), Some(z)) => match add_square(z, Num::spec_zero()) {
                Some(acc) => match add_square(y, acc) {
                    Some(acc2) => add_square(x, acc2),
                    None => None,
                },
                None => None,
            },
            _ => None,
        },
        SxVec::V4(a, b, c, d) => match (
            static_value_in(*a, env),
            static_value_in(*b, env),
            static_value_in(*c, env),
            static_value_in(*d, env),
        ) {
            (Some(x), Some(y), Some(z), Some(w)) => match add_square(w, Num::spec_zero()) {
                Some(acc) => match add_square(z, acc) {
                    Some(acc2) => match add_square(y, acc2) {
                        Some(acc3) => add_square(x, acc3),
                        None => None,
                    },
                    None => None,
                },
                None => None,
            },
            _ => None,
        },
    }
}

/// The exact value of a static expression with no variables bound.
pub open spec fn static_value(sx: Sx) -> Option<Num> {
    static_value_in(sx, Seq::empty())
}

/// The variables of an environment by their names' characters.
pub open spec fn env_view(env: Seq<(String, Num)>) -> Seq<(Seq<char>, Num)> {
    Seq::new(env.len(), |i: int| (env[i].0@, env[i].1))
}

pub proof fn lemma_add_square_wf(x: Num, acc: Num)
    requires
        x.wf(),
        acc.wf(),
    ensures
        add_square(x, acc) matches Some(v) ==> v.wf(),
{
    if x.spec_mul(x) is Some {
        lemma_make_value(x.numer() * x.numer(), x.den * x.den);
        let sq = x.spec_mul(x).unwrap();
        if sq.spec_add(acc) is Some {
            lemma_make_value(sq.numer() * acc.den + acc.numer() * sq.den, sq.den * acc.den);
        }
    }
}

pub proof fn lemma_exact_sqrt(n: nat, k: nat)
    requires
        k * k == n,
    ensures
        exact_sqrt(n) == Some(k),
{
    assert(square(k) == n);
    let c = choose|j: nat| #[trigger] square(j) == n;
    assert(c * c == n);
    if c < k {
        assert(c * c < k * k) by (nonlinear_arith)
            requires
                c < k,
        ;
    } else if c > k {
        assert(k * k < c * c) by (nonlinear_arith)
            requires
                k < c,
        ;
    }
}

pub proof fn lemma_num_sqrt_wf(v: Num)
    ensures
        num_sqrt(v) matches Some(r) ==> r.wf(),
{
    if v.numer() >= 0 {
        if let Some(r) = spec_make(v.numer(), v.den as int) {
            if let (Some(a), Some(b)) = (exact_sqrt(r.mag as nat), exact_sqrt(r.den as nat)) {
                lemma_make_value(v.numer(), v.den as int);
                assert(square(b) == r.den);
                assert(square(a) == r.mag);
                assert(r.den > 0);
                assert(b > 0 && b <= r.den) by (nonlinear_arith)
                    requires
                        b * b == r.den,
                        r.den > 0,
                ;
                assert(a <= r.mag) by (nonlinear_arith)
                    requires
                        a * a == r.mag,
                ;
            }
        }
    }
}

pub proof fn lemma_static_value_in_wf(sx: Sx, env: Seq<(Seq<char>, Num)>)
    ensures
        static_value_in(sx, env) matches Some(v) ==> v.wf(),
    decreases sx, 0int,
{
    match sx {
        Sx::Unary(op, a) => {
            lemma_static_value_in_wf(*a, env);
        },
        Sx::Binary(op, a, b) => {
            lemma_static_value_in_wf(*a, env);
            lemma_static_value_in_wf(*b, env);
            if let (Some(x), Some(y)) = (static_value_in(*a, env), static_value_in(*b, env)) {
                match op {
                    BinaryOp::Add => if x.spec_add(y) is Some {
                        lemma_make_value(x.numer() * y.den + y.numer() * x.den, x.den * y.den);
                    },
                    BinaryOp::Sub => if x.spec_sub(y) is Some {
                        let ny = y.spec_neg();
                        lemma_make_value(x.numer() * ny.den + ny.numer() * x.den, x.den * ny.den);
                    },
                    BinaryOp::Mul => if x.spec_mul(y) is Some {
                        lemma_make_value(x.numer() * y.numer(), x.den * y.den);
                    },
                    BinaryOp::Div => if x.spec_div(y) is Some {
                        if y.neg {
                            lemma_make_value(-(x.numer() * y.den), x.den * y.mag);
                        } else {
                            lemma_make_value(x.numer() * y.den, x.den * y.mag);
                        }
                    },
                    _ => {},
                }
            }
        },
        Sx::Ternary(_, x, lo, hi) => {
            lemma_static_value_in_wf(*x, env);
            lemma_static_value_in_wf(*lo, env);
            lemma_static_value_in_wf(*hi, env);
        },
        Sx::Length(v) => {
            lemma_sum_squares_wf(v, env);
            if let Some(s) = sum_squares(v, env) {
                lemma_num_sqrt_wf(s);
            }
        },
        Sx::Let { name, value, body } => {
            lemma_static_value_in_wf(*value, env);
            if let Some(v) = static_value_in(*value, env) {
                lemma_static_value_in_wf(*body, env.push((name@, v)));
            }
        },
        _ => {},
    }
}

pub proof fn lemma_sum_squares_wf(v: SxVec, env: Seq<(Seq<char>, Num)>)
    ensures
        sum_squares(v, env) matches Some(s) ==> s.wf(),
    decreases v, 1int,
{
    let z = Num::spec_zero();
    match v {
        SxVec::V2(a, b) => {
            lemma_static_value_in_wf(*a, env);
            lemma_static_value_in_wf(*b, env);
            if let (Some(x), Some(y)) = (static_value_in(*a, env), static_value_in(*b, env)) {
                lemma_add_square_wf(y, z);
                if let Some(acc) = add_square(y, z) {
                    lemma_add_square_wf(x, acc);
                }
            }
        },
        SxVec::V3(a, b, c) => {
            lemma_static_value_in_wf(*a, env);
            lemma_static_value_in_wf(*b, env);
            lemma_static_value_in_wf(*c, env);
            if let (Some(x), Some(y), Some(w)) = (static_value_in(*a, env), static_value_in(*b, env), static_value_in(*c, env)) {
                lemma_add_square_wf(w, z);
                if let Some(acc) = add_square(w, z) {
                    lemma_add_square_wf(y, acc);
                    if let Some(acc2) = add_square(y, acc) {
                        lemma_add_square_wf(x, acc2);
                    }
                }
            }
        },
        SxVec::V4(a, b, c, d) => {
            lemma_static_value_in_wf(*a, env);
            lemma_static_value_in_wf(*b, env);
            lemma_static_value_in_wf(*c, env);
            lemma_static_value_in_wf(*d, env);
            if let (Some(x), Some(y), Some(w), Some(u)) = (
                static_value_in(*a, env),
                static_value_in(*b, env),
                static_value_in(*c, env),
                static_value_in(*d, env),
            ) {
                lemma_add_square_wf(u, z);
                if let Some(acc) = add_square(u, z) {
                    lemma_add_square_wf(w, acc);
                    if let Some(acc2) = add_square(w, acc) {
                        lemma_add_square_wf(y, acc2);
                        if let Some(acc3) = add_square(y, acc2) {
                            lemma_add_square_wf(x, acc3);
                        }
                    }
                }
            }
        },
    }
}

pub proof fn lemma_static_value_wf(sx: Sx)
    ensures
        static_value(sx) matches Some(v) ==> v.wf(),
{
    lemma_static_value_in_wf(sx, Seq::empty());
}

/// The whole square root of `n`, when `n` is a perfect square.
pub fn exact_sqrt_exec(n: u64) -> (r: Option<u64>)
    ensures
        match r {
            Some(k) => exact_sqrt(n as nat) == Some(k as nat),
            None => exact_sqrt(n as nat) is None,
        },
{
    let mut lo: u64 = 0;
    let mut hi: u64 = 4294967296;
    assert(n < 4294967296 * 4294967296) by (nonlinear_arith)
        requires
            n <= u64::MAX,
    ;
    while hi - lo > 1
        invariant
            lo < hi <= 4294967296,
            lo * lo <= n,
            n < hi * hi,
        decreases hi - lo,
    {
        let mid = lo + (hi - lo) / 2;
        assert((mid as u128) * (mid as u128) < 4294967296 * 4294967296) by (nonlinear_arith)
            requires
                mid < 4294967296,
        ;
        let sq: u128 = (mid as u128) * (mid as u128);
        if sq <= n as u128 {
            lo = mid;
        } else {
            hi = mid;
        }
    }
    assert((lo as u128) * (lo as u128) < 4294967296 * 4294967296) by (nonlinear_arith)
        requires
            lo < 4294967296,
    ;
    let sq: u128 = (lo as u128) * (lo as u128);
    if sq == n as u128 {
        proof {
            lemma_exact_sqrt(n as nat, lo as nat);
        }
        Some(lo)
    } else {
        proof {
            assert(hi == lo + 1);
            assert forall|k: nat| #[trigger] square(k) != n by {
                if k <= lo {
                    assert(k * k <= lo * lo) by (nonlinear_arith)
                        requires
                            k <= lo,
                    ;
                } else {
                    assert(hi * hi <= k * k) by (nonlinear_arith)
                        requires
                            hi <= k,
                    ;
                }
            }
        }
        None
    }
}

/// The exact square root of a literal, when there is one.
pub fn num_sqrt_exec(v: Num) -> (r: Option<Num>)
    requires
        v.wf(),
    ensures
        r == num_sqrt(v),
{
    if v.neg && v.mag != 0 {
        return None;
    }
    let red = match crate::num::make(v.neg, v.mag as u128, v.den as u128) {
        Some(x) => x,
        None => return None,
    };
    let a = match exact_sqrt_exec(red.mag) {
        Some(a) => a,
        None => return None,
    };
    let b = match exact_sqrt_exec(red.den) {
        Some(b) => b,
        None => return None,
    };
    Some(Num { neg: false, mag: a, den: b })
}

fn add_square_exec(x: Num, acc: Num) -> (r: Option<Num>)
    requires
        x.wf(),
        acc.wf(),
    ensures
        r == add_square(x, acc),
{
    match x.mul(x) {
        Some(sq) => {
            proof {
                lemma_make_value(x.numer() * x.numer(), x.den * x.den);
            }
            sq.add(acc)
        },
        None => None,
    }
}

fn env_lookup(env: &Vec<(String, Num)>, name: &str) -> (r: Option<Num>)
    ensures
        r == env_get(env_view(env@), name@),
{
    let mut i: usize = env.len();
    assert(env_view(env@).take(i as int) =~= env_view(env@));
    while i > 0
        invariant
            i <= env@.len(),
            env_get(env_view(env@), name@) == env_get(env_view(env@).take(i as int), name@),
        decreases i,
    {
        assert(env_view(env@).take(i as int).drop_last() =~= env_view(env@).take(i - 1));
        if crate::text::str_eq(env[i - 1].0.as_str(), name) {
            return Some(env[i - 1].1);
        }
        i -= 1;
    }
    None
}

fn sum_squares_exec(v: &SxVec, env: &mut Vec<(String, Num)>) -> (r: Option<Num>)
    ensures
        r == sum_squares(*v, env_view(old(env)@)),
        final(env)@ == old(env)@,
    decreases v, 1int,
{
    let ghost e = env_view(env@);
    let z = Num::zero();
    match v {
        SxVec::V2(a, b) => {
            let x = static_in(a, env)?;
            let y = static_in(b, env)?;
            proof {
                lemma_static_value_in_wf(**a, e);
                lemma_static_value_in_wf(**b, e);
                lemma_add_square_wf(y, z);
            }
            let acc = add_square_exec(y, z)?;
            add_square_exec(x, acc)
        },
        SxVec::V3(a, b, c) => {
            let x = static_in(a, env)?;
            let y = static_in(b, env)?;
            let w = static_in(c, env)?;
            proof {
                lemma_static_value_in_wf(**a, e);
                lemma_static_value_in_wf(**b, e);
                lemma_static_value_in_wf(**c, e);
                lemma_add_square_wf(w, z);
            }
            let acc = add_square_exec(w, z)?;
            proof {
                lemma_add_square_wf(y, acc);
            }
            let acc2 = add_square_exec(y, acc)?;
            add_square_exec(x, acc2)
        },
        SxVec::V4(a, b, c, d) => {
            let x = static_in(a, env)?;
            let y = static_in(b, env)?;
            let w = static_in(c, env)?;
            let u = static_in(d, env)?;
            proof {
                lemma_static_value_in_wf(**a, e);
                lemma_static_value_in_wf(**b, e);
                lemma_static_value_in_wf(**c, e);
                lemma_static_value_in_wf(**d, e);
                lemma_add_square_wf(u, z);
            }
            let acc = add_square_exec(u, z)?;
            proof {
                lemma_add_square_wf(w, acc);
            }
            let acc2 = add_square_exec(w, acc)?;
            proof {
                lemma_add_square_wf(y, acc2);
            }
            let acc3 = add_square_exec(y, acc2)?;
            add_square_exec(x, acc3)
        },
    }
}

/// Evaluates a static expression with the variables of `env` bound.
fn static_in(sx: &Sx, env: &mut Vec<(String, Num)>) -> (r: Option<Num>)
    ensures
        r == static_value_in(*sx, env_view(old(env)@)),
        final(env)@ == old(env)@,
    decreases sx, 0int,
{
    let ghost e = env_view(env@);
    match sx {
        Sx::Lit(v) | Sx::PxLit(v) => if v.den > 0 && (v.mag != 0 || !v.neg) { Some(*v) } else { None },
        Sx::Var(name) => match env_lookup(env, name.as_str()) {
            Some(v) => if v.den > 0 && (v.mag != 0 || !v.neg) { Some(v) } else { None },
            None => None,
        },
        Sx::Unary(op, a) => {
            let x = static_in(a, env)?;
            match op {
                UnaryOp::Neg => Some(x.neg()),
                UnaryOp::Abs => Some(x.abs()),
                _ => None,
            }
        },
        Sx::Binary(op, a, b) => {
            let x = static_in(a, env)?;
            let y = static_in(b, env)?;
            proof {
                lemma_static_value_in_wf(**a, e);
                lemma_static_value_in_wf(**b, e);
            }
            match op {
                BinaryOp::Add => x.add(y),
                BinaryOp::Sub => x.sub(y),
                BinaryOp::Mul => x.mul(y),
                BinaryOp::Div => x.div(y),
                BinaryOp::Min => Some(x.min(y)),
                BinaryOp::Max => Some(x.max(y)),
                _ => None,
            }
        },
        Sx::Ternary(TernaryOp::Clamp, x, lo, hi) => {
            let xv = static_in(x, env)?;
            let l = static_in(lo, env)?;
            let h = static_in(hi, env)?;
            proof {
                lemma_static_value_in_wf(**x, e);
                lemma_static_value_in_wf(**lo, e);
                lemma_static_value_in_wf(**hi, e);
            }
            if h.lt(l) {
                None
            } else {
                let m = xv.max(l);
                Some(m.min(h))
            }
        },
        Sx::Length(v) => {
            let s = sum_squares_exec(v, env)?;
            proof {
                lemma_sum_squares_wf(*v, e);
            }
            num_sqrt_exec(s)
        },
        Sx::Let { name, value, body } => {
            let v = static_in(value, env)?;
            env.push((name.clone(), v));
            assert(env_view(env@) =~= e.push((name@, v)));
            let r = static_in(body, env);
            let _ = env.pop();
            r
        },
        _ => None,
    }
}

impl Sx {
    /// Evaluates the expression when it is a static literal computation.
    pub fn try_eval_static_scalar(&self) -> (r: Option<Num>)
        ensures
            r == static_value(*self),
    {
        let mut env: Vec<(String, Num)> = Vec::new();
        assert(env_view(env@) =~= Seq::empty());
        static_in(self, &mut env)
    }

    /// Evaluates the expression with the variables of `vars` bound (a later
    /// binding of a name hides an earlier one).
    pub fn try_eval_with_vars(&self, vars: &Vec<(String, Num)>) -> (r: Option<Num>)
        ensures
            r == static_value_in(*self, env_view(vars@)),
    {
        let mut env: Vec<(String, Num)> = Vec::new();
        let mut i: usize = 0;
        while i < vars.len()
            invariant
                i <= vars@.len(),
                env_view(env@) =~= env_view(vars@).take(i as int),
            decreases vars@.len() - i,
        {
            let ghost before = env@;
            env.push((vars[i].0.clone(), vars[i].1));
            assert(env@ == before.push((vars@[i as int].0, vars@[i as int].1)));
            assert(env_view(env@) =~= env_view(before).push((vars@[i as int].0@, vars@[i as int].1)));
            assert(env_view(vars@).take(i + 1) =~= env_view(vars@).take(i as int).push(env_view(vars@)[i as int]));
            i += 1;
        }
        assert(env_view(vars@).take(vars@.len() as int) =~= env_view(vars@));
        static_in(self, &mut env)
    }

    /// Whether the node has at least one sub-expression.
    pub open spec fn spec_has_child(self) -> bool {
        match self {
            Sx::Unary(..) | Sx::Binary(..) | Sx::Ternary(..) | Sx::Dot(..) | Sx::Length(..)
            | Sx::Let { .. } => true,
            Sx::UserCall { args, .. } => args is Cons,
            _ => false,
        }
    }

    pub fn has_child(&self) -> (r: bool)
        ensures
            r == self.spec_has_child(),
    {
        match self {
            Sx::Unary(..) | Sx::Binary(..) | Sx::Ternary(..) | Sx::Dot(..) | Sx::Length(..)
            | Sx::Let { .. } => true,
            Sx::UserCall { args, .. } => match args {
                SxArgs::Cons(..) => true,
                SxArgs::Nil => false,
            },
            _ => false,
        }
    }
}

} // verus!
