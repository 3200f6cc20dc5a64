//! Which user helpers compute the same value at every sample point, and
//! which need the entry's runtime inputs.
use vstd::prelude::*;
use crate::checker::Checker;
use crate::sx::{Sx, SxArgs, SxVec, UnaryOp};
use crate::text::str_eq;

verus! {

/// A lowered user helper: its id, the expressions of its body statements,
/// and the two facts this analysis computes for it.
#[derive(Debug)]
pub struct UserHelper {
    pub id: String,
    pub body: Vec<Sx>,
    pub sample_point_invariant: bool,
    pub needs_entry_inputs: bool,
}

/// The flag recorded for `id`: the first entry named `id`, else `false`.
pub open spec fn flag_of(map: Seq<(String, bool)>, id: Seq<char>) -> bool
    decreases map.len(),
{
    if map.len() == 0 {
        false
    } else if map[0].0@ == id {
        map[0].1
    } else {
        flag_of(map.drop_first(), id)
    }
}

/// A lane function that does not depend on where it is sampled: not a
/// screen-space derivative.
pub open spec fn pointwise_unary(op: UnaryOp) -> bool {
    !(op is Ddx || op is Ddy || op is Fwidth)
}

/// The expression has the same value at every sample point: it reads only
/// literals, entry inputs, uniforms and parameters, through pointwise
/// operations and calls of helpers flagged invariant.
pub open spec fn sx_invariant(sx: Sx, map: Seq<(String, bool)>) -> bool
    decreases sx, 0int,
{
    match sx {
        Sx::Lit(_) | Sx::EntryInput(_) | Sx::UniformField { .. } | Sx::Param(_) => true,
        Sx::Unary(op, a) => pointwise_unary(op) && sx_invariant(*a, map),
        Sx::Binary(_, a, b) => sx_invariant(*a, map) && sx_invariant(*b, map),
        Sx::Ternary(_, a, b, c) => sx_invariant(*a, map) && sx_invariant(*b, map) && sx_invariant(*c, map),
        Sx::Dot(a, b) => vec_invariant(a, map) && vec_invariant(b, map),
        Sx::Length(a) => vec_invariant(a, map),
        Sx::UserCall { helper_id, args } => args_invariant(args, map) && flag_of(map, helper_id@),
        _ => false,
    }
}

pub open spec fn vec_invariant(v: SxVec, map: Seq<(String, bool)>) -> bool
    decreases v, 1int,
{
    match v {
        SxVec::V2(a, b) => sx_invariant(*a, map) && sx_invariant(*b, map),
        SxVec::V3(a, b, c) => sx_invariant(*a, map) && sx_invariant(*b, map) && sx_invariant(*c, map),
        SxVec::V4(a, b, c, d) => sx_invariant(*a, map) && sx_invariant(*b, map) && sx_invariant(*c, map)
            && sx_invariant(*d, map),
    }
}

pub open spec fn args_invariant(args: SxArgs, map: Seq<(String, bool)>) -> bool
    decreases args, 1int,
{
    match args {
        SxArgs::Nil => true,
        SxArgs::Cons(a, rest) => sx_invariant(*a, map) && args_invariant(*rest, map),
    }
}

pub open spec fn body_invariant(body: Seq<Sx>, map: Seq<(String, bool)>) -> bool {
    forall|i: int| 0 <= i < body.len() ==> #[trigger] sx_invariant(body[i], map)
}

pub fn flag_of_exec(map: &Vec<(String, bool)>, id: &str) -> (r: bool)
    ensures
        r == flag_of(map@, id@),
{
    let mut i: usize = 0;
    assert(map@.skip(0) =~= map@);
    while i < map.len()
        invariant
            i <= map@.len(),
            flag_of(map@, id@) == flag_of(map@.skip(i as int), id@),
        decreases map@.len() - i,
    {
        assert(map@.skip(i as int).drop_first() =~= map@.skip(i + 1));
        if str_eq(map[i].0.as_str(), id) {
            return map[i].1;
        }
        i += 1;
    }
    false
}

impl Checker {
    pub fn user_helper_sxvec_is_sample_point_invariant(v: &SxVec, helper_invariant: &Vec<(String, bool)>) -> (r: bool)
        ensures
            r == vec_invariant(*v, helper_invariant@),
        decreases v, 1int,
    {
        match v {
            SxVec::V2(a, b) => Self::user_helper_sx_is_sample_point_invariant(a, helper_invariant)
                && Self::user_helper_sx_is_sample_point_invariant(b, helper_invariant),
            SxVec::V3(a, b, c) => Self::user_helper_sx_is_sample_point_invariant(a, helper_invariant)
                && Self::user_helper_sx_is_sample_point_invariant(b, helper_invariant)
                && Self::user_helper_sx_is_sample_point_invariant(c, helper_invariant),
            SxVec::V4(a, b, c, d) => Self::user_helper_sx_is_sample_point_invariant(a, helper_invariant)
                && Self::user_helper_sx_is_sample_point_invariant(b, helper_invariant)
                && Self::user_helper_sx_is_sample_point_invariant(c, helper_invariant)
                && Self::user_helper_sx_is_sample_point_invariant(d, helper_invariant),
        }
    }

    fn user_helper_args_are_sample_point_invariant(args: &SxArgs, helper_invariant: &Vec<(String, bool)>) -> (r: bool)
        ensures
            r == args_invariant(*args, helper_invariant@),
        decreases args, 1int,
    {
        match args {
            SxArgs::Nil => true,
            SxArgs::Cons(a, rest) => Self::user_helper_sx_is_sample_point_invariant(a, helper_invariant)
                && Self::user_helper_args_are_sample_point_invariant(rest, helper_invariant),
        }
    }

    /// Whether an expression has the same value at every sample point.
    pub fn user_helper_sx_is_sample_point_invariant(s: &Sx, helper_invariant: &Vec<(String, bool)>) -> (r: bool)
        ensures
            r == sx_invariant(*s, helper_invariant@),
        decreases s, 0int,
    {
        match s {
            Sx::Lit(_) | Sx::EntryInput(_) | Sx::UniformField { .. } | Sx::Param(_) => true,
            Sx::Unary(op, a) => !matches!(op, UnaryOp::Ddx | UnaryOp::Ddy | UnaryOp::Fwidth)
                && Self::user_helper_sx_is_sample_point_invariant(a, helper_invariant),
            Sx::Binary(_, a, b) => Self::user_helper_sx_is_sample_point_invariant(a, helper_invariant)
                && Self::user_helper_sx_is_sample_point_invariant(b, helper_invariant),
            Sx::Ternary(_, a, b, c) => Self::user_helper_sx_is_sample_point_invariant(a, helper_invariant)
                && Self::user_helper_sx_is_sample_point_invariant(b, helper_invariant)
                && Self::user_helper_sx_is_sample_point_invariant(c, helper_invariant),
            Sx::Dot(a, b) => Self::user_helper_sxvec_is_sample_point_invariant(a, helper_invariant)
                && Self::user_helper_sxvec_is_sample_point_invariant(b, helper_invariant),
            Sx::Length(a) => Self::user_helper_sxvec_is_sample_point_invariant(a, helper_invariant),
            Sx::UserCall { helper_id, args } => Self::user_helper_args_are_sample_point_invariant(args, helper_invariant)
                && flag_of_exec(helper_invariant, helper_id.as_str()),
            _ => false,
        }
    }

    /// Whether every expression of a helper body is sample-point invariant.
    pub fn user_helper_body_is_sample_point_invariant(body: &Vec<Sx>, helper_invariant: &Vec<(String, bool)>) -> (r: bool)
        ensures
            r == body_invariant(body@, helper_invariant@),
    {
        let mut i: usize = 0;
        while i < body.len()
            invariant
                i <= body@.len(),
                forall|j: int| 0 <= j < i ==> #[trigger] sx_invariant(body@[j], helper_invariant@),
            decreases body@.len() - i,
        {
            if !Self::user_helper_sx_is_sample_point_invariant(&body[i], helper_invariant) {
                return false;
            }
            i += 1;
        }
        true
    }
}

/// The expression reads, at any depth, an entry input, the fragment
/// coordinate, or a helper flagged in `map`.
pub open spec fn sx_needs(sx: Sx, map: Seq<(String, bool)>) -> bool
    decreases sx, 0int,
{
    match sx {
        Sx::EntryInput(_) | Sx::CoordX | Sx::CoordY => true,
        Sx::Unary(_, a) => sx_needs(*a, map),
        Sx::Binary(_, a, b) => sx_needs(*a, map) || sx_needs(*b, map),
        Sx::Ternary(_, a, b, c) => sx_needs(*a, map) || sx_needs(*b, map) || sx_needs(*c, map),
        Sx::Dot(a, b) => vec_needs(a, map) || vec_needs(b, map),
        Sx::Length(a) => vec_needs(a, map),
        Sx::UserCall { helper_id, args } => flag_of(map, helper_id@) || args_needs(args, map),
        Sx::Let { value, body, .. } => sx_needs(*value, map) || sx_needs(*body, map),
        _ => false,
    }
}

pub open spec fn vec_needs(v: SxVec, map: Seq<(String, bool)>) -> bool
    decreases v, 1int,
{
    match v {
        SxVec::V2(a, b) => sx_needs(*a, map) || sx_needs(*b, map),
        SxVec::V3(a, b, c) => sx_needs(*a, map) || sx_needs(*b, map) || sx_needs(*c, map),
        SxVec::V4(a, b, c, d) => sx_needs(*a, map) || sx_needs(*b, map) || sx_needs(*c, map) || sx_needs(*d, map),
    }
}

pub open spec fn args_needs(args: SxArgs, map: Seq<(String, bool)>) -> bool
    decreases args, 1int,
{
    match args {
        SxArgs::Nil => false,
        SxArgs::Cons(a, rest) => sx_needs(*a, map) || args_needs(*rest, map),
    }
}

pub open spec fn body_needs(body: Seq<Sx>, map: Seq<(String, bool)>) -> bool {
    exists|i: int| 0 <= i < body.len() && #[trigger] sx_needs(body[i], map)
}

/// Two maps over the same ids, the first flagging no more than the second.
pub open spec fn flags_le(m1: Seq<(String, bool)>, m2: Seq<(String, bool)>) -> bool {
    &&& m1.len() == m2.len()
    &&& forall|i: int| 0 <= i < m1.len() ==> #[trigger] m1[i].0@ == m2[i].0@
    &&& forall|i: int| 0 <= i < m1.len() && #[trigger] m1[i].1 ==> m2[i].1
}

/// A map with one entry per helper, in the helpers' order, under its id.
pub open spec fn aligned(helpers: Seq<UserHelper>, map: Seq<(String, bool)>) -> bool {
    map.len() == helpers.len() && forall|i: int| 0 <= i < map.len() ==> #[trigger] map[i].0@ == helpers[i].id@
}

/// The invariance flags recorded on the helpers.
pub open spec fn invariance_map(helpers: Seq<UserHelper>) -> Seq<(String, bool)> {
    Seq::new(helpers.len(), |i: int| (helpers[i].id, helpers[i].sample_point_invariant))
}

/// The entry-input flags recorded on the helpers.
pub open spec fn needs_map(helpers: Seq<UserHelper>) -> Seq<(String, bool)> {
    Seq::new(helpers.len(), |i: int| (helpers[i].id, helpers[i].needs_entry_inputs))
}

/// Every helper flagged invariant has a body that is invariant under the flags.
pub open spec fn invariance_post_fixpoint(helpers: Seq<UserHelper>, map: Seq<(String, bool)>) -> bool {
    aligned(helpers, map) && forall|i: int| 0 <= i < map.len() && #[trigger] map[i].1
        ==> body_invariant(helpers[i].body@, map)
}

/// Each helper is flagged invariant exactly when its body is invariant under the flags.
pub open spec fn invariance_fixpoint(helpers: Seq<UserHelper>, map: Seq<(String, bool)>) -> bool {
    aligned(helpers, map) && forall|i: int| 0 <= i < map.len()
        ==> #[trigger] map[i].1 == body_invariant(helpers[i].body@, map)
}

/// Every helper whose body needs the flagged helpers' inputs is flagged.
pub open spec fn needs_closed(helpers: Seq<UserHelper>, map: Seq<(String, bool)>) -> bool {
    aligned(helpers, map) && forall|i: int| 0 <= i < map.len() && body_needs(helpers[i].body@, map)
        ==> #[trigger] map[i].1
}

/// Each helper is flagged exactly when its body needs entry inputs under the flags.
pub open spec fn needs_fixpoint(helpers: Seq<UserHelper>, map: Seq<(String, bool)>) -> bool {
    aligned(helpers, map) && forall|i: int| 0 <= i < map.len()
        ==> #[trigger] map[i].1 == body_needs(helpers[i].body@, map)
}

pub open spec fn count_flags(map: Seq<(String, bool)>) -> nat
    decreases map.len(),
{
    if map.len() == 0 {
        0
    } else {
        (if map[0].1 { 1nat } else { 0nat }) + count_flags(map.drop_first())
    }
}

proof fn lemma_count_bound(map: Seq<(String, bool)>)
    ensures
        count_flags(map) <= map.len(),
        count_flags(map) == 0 ==> forall|i: int| 0 <= i < map.len() ==> !#[trigger] map[i].1,
    decreases map.len(),
{
    if map.len() > 0 {
        lemma_count_bound(map.drop_first());
        assert forall|i: int| 0 <= i < map.len() && count_flags(map) == 0 implies !#[trigger] map[i].1 by {
            if i > 0 {
                assert(map[i] == map.drop_first()[i - 1]);
            }
        }
    }
}

proof fn lemma_count_update(map: Seq<(String, bool)>, i: int, p: (String, bool))
    requires
        0 <= i < map.len(),
    ensures
        count_flags(map.update(i, p)) + (if map[i].1 { 1int } else { 0int })
            == count_flags(map) + (if p.1 { 1int } else { 0int }),
    decreases map.len(),
{
    if i > 0 {
        lemma_count_update(map.drop_first(), i - 1, p);
        assert(map.update(i, p).drop_first() =~= map.drop_first().update(i - 1, p));
    } else {
        assert(map.update(i, p).drop_first() =~= map.drop_first());
    }
}

proof fn lemma_flags_le_drop_first(m1: Seq<(String, bool)>, m2: Seq<(String, bool)>)
    requires
        flags_le(m1, m2),
        m1.len() > 0,
    ensures
        flags_le(m1.drop_first(), m2.drop_first()),
{
    assert forall|i: int| 0 <= i < m1.drop_first().len() implies
        #[trigger] m1.drop_first()[i].0@ == m2.drop_first()[i].0@ by {
        assert(m1[i + 1].0@ == m2[i + 1].0@);
    }
    assert forall|i: int| 0 <= i < m1.drop_first().len() && #[trigger] m1.drop_first()[i].1 implies
        m2.drop_first()[i].1 by {
        assert(m1[i + 1].1);
    }
}

proof fn lemma_flag_of_mono(m1: Seq<(String, bool)>, m2: Seq<(String, bool)>, id: Seq<char>)
    requires
        flags_le(m1, m2),
        flag_of(m1, id),
    ensures
        flag_of(m2, id),
    decreases m1.len(),
{
    if m1.len() > 0 {
        assert(m1[0].0@ == m2[0].0@);
        if m1[0].0@ != id {
            lemma_flags_le_drop_first(m1, m2);
            lemma_flag_of_mono(m1.drop_first(), m2.drop_first(), id);
        }
    }
}

proof fn lemma_sx_invariant_mono(sx: Sx, m1: Seq<(String, bool)>, m2: Seq<(String, bool)>)
    requires
        flags_le(m1, m2),
        sx_invariant(sx, m1),
    ensures
        sx_invariant(sx, m2),
    decreases sx, 0int,
{
    match sx {
        Sx::Unary(_, a) => lemma_sx_invariant_mono(*a, m1, m2),
        Sx::Binary(_, a, b) => {
            lemma_sx_invariant_mono(*a, m1, m2);
            lemma_sx_invariant_mono(*b, m1, m2);
        },
        Sx::Ternary(_, a, b, c) => {
            lemma_sx_invariant_mono(*a, m1, m2);
            lemma_sx_invariant_mono(*b, m1, m2);
            lemma_sx_invariant_mono(*c, m1, m2);
        },
        Sx::Dot(a, b) => {
            lemma_vec_invariant_mono(a, m1, m2);
            lemma_vec_invariant_mono(b, m1, m2);
        },
        Sx::Length(a) => lemma_vec_invariant_mono(a, m1, m2),
        Sx::UserCall { helper_id, args } => {
            lemma_args_invariant_mono(args, m1, m2);
            lemma_flag_of_mono(m1, m2, helper_id@);
        },
        _ => {},
    }
}

proof fn lemma_vec_invariant_mono(v: SxVec, m1: Seq<(String, bool)>, m2: Seq<(String, bool)>)
    requires
        flags_le(m1, m2),
        vec_invariant(v, m1),
    ensures
        vec_invariant(v, m2),
    decreases v, 1int,
{
    match v {
        SxVec::V2(a, b) => {
            lemma_sx_invariant_mono(*a, m1, m2);
            lemma_sx_invariant_mono(*b, m1, m2);
        },
        SxVec::V3(a, b, c) => {
            lemma_sx_invariant_mono(*a, m1, m2);
            lemma_sx_invariant_mono(*b, m1, m2);
            lemma_sx_invariant_mono(*c, m1, m2);
        },
        SxVec::V4(a, b, c, d) => {
            lemma_sx_invariant_mono(*a, m1, m2);
            lemma_sx_invariant_mono(*b, m1, m2);
            lemma_sx_invariant_mono(*c, m1, m2);
            lemma_sx_invariant_mono(*d, m1, m2);
        },
    }
}

proof fn lemma_args_invariant_mono(args: SxArgs, m1: Seq<(String, bool)>, m2: Seq<(String, bool)>)
    requires
        flags_le(m1, m2),
        args_invariant(args, m1),
    ensures
        args_invariant(args, m2),
    decreases args, 1int,
{
    match args {
        SxArgs::Nil => {},
        SxArgs::Cons(a, rest) => {
            lemma_sx_invariant_mono(*a, m1, m2);
            lemma_args_invariant_mono(*rest, m1, m2);
        },
    }
}

proof fn lemma_body_invariant_mono(body: Seq<Sx>, m1: Seq<(String, bool)>, m2: Seq<(String, bool)>)
    requires
        flags_le(m1, m2),
        body_invariant(body, m1),
    ensures
        body_invariant(body, m2),
{
    assert forall|i: int| 0 <= i < body.len() implies #[trigger] sx_invariant(body[i], m2) by {
        lemma_sx_invariant_mono(body[i], m1, m2);
    }
}

proof fn lemma_sx_needs_mono(sx: Sx, m1: Seq<(String, bool)>, m2: Seq<(String, bool)>)
    requires
        flags_le(m1, m2),
        sx_needs(sx, m1),
    ensures
        sx_needs(sx, m2),
    decreases sx, 0int,
{
    match sx {
        Sx::Unary(_, a) => lemma_sx_needs_mono(*a, m1, m2),
        Sx::Binary(_, a, b) => {
            if sx_needs(*a, m1) { lemma_sx_needs_mono(*a, m1, m2); }
            if sx_needs(*b, m1) { lemma_sx_needs_mono(*b, m1, m2); }
        },
        Sx::Ternary(_, a, b, c) => {
            if sx_needs(*a, m1) { lemma_sx_needs_mono(*a, m1, m2); }
            if sx_needs(*b, m1) { lemma_sx_needs_mono(*b, m1, m2); }
            if sx_needs(*c, m1) { lemma_sx_needs_mono(*c, m1, m2); }
        },
        Sx::Dot(a, b) => {
            if vec_needs(a, m1) { lemma_vec_needs_mono(a, m1, m2); }
            if vec_needs(b, m1) { lemma_vec_needs_mono(b, m1, m2); }
        },
        Sx::Length(a) => lemma_vec_needs_mono(a, m1, m2),
        Sx::UserCall { helper_id, args } => {
            if args_needs(args, m1) { lemma_args_needs_mono(args, m1, m2); }
            if flag_of(m1, helper_id@) { lemma_flag_of_mono(m1, m2, helper_id@); }
        },
        Sx::Let { value, body, .. } => {
            if sx_needs(*value, m1) { lemma_sx_needs_mono(*value, m1, m2); }
            if sx_needs(*body, m1) { lemma_sx_needs_mono(*body, m1, m2); }
        },
        _ => {},
    }
}

proof fn lemma_vec_needs_mono(v: SxVec, m1: Seq<(String, bool)>, m2: Seq<(String, bool)>)
    requires
        flags_le(m1, m2),
        vec_needs(v, m1),
    ensures
        vec_needs(v, m2),
    decreases v, 1int,
{
    match v {
        SxVec::V2(a, b) => {
            if sx_needs(*a, m1) { lemma_sx_needs_mono(*a, m1, m2); }
            if sx_needs(*b, m1) { lemma_sx_needs_mono(*b, m1, m2); }
        },
        SxVec::V3(a, b, c) => {
            if sx_needs(*a, m1) { lemma_sx_needs_mono(*a, m1, m2); }
            if sx_needs(*b, m1) { lemma_sx_needs_mono(*b, m1, m2); }
            if sx_needs(*c, m1) { lemma_sx_needs_mono(*c, m1, m2); }
        },
        SxVec::V4(a, b, c, d) => {
            if sx_needs(*a, m1) { lemma_sx_needs_mono(*a, m1, m2); }
            if sx_needs(*b, m1) { lemma_sx_needs_mono(*b, m1, m2); }
            if sx_needs(*c, m1) { lemma_sx_needs_mono(*c, m1, m2); }
            if sx_needs(*d, m1) { lemma_sx_needs_mono(*d, m1, m2); }
        },
    }
}

proof fn lemma_args_needs_mono(args: SxArgs, m1: Seq<(String, bool)>, m2: Seq<(String, bool)>)
    requires
        flags_le(m1, m2),
        args_needs(args, m1),
    ensures
        args_needs(args, m2),
    decreases args, 1int,
{
    match args {
        SxArgs::Nil => {},
        SxArgs::Cons(a, rest) => {
            if sx_needs(*a, m1) { lemma_sx_needs_mono(*a, m1, m2); }
            if args_needs(*rest, m1) { lemma_args_needs_mono(*rest, m1, m2); }
        },
    }
}

proof fn lemma_body_needs_mono(body: Seq<Sx>, m1: Seq<(String, bool)>, m2: Seq<(String, bool)>)
    requires
        flags_le(m1, m2),
        body_needs(body, m1),
    ensures
        body_needs(body, m2),
{
    let i = choose|i: int| 0 <= i < body.len() && #[trigger] sx_needs(body[i], m1);
    lemma_sx_needs_mono(body[i], m1, m2);
}

fn sxvec_needs_entry_inputs(v: &SxVec, map: &Vec<(String, bool)>) -> (r: bool)
    ensures
        r == vec_needs(*v, map@),
    decreases v, 1int,
{
    match v {
        SxVec::V2(a, b) => sx_needs_entry_inputs(a, map) || sx_needs_entry_inputs(b, map),
        SxVec::V3(a, b, c) => sx_needs_entry_inputs(a, map) || sx_needs_entry_inputs(b, map)
            || sx_needs_entry_inputs(c, map),
        SxVec::V4(a, b, c, d) => sx_needs_entry_inputs(a, map) || sx_needs_entry_inputs(b, map)
            || sx_needs_entry_inputs(c, map) || sx_needs_entry_inputs(d, map),
    }
}

fn args_need_entry_inputs(args: &SxArgs, map: &Vec<(String, bool)>) -> (r: bool)
    ensures
        r == args_needs(*args, map@),
    decreases args, 1int,
{
    match args {
        SxArgs::Nil => false,
        SxArgs::Cons(a, rest) => sx_needs_entry_inputs(a, map) || args_need_entry_inputs(rest, map),
    }
}

/// Whether an expression reads, at any depth, an entry input, the fragment
/// coordinate, or a call of a helper flagged in `map`.
fn sx_needs_entry_inputs(s: &Sx, map: &Vec<(String, bool)>) -> (r: bool)
    ensures
        r == sx_needs(*s, map@),
    decreases s, 0int,
{
    match s {
        Sx::EntryInput(_) | Sx::CoordX | Sx::CoordY => true,
        Sx::Unary(_, a) => sx_needs_entry_inputs(a, map),
        Sx::Binary(_, a, b) => sx_needs_entry_inputs(a, map) || sx_needs_entry_inputs(b, map),
        Sx::Ternary(_, a, b, c) => sx_needs_entry_inputs(a, map) || sx_needs_entry_inputs(b, map)
            || sx_needs_entry_inputs(c, map),
        Sx::Dot(a, b) => sxvec_needs_entry_inputs(a, map) || sxvec_needs_entry_inputs(b, map),
        Sx::Length(a) => sxvec_needs_entry_inputs(a, map),
        Sx::UserCall { helper_id, args } => flag_of_exec(map, helper_id.as_str())
            || args_need_entry_inputs(args, map),
        Sx::Let { value, body, .. } => sx_needs_entry_inputs(value, map) || sx_needs_entry_inputs(body, map),
        _ => false,
    }
}

fn body_needs_entry_inputs(body: &Vec<Sx>, map: &Vec<(String, bool)>) -> (r: bool)
    ensures
        r == body_needs(body@, map@),
{
    let mut i: usize = 0;
    while i < body.len()
        invariant
            i <= body@.len(),
            forall|j: int| 0 <= j < i ==> !#[trigger] sx_needs(body@[j], map@),
        decreases body@.len() - i,
    {
        if sx_needs_entry_inputs(&body[i], map) {
            return true;
        }
        i += 1;
    }
    false
}

impl Checker {
    /// Flags each user helper that computes the same value at every sample
    /// point (the greatest assignment consistent with the helpers' bodies),
    /// and each helper that needs the entry's runtime inputs (the least
    /// assignment closed under the bodies' reads and calls).
    #[verifier::loop_isolation(false)]
    pub fn compute_user_helper_sample_point_invariance(&mut self)
        ensures
            final(self).user_helpers@.len() == old(self).user_helpers@.len(),
            forall|i: int| 0 <= i < old(self).user_helpers@.len() ==> (#[trigger] final(self).user_helpers@[i]).id
                == old(self).user_helpers@[i].id && final(self).user_helpers@[i].body
                == old(self).user_helpers@[i].body,
            invariance_fixpoint(final(self).user_helpers@, invariance_map(final(self).user_helpers@)),
            forall|m: Seq<(String, bool)>| #[trigger] invariance_post_fixpoint(final(self).user_helpers@, m)
                ==> flags_le(m, invariance_map(final(self).user_helpers@)),
            needs_fixpoint(final(self).user_helpers@, needs_map(final(self).user_helpers@)),
            forall|m: Seq<(String, bool)>| #[trigger] needs_closed(final(self).user_helpers@, m)
                ==> flags_le(needs_map(final(self).user_helpers@), m),
            final(self).scopes == old(self).scopes,
            final(self).style_scopes == old(self).style_scopes,
            final(self).assignment_scopes == old(self).assignment_scopes,
            final(self).diags == old(self).diags,
            final(self).let_counter == old(self).let_counter,
            final(self).enum_defs == old(self).enum_defs,
            final(self).unqualified_enums == old(self).unqualified_enums,
            final(self).workbook_enabled == old(self).workbook_enabled,
            final(self).span_log == old(self).span_log,
            final(self).capture_target == old(self).capture_target,
            final(self).captured == old(self).captured,
            final(self).layers == old(self).layers,
            final(self).shapes == old(self).shapes,
    {
        let n = self.user_helpers.len();
        if n == 0 {
            return;
        }
        let ghost h = self.user_helpers@;
        let mut inv_map: Vec<(String, bool)> = Vec::new();
        let mut needs: Vec<(String, bool)> = Vec::new();
        let mut k: usize = 0;
        while k < n
            invariant
                n == h.len(),
                self.user_helpers@ == h,
                k <= n,
                inv_map@.len() == k,
                needs@.len() == k,
                forall|j: int| 0 <= j < k ==> #[trigger] inv_map@[j] == (h[j].id, true),
                forall|j: int| 0 <= j < k ==> #[trigger] needs@[j] == (h[j].id, false),
            decreases n - k,
        {
            let id = self.user_helpers[k].id.clone();
            inv_map.push((id, true));
            let id = self.user_helpers[k].id.clone();
            needs.push((id, false));
            k += 1;
        }
        proof {
            assert forall|m: Seq<(String, bool)>| #[trigger] invariance_post_fixpoint(h, m)
                implies flags_le(m, inv_map@) by {
                assert forall|i: int| 0 <= i < m.len() implies #[trigger] m[i].0@ == inv_map@[i].0@ by {
                    assert(inv_map@[i].0 == h[i].id);
                }
                assert forall|i: int| 0 <= i < m.len() && #[trigger] m[i].1 implies inv_map@[i].1 by {
                    assert(inv_map@[i].0 == h[i].id);
                }
            }
            assert forall|m: Seq<(String, bool)>| #[trigger] needs_closed(h, m) implies flags_le(needs@, m) by {
                assert forall|i: int| 0 <= i < m.len() implies #[trigger] needs@[i].0@ == m[i].0@ by {
                    assert(needs@[i].0 == h[i].id);
                }
                assert forall|i: int| 0 <= i < m.len() && #[trigger] needs@[i].1 implies m[i].1 by {
                    assert(needs@[i].0 == h[i].id);
                }
            }
            lemma_count_bound(inv_map@);
            assert forall|j: int| 0 <= j < n implies #[trigger] inv_map@[j].1 by {
                assert(inv_map@[j].0 == h[j].id);
            }
        }
        // Greatest fixpoint of invariance, from all-invariant downwards.
        let mut round: usize = 0;
        let mut done = false;
        while !done && round < n
            invariant
                n == h.len(),
                self.user_helpers@ == h,
                inv_map@.len() == n,
                forall|j: int| 0 <= j < n ==> #[trigger] inv_map@[j].0 == h[j].id,
                forall|m: Seq<(String, bool)>| #[trigger] invariance_post_fixpoint(h, m) ==> flags_le(m, inv_map@),
                forall|j: int| 0 <= j < n && !#[trigger] inv_map@[j].1 ==> !body_invariant(h[j].body@, inv_map@),
                done ==> invariance_fixpoint(h, inv_map@),
                !done ==> count_flags(inv_map@) + round <= n,
                round <= n,
            decreases n - round,
        {
            let ghost start = inv_map@;
            let mut changed = false;
            let mut i: usize = 0;
            while i < n
                invariant
                    n == h.len(),
                    self.user_helpers@ == h,
                    i <= n,
                    inv_map@.len() == n,
                    forall|j: int| 0 <= j < n ==> #[trigger] inv_map@[j].0 == h[j].id,
                    forall|m: Seq<(String, bool)>| #[trigger] invariance_post_fixpoint(h, m) ==> flags_le(m, inv_map@),
                    forall|j: int| 0 <= j < n && !#[trigger] inv_map@[j].1 ==> !body_invariant(h[j].body@, inv_map@),
                    !changed ==> inv_map@ == start,
                    count_flags(inv_map@) <= count_flags(start),
                    changed ==> count_flags(inv_map@) < count_flags(start),
                    !changed ==> forall|j: int| 0 <= j < i ==> #[trigger] start[j].1 == body_invariant(h[j].body@, start),
                decreases n - i,
            {
                let is_invariant = Self::user_helper_body_is_sample_point_invariant(&self.user_helpers[i].body, &inv_map);
                let prior = inv_map[i].1;
                if prior != is_invariant {
                    let id = self.user_helpers[i].id.clone();
                    let ghost before = inv_map@;
                    proof {
                        lemma_count_update(before, i as int, (id, is_invariant));
                    }
                    inv_map.set(i, (id, is_invariant));
                    proof {
                        let after = inv_map@;
                        assert(!is_invariant);
                        assert(flags_le(after, before)) by {
                            assert forall|j: int| 0 <= j < after.len() implies #[trigger] after[j].0@ == before[j].0@ by {
                                assert(before[j].0 == h[j].id);
                            }
                        }
                        assert forall|m: Seq<(String, bool)>| #[trigger] invariance_post_fixpoint(h, m)
                            implies flags_le(m, after) by {
                            assert(flags_le(m, before));
                            if m[i as int].1 {
                                lemma_body_invariant_mono(h[i as int].body@, m, before);
                            }
                            assert forall|j: int| 0 <= j < m.len() implies #[trigger] m[j].0@ == after[j].0@ by {
                                assert(m[j].0@ == before[j].0@);
                            }
                        }
                        assert forall|j: int| 0 <= j < n && !#[trigger] after[j].1
                            implies !body_invariant(h[j].body@, after) by {
                            if body_invariant(h[j].body@, after) {
                                lemma_body_invariant_mono(h[j].body@, after, before);
                            }
                        }
                    }
                    changed = true;
                }
                i += 1;
            }
            if !changed {
                done = true;
            }
            round += 1;
        }
        proof {
            if !done {
                lemma_count_bound(inv_map@);
            }
        }
        // Least fixpoint of entry-input needs, from nothing upwards.
        let mut settled = false;
        proof {
            lemma_count_bound(needs@);
            assert forall|j: int| 0 <= j < n implies !#[trigger] needs@[j].1 by {
                assert(needs@[j].0 == h[j].id);
            }
        }
        while !settled
            invariant
                n == h.len(),
                self.user_helpers@ == h,
                needs@.len() == n,
                forall|j: int| 0 <= j < n ==> #[trigger] needs@[j].0 == h[j].id,
                forall|m: Seq<(String, bool)>| #[trigger] needs_closed(h, m) ==> flags_le(needs@, m),
                forall|j: int| 0 <= j < n && #[trigger] needs@[j].1 ==> body_needs(h[j].body@, needs@),
                settled ==> needs_fixpoint(h, needs@),
                count_flags(needs@) <= n,
            decreases 2 * (n - count_flags(needs@)) + (if settled { 0int } else { 1int }),
        {
            let ghost start = needs@;
            let mut changed = false;
            let mut i: usize = 0;
            while i < n
                invariant
                    n == h.len(),
                    self.user_helpers@ == h,
                    i <= n,
                    needs@.len() == n,
                    forall|j: int| 0 <= j < n ==> #[trigger] needs@[j].0 == h[j].id,
                    forall|m: Seq<(String, bool)>| #[trigger] needs_closed(h, m) ==> flags_le(needs@, m),
                    forall|j: int| 0 <= j < n && #[trigger] needs@[j].1 ==> body_needs(h[j].body@, needs@),
                    !changed ==> needs@ == start,
                    count_flags(needs@) >= count_flags(start),
                    changed ==> count_flags(needs@) > count_flags(start),
                    !changed ==> forall|j: int| 0 <= j < i ==> #[trigger] start[j].1 == body_needs(h[j].body@, start),
                decreases n - i,
            {
                if !needs[i].1 {
                    let nd = body_needs_entry_inputs(&self.user_helpers[i].body, &needs);
                    if nd {
                        let id = self.user_helpers[i].id.clone();
                        let ghost before = needs@;
                        proof {
                            lemma_count_update(before, i as int, (id, true));
                        }
                        needs.set(i, (id, true));
                        proof {
                            let after = needs@;
                            assert(flags_le(before, after)) by {
                                assert forall|j: int| 0 <= j < after.len() implies #[trigger] before[j].0@ == after[j].0@ by {
                                    assert(before[j].0 == h[j].id);
                                }
                            }
                            assert forall|m: Seq<(String, bool)>| #[trigger] needs_closed(h, m)
                                implies flags_le(after, m) by {
                                assert(flags_le(before, m));
                                lemma_body_needs_mono(h[i as int].body@, before, m);
                                assert forall|j: int| 0 <= j < m.len() implies #[trigger] after[j].0@ == m[j].0@ by {
                                    assert(before[j].0@ == m[j].0@);
                                }
                            }
                            assert forall|j: int| 0 <= j < n && #[trigger] after[j].1
                                implies body_needs(h[j].body@, after) by {
                                lemma_body_needs_mono(h[j].body@, before, after);
                            }
                        }
                        changed = true;
                    }
                }
                i += 1;
            }
            proof {
                lemma_count_bound(needs@);
            }
            if !changed {
                settled = true;
            }
        }
        // Record both flags on the helpers.
        let mut i: usize = 0;
        while i < n
            invariant
                n == h.len(),
                i <= n,
                self.user_helpers@.len() == n,
                inv_map@.len() == n,
                needs@.len() == n,
                forall|j: int| 0 <= j < n ==> #[trigger] self.user_helpers@[j].id == h[j].id
                    && self.user_helpers@[j].body == h[j].body,
                forall|j: int| 0 <= j < i ==> #[trigger] self.user_helpers@[j].sample_point_invariant == inv_map@[j].1,
                forall|j: int| 0 <= j < i ==> #[trigger] self.user_helpers@[j].needs_entry_inputs == needs@[j].1,
                self.scopes == old(self).scopes,
                self.style_scopes == old(self).style_scopes,
                self.assignment_scopes == old(self).assignment_scopes,
                self.diags == old(self).diags,
                self.let_counter == old(self).let_counter,
                self.enum_defs == old(self).enum_defs,
                self.unqualified_enums == old(self).unqualified_enums,
                self.workbook_enabled == old(self).workbook_enabled,
                self.span_log == old(self).span_log,
                self.capture_target == old(self).capture_target,
                self.captured == old(self).captured,
                self.layers == old(self).layers,
                self.shapes == old(self).shapes,
            decreases n - i,
        {
            let flag = inv_map[i].1;
            let need = needs[i].1;
            let ghost before = self.user_helpers@;
            assert forall|j: int| 0 <= j < n implies #[trigger] before[j].id == h[j].id
                && before[j].body == h[j].body by {
                assert(self.user_helpers@[j].id == h[j].id);
            }
            self.user_helpers[i].sample_point_invariant = flag;
            self.user_helpers[i].needs_entry_inputs = need;
            assert(self.user_helpers@[i as int].sample_point_invariant == flag);
            assert(self.user_helpers@[i as int].id == before[i as int].id);
            assert(self.user_helpers@[i as int].body == before[i as int].body);
            assert forall|j: int| 0 <= j < n implies #[trigger] self.user_helpers@[j].id == h[j].id
                && self.user_helpers@[j].body == h[j].body by {
                assert(before[j].id == h[j].id);
                if j != i {
                    assert(self.user_helpers@[j] == before[j]);
                }
            }
            i += 1;
        }
        proof {
            let fin = self.user_helpers@;
            assert forall|j: int| 0 <= j < n implies #[trigger] invariance_map(fin)[j] == inv_map@[j] by {
                assert(fin[j].id == h[j].id);
                assert(inv_map@[j].0 == h[j].id);
                assert(fin[j].sample_point_invariant == inv_map@[j].1);
            }
            assert forall|j: int| 0 <= j < n implies #[trigger] needs_map(fin)[j] == needs@[j] by {
                assert(fin[j].id == h[j].id);
                assert(inv_map@[j].0 == h[j].id);
                assert(needs@[j].0 == h[j].id);
                assert(fin[j].sample_point_invariant == inv_map@[j].1);
                assert(fin[j].needs_entry_inputs == needs@[j].1);
            }
            assert(invariance_map(fin) =~= inv_map@);
            assert(needs_map(fin) =~= needs@);
            assert forall|j: int| 0 <= j < n implies #[trigger] fin[j].body@ == h[j].body@ && fin[j].id@ == h[j].id@ by {
                assert(fin[j].id == h[j].id);
            }
            assert(invariance_fixpoint(fin, inv_map@));
            assert(needs_fixpoint(fin, needs@));
            assert forall|m: Seq<(String, bool)>| #[trigger] invariance_post_fixpoint(fin, m)
                implies flags_le(m, inv_map@) by {
                assert forall|j: int| 0 <= j < m.len() implies #[trigger] m[j].0@ == h[j].id@ by {
                    assert(fin[j].id@ == h[j].id@);
                }
                assert forall|j: int| 0 <= j < m.len() && #[trigger] m[j].1 implies body_invariant(h[j].body@, m) by {
                    assert(fin[j].body@ == h[j].body@);
                }
                assert(invariance_post_fixpoint(h, m));
            }
            assert forall|m: Seq<(String, bool)>| #[trigger] needs_closed(fin, m) implies flags_le(needs@, m) by {
                assert forall|j: int| 0 <= j < m.len() implies #[trigger] m[j].0@ == h[j].id@ by {
                    assert(fin[j].id@ == h[j].id@);
                }
                assert forall|j: int| 0 <= j < m.len() && body_needs(h[j].body@, m) implies #[trigger] m[j].1 by {
                    assert(fin[j].body@ == h[j].body@);
                }
                assert(needs_closed(h, m));
            }
        }
    }
}

} // verus!
