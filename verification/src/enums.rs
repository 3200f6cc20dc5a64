//! Enum declarations: the declaration order of variants, the ordinal each
//! variant evaluates to, and checks of enum-typed values.
use vstd::prelude::*;
use crate::ast::{Expr, SExpr};
use crate::checker::Checker;
use crate::diag::{Diag, Span, is_error_diag, pushed_one};
use crate::naming::{first_from, first_from_exec, lemma_first_from_bounds};
use crate::num::Num;
use crate::sx::{Sx, static_value, lemma_static_value_wf};
use crate::text::{cat2, cat3, cat5, chars_of, join, spec_join, str_eq};
use crate::value::Value;

verus! {

/// A declared enum: each variant with the span of its declaration.
#[derive(Debug)]
pub struct EnumDef {
    pub variants: Vec<(String, Span)>,
}

/// Lexicographic order on characters, from position `i` on (the characters
/// before `i` being equal).
pub open spec fn seq_lt_from(a: Seq<char>, b: Seq<char>, i: int) -> bool
    decreases a.len() - i,
{
    if i < 0 || i >= a.len() {
        0 <= i < b.len()
    } else if i >= b.len() {
        false
    } else if a[i] != b[i] {
        (a[i] as u32) < (b[i] as u32)
    } else {
        seq_lt_from(a, b, i + 1)
    }
}

/// `a` sorts strictly before `b`, character by character.
pub open spec fn seq_lt(a: Seq<char>, b: Seq<char>) -> bool {
    seq_lt_from(a, b, 0)
}

/// Whether `a` sorts strictly before `b`.
pub fn str_lt(a: &str, b: &str) -> (r: bool)
    ensures
        r == seq_lt(a@, b@),
{
    let x = crate::text::chars_of(a);
    let y = crate::text::chars_of(b);
    let mut i: usize = 0;
    while i < x.len() && i < y.len()
        invariant
            x@ == a@,
            y@ == b@,
            i <= x@.len(),
            i <= y@.len(),
            seq_lt_from(a@, b@, 0) == seq_lt_from(a@, b@, i as int),
        decreases x@.len() - i,
    {
        if x[i] != y[i] {
            return (x[i] as u32) < (y[i] as u32);
        }
        i += 1;
    }
    i < y.len()
}

/// Sort key of a variant: declaration position, then name.
pub open spec fn key_lt(a: (Seq<char>, usize), b: (Seq<char>, usize)) -> bool {
    a.1 < b.1 || (a.1 == b.1 && seq_lt(a.0, b.0))
}

pub open spec fn variant_keys(vs: Seq<(String, Span)>) -> Seq<(Seq<char>, usize)> {
    Seq::new(vs.len(), |i: int| (vs[i].0@, vs[i].1.start))
}

pub open spec fn pair_keys(vs: Seq<(String, usize)>) -> Seq<(Seq<char>, usize)> {
    Seq::new(vs.len(), |i: int| (vs[i].0@, vs[i].1))
}

/// The index of the first least key among the first `n` keys.
pub open spec fn min_index(ks: Seq<(Seq<char>, usize)>, n: int) -> int
    decreases n,
{
    if n <= 1 {
        0
    } else {
        let m = min_index(ks, n - 1);
        if key_lt(ks[n - 1], ks[m]) {
            n - 1
        } else {
            m
        }
    }
}

pub proof fn lemma_min_index_bounds(ks: Seq<(Seq<char>, usize)>, n: int)
    requires
        n >= 1,
    ensures
        0 <= min_index(ks, n) < n,
    decreases n,
{
    if n > 1 {
        lemma_min_index_bounds(ks, n - 1);
    }
}

/// The variant names in declaration order: by position, then by name, the
/// earlier entry first among equal keys.
pub open spec fn decl_order(ks: Seq<(Seq<char>, usize)>) -> Seq<Seq<char>>
    decreases ks.len(),
{
    if ks.len() == 0 {
        Seq::empty()
    } else {
        let m = min_index(ks, ks.len() as int);
        proof {
            lemma_min_index_bounds(ks, ks.len() as int);
        }
        seq![ks[m].0] + decl_order(ks.remove(m))
    }
}

pub proof fn lemma_decl_order_len(ks: Seq<(Seq<char>, usize)>)
    ensures
        decl_order(ks).len() == ks.len(),
    decreases ks.len(),
{
    if ks.len() > 0 {
        lemma_min_index_bounds(ks, ks.len() as int);
        lemma_decl_order_len(ks.remove(min_index(ks, ks.len() as int)));
    }
}

/// Every name in the declaration order is a declared variant name.
pub proof fn lemma_decl_order_names(ks: Seq<(Seq<char>, usize)>, i: int)
    requires
        0 <= i < decl_order(ks).len(),
    ensures
        exists|j: int| 0 <= j < ks.len() && ks[j].0 == decl_order(ks)[i],
    decreases ks.len(),
{
    lemma_decl_order_len(ks);
    let m = min_index(ks, ks.len() as int);
    lemma_min_index_bounds(ks, ks.len() as int);
    if i == 0 {
        assert(ks[m].0 == decl_order(ks)[0]);
    } else {
        let rest = ks.remove(m);
        assert(decl_order(ks)[i] == decl_order(rest)[i - 1]);
        lemma_decl_order_names(rest, i - 1);
        let j = choose|j: int| 0 <= j < rest.len() && rest[j].0 == decl_order(rest)[i - 1];
        if j < m {
            assert(ks[j] == rest[j]);
        } else {
            assert(ks[j + 1] == rest[j]);
        }
    }
}

/// Every declared variant name occurs in the declaration order.
pub proof fn lemma_decl_order_complete(ks: Seq<(Seq<char>, usize)>, j: int)
    requires
        0 <= j < ks.len(),
    ensures
        exists|i: int| 0 <= i < decl_order(ks).len() && decl_order(ks)[i] == ks[j].0,
    decreases ks.len(),
{
    lemma_decl_order_len(ks);
    let m = min_index(ks, ks.len() as int);
    lemma_min_index_bounds(ks, ks.len() as int);
    if j == m {
        assert(decl_order(ks)[0] == ks[j].0);
    } else {
        let rest = ks.remove(m);
        let jr = if j < m { j } else { j - 1 };
        assert(rest[jr] == ks[j]);
        lemma_decl_order_complete(rest, jr);
        let i = choose|i: int| 0 <= i < decl_order(rest).len() && decl_order(rest)[i] == rest[jr].0;
        assert(decl_order(ks)[i + 1] == decl_order(rest)[i]);
    }
}

/// The index of the first `name` in `names`, if any.
pub open spec fn index_of(names: Seq<Seq<char>>, name: Seq<char>) -> Option<int>
    decreases names.len(),
{
    if names.len() == 0 {
        None
    } else if names.last() == name {
        match index_of(names.drop_last(), name) {
            Some(i) => Some(i),
            None => Some(names.len() - 1),
        }
    } else {
        index_of(names.drop_last(), name)
    }
}

pub proof fn lemma_index_of(names: Seq<Seq<char>>, name: Seq<char>)
    ensures
        index_of(names, name) matches Some(i) ==> 0 <= i < names.len() && names[i] == name && (
        forall|k: int| 0 <= k < i ==> names[k] != name),
        index_of(names, name) is None ==> forall|k: int| 0 <= k < names.len() ==> names[k] != name,
    decreases names.len(),
{
    if names.len() > 0 {
        lemma_index_of(names.drop_last(), name);
        assert forall|k: int| 0 <= k < names.len() - 1 implies names[k] == names.drop_last()[k] by {}
    }
}

/// The ordinal a variant evaluates to: its position in declaration order,
/// and `0` for a name that is not a variant.
pub open spec fn spec_ordinal(def: EnumDef, name: Seq<char>) -> nat {
    match index_of(decl_order(variant_keys(def.variants@)), name) {
        Some(i) => i as nat,
        None => 0,
    }
}

pub open spec fn has_variant(def: EnumDef, name: Seq<char>) -> bool {
    exists|j: int| 0 <= j < def.variants@.len() && def.variants@[j].0@ == name
}

pub open spec fn spec_names(v: Seq<String>) -> Seq<Seq<char>> {
    Seq::new(v.len(), |i: int| v[i]@)
}

/// The position of the first least key in `ks`.
fn min_index_exec(ks: &Vec<(String, usize)>) -> (r: usize)
    requires
        ks@.len() > 0,
    ensures
        r == min_index(pair_keys(ks@), ks@.len() as int),
        r < ks@.len(),
{
    let ghost keys = pair_keys(ks@);
    let mut m: usize = 0;
    let mut i: usize = 1;
    while i < ks.len()
        invariant
            keys == pair_keys(ks@),
            1 <= i <= ks@.len(),
            m < i,
            m == min_index(keys, i as int),
        decreases ks@.len() - i,
    {
        let before = ks[i].1 < ks[m].1 || (ks[i].1 == ks[m].1 && str_lt(
            ks[i].0.as_str(),
            ks[m].0.as_str(),
        ));
        assert(keys[i as int] == (ks@[i as int].0@, ks@[i as int].1));
        assert(keys[m as int] == (ks@[m as int].0@, ks@[m as int].1));
        if before {
            m = i;
        }
        i += 1;
    }
    m
}

/// The variant names of `def` in declaration order.
pub fn variants_in_decl_order(def: &EnumDef) -> (r: Vec<String>)
    ensures
        spec_names(r@) == decl_order(variant_keys(def.variants@)),
{
    let mut rest: Vec<(String, usize)> = Vec::new();
    let mut i: usize = 0;
    while i < def.variants.len()
        invariant
            i <= def.variants@.len(),
            rest@.len() == i,
            forall|k: int|
                0 <= k < i ==> #[trigger] rest@[k].0@ == def.variants@[k].0@ && rest@[k].1
                    == def.variants@[k].1.start,
        decreases def.variants@.len() - i,
    {
        let name = def.variants[i].0.clone();
        rest.push((name, def.variants[i].1.start));
        i += 1;
    }
    assert(pair_keys(rest@) =~= variant_keys(def.variants@));
    order_by_key(rest)
}

/// The names of `keyed`, ordered by key: position, then name, the earlier
/// entry first among equal keys.
pub fn order_by_key(keyed: Vec<(String, usize)>) -> (r: Vec<String>)
    ensures
        spec_names(r@) == decl_order(pair_keys(keyed@)),
{
    let mut rest = keyed;
    let ghost all = pair_keys(rest@);
    let mut out: Vec<String> = Vec::new();
    assert(spec_names(out@) + decl_order(pair_keys(rest@)) =~= decl_order(all));
    while rest.len() > 0
        invariant
            spec_names(out@) + decl_order(pair_keys(rest@)) == decl_order(all),
        decreases rest@.len(),
    {
        let m = min_index_exec(&rest);
        let ghost keys = pair_keys(rest@);
        let ghost out_before = out@;
        let (name, _start) = rest.remove(m);
        proof {
            assert(pair_keys(rest@) =~= keys.remove(m as int));
            assert(decl_order(keys) == seq![keys[m as int].0] + decl_order(keys.remove(m as int)));
        }
        out.push(name);
        proof {
            assert(spec_names(out@) =~= spec_names(out_before).push(keys[m as int].0));
            assert(spec_names(out@) + decl_order(pair_keys(rest@)) =~= spec_names(out_before) + (
            seq![keys[m as int].0] + decl_order(keys.remove(m as int))));
        }
    }
    assert(spec_names(out@) + decl_order(pair_keys(rest@)) =~= spec_names(out@));
    out
}

/// The declared enum named `name` (the first such declaration).
pub open spec fn find_enum(defs: Seq<(String, EnumDef)>, name: Seq<char>) -> Option<EnumDef>
    decreases defs.len(),
{
    if defs.len() == 0 {
        None
    } else if defs[0].0@ == name {
        Some(defs[0].1)
    } else {
        find_enum(defs.drop_first(), name)
    }
}

/// The position of the declared enum named `name`.
pub fn find_enum_index(defs: &Vec<(String, EnumDef)>, name: &str) -> (r: Option<usize>)
    ensures
        r matches Some(i) ==> i < defs@.len() && find_enum(defs@, name@) == Some(defs@[i as int].1),
        r is None ==> find_enum(defs@, name@) is None,
{
    let mut i: usize = 0;
    assert(defs@.skip(0) =~= defs@);
    while i < defs.len()
        invariant
            i <= defs@.len(),
            find_enum(defs@, name@) == find_enum(defs@.skip(i as int), name@),
        decreases defs@.len() - i,
    {
        assert(defs@.skip(i as int).drop_first() =~= defs@.skip(i + 1));
        if crate::text::str_eq(defs[i].0.as_str(), name) {
            return Some(i);
        }
        i += 1;
    }
    None
}

/// Whether `def` declares a variant called `name`.
pub fn has_variant_exec(def: &EnumDef, name: &str) -> (r: bool)
    ensures
        r == has_variant(*def, name@),
{
    let mut i: usize = 0;
    while i < def.variants.len()
        invariant
            i <= def.variants@.len(),
            forall|j: int| 0 <= j < i ==> def.variants@[j].0@ != name@,
        decreases def.variants@.len() - i,
    {
        if crate::text::str_eq(def.variants[i].0.as_str(), name) {
            return true;
        }
        i += 1;
    }
    false
}

impl Checker {
/// The scalar a variant of `def` evaluates to: its ordinal.
pub fn enum_variant_scalar_value(def: &EnumDef, variant_name: &str) -> (r: Value)
    ensures
        r matches Value::Scalar(Sx::Lit(n)) && !n.neg && n.den == 1 && n.mag == spec_ordinal(
            *def,
            variant_name@,
        ),
{
    let order = variants_in_decl_order(def);
    let ghost names = decl_order(variant_keys(def.variants@));
    let mut i: usize = 0;
    while i < order.len()
        invariant
            spec_names(order@) == names,
            names == decl_order(variant_keys(def.variants@)),
            i <= order@.len(),
            forall|k: int| 0 <= k < i ==> names[k] != variant_name@,
        decreases order@.len() - i,
    {
        if crate::text::str_eq(order[i].as_str(), variant_name) {
            proof {
                lemma_index_of(names, variant_name@);
                assert(names[i as int] == variant_name@);
                assert(index_of(names, variant_name@) == Some(i as int));
                assert(spec_ordinal(*def, variant_name@) == i as nat);
            }
            let ordinal: u64 = i as u64;
            assert(ordinal == i);
            return Value::Scalar(Sx::Lit(Num { neg: false, mag: ordinal, den: 1 }));
        }
        i += 1;
    }
    proof {
        lemma_index_of(names, variant_name@);
    }
    Value::Scalar(Sx::Lit(Num { neg: false, mag: 0, den: 1 }))
}
}

/// `s` split at its first `.`, if it has one.
pub open spec fn split_dot(s: Seq<char>) -> Option<(Seq<char>, Seq<char>)> {
    let k = first_from(s, '.', 0);
    if k < s.len() {
        Some((s.subrange(0, k), s.subrange(k + 1, s.len() as int)))
    } else {
        None
    }
}

pub open spec fn has_dot(s: Seq<char>) -> bool {
    first_from(s, '.', 0) < s.len()
}

/// Splits `s` at its first `.`.
pub fn split_dot_exec(s: &str) -> (r: Option<(&str, &str)>)
    ensures
        match split_dot(s@) {
            Some((a, b)) => r matches Some(p) && p.0@ == a && p.1@ == b,
            None => r is None,
        },
{
    let cs = chars_of(s);
    proof {
        lemma_first_from_bounds(s@, '.', 0);
    }
    let k = first_from_exec(&cs, '.', 0);
    if k < cs.len() {
        Some((s.substring_char(0, k), s.substring_char(k + 1, cs.len())))
    } else {
        None
    }
}

/// Whether `s` holds a `.`.
pub fn has_dot_exec(s: &str) -> (r: bool)
    ensures
        r == has_dot(s@),
{
    let cs = chars_of(s);
    first_from_exec(&cs, '.', 0) < cs.len()
}

/// The value a variant evaluates to: its ordinal as a scalar literal.
pub open spec fn ordinal_value(def: EnumDef, name: Seq<char>) -> Value {
    Value::Scalar(Sx::Lit(Num { neg: false, mag: spec_ordinal(def, name) as u64, den: 1 }))
}

/// The lane of a scalar-like value.
pub open spec fn numeric_lane(v: Value) -> Option<Sx> {
    match v {
        Value::Scalar(s) => Some(s),
        Value::Distance(s) => Some(s),
        Value::Coverage(s) => Some(s),
        Value::Mask(s) => Some(s),
        _ => None,
    }
}

/// The variant a static scalar selects: an integral, non-negative ordinal
/// within the variants of `enum_name`.
pub open spec fn spec_variant_from_scalar(
    defs: Seq<(String, EnumDef)>,
    enum_name: Seq<char>,
    sx: Sx,
) -> Option<Seq<char>> {
    match static_value(sx) {
        Some(v) => if v.is_integral() && !v.neg {
            match find_enum(defs, enum_name) {
                Some(d) => {
                    let order = decl_order(variant_keys(d.variants@));
                    let idx = v.mag / v.den;
                    if idx < order.len() {
                        Some(order[idx as int])
                    } else {
                        None
                    }
                },
                None => None,
            }
        } else {
            None
        },
        None => None,
    }
}

/// A value is acceptable for an enum-typed slot: a scalar that is either
/// not static or a valid ordinal.
pub open spec fn enum_scalar_ok(defs: Seq<(String, EnumDef)>, enum_name: Seq<char>, v: Value) -> bool {
    match numeric_lane(v) {
        Some(sx) => static_value(sx) is None || spec_variant_from_scalar(defs, enum_name, sx) is Some,
        None => false,
    }
}

pub open spec fn decl_order_or_empty(defs: Seq<(String, EnumDef)>, enum_name: Seq<char>) -> Seq<Seq<char>> {
    match find_enum(defs, enum_name) {
        Some(d) => decl_order(variant_keys(d.variants@)),
        None => Seq::empty(),
    }
}

/// The hint listing the variants of an enum.
pub open spec fn variants_help(defs: Seq<(String, EnumDef)>, enum_name: Seq<char>) -> Seq<char> {
    let vs = decl_order_or_empty(defs, enum_name);
    if vs.len() == 0 {
        "use a declared `"@ + enum_name + "` variant"@
    } else {
        "use `"@ + enum_name + ".<variant>` where <variant> is one of: "@ + spec_join(vs, ", "@)
    }
}

/// The enums declaring a variant called `name`, in declaration order; with
/// `only`, just those among the listed enum names.
pub open spec fn spec_owners(defs: Seq<(String, EnumDef)>, name: Seq<char>, only: Option<Seq<Seq<char>>>) -> Seq<Seq<char>>
    decreases defs.len(),
{
    if defs.len() == 0 {
        Seq::empty()
    } else {
        let rest = spec_owners(defs.drop_last(), name, only);
        let allowed = match only {
            Some(list) => list.contains(defs.last().0@),
            None => true,
        };
        if allowed && has_variant(defs.last().1, name) {
            rest.push(defs.last().0@)
        } else {
            rest
        }
    }
}

pub open spec fn owner_choices(owners: Seq<Seq<char>>, name: Seq<char>) -> Seq<Seq<char>> {
    Seq::new(owners.len(), |i: int| "`"@ + owners[i] + "."@ + name + "`"@)
}

/// How a bare or `Enum.variant` name resolves: not an enum value (`None`),
/// an error with its message and help, or a variant of a declared enum.
pub open spec fn spec_resolve_enum(
    defs: Seq<(String, EnumDef)>,
    unqualified: Seq<Seq<char>>,
    name: Seq<char>,
) -> Option<Result<(EnumDef, Seq<char>), (Seq<char>, Seq<char>)>> {
    match split_dot(name) {
        Some((e, v)) => match find_enum(defs, e) {
            None => None,
            Some(d) => if has_dot(v) {
                Some(Err(("invalid enum variant path `"@ + name + "`"@, "use `<Enum>.<variant>`, for example `YAxis.down`"@)))
            } else if !has_variant(d, v) {
                Some(Err(("unknown variant `"@ + v + "` on enum `"@ + e + "`"@, "use a declared enum variant name"@)))
            } else {
                Some(Ok((d, v)))
            },
        },
        None => {
            let owners = spec_owners(defs, name, Some(unqualified));
            if owners.len() == 0 {
                None
            } else if owners.len() > 1 {
                Some(Err(("ambiguous enum variant `"@ + name + "`"@, "qualify the variant: "@ + spec_join(owner_choices(owners, name), " or "@))))
            } else {
                match find_enum(defs, owners[0]) {
                    Some(d) => Some(Ok((d, name))),
                    None => None,
                }
            }
        },
    }
}

/// The diagnostic an enum-typed call argument earns: its message and help.
pub open spec fn spec_call_arg_problem(
    defs: Seq<(String, EnumDef)>,
    expected: Seq<char>,
    arg: Expr,
    fn_name: Seq<char>,
    param: Seq<char>,
) -> Option<(Seq<char>, Option<Seq<char>>)> {
    match arg {
        Expr::Var(name) => match split_dot(name@) {
            Some((e, v)) => match find_enum(defs, e) {
                Some(d) => if has_variant(d, v) && e != expected {
                    Some((
                        "argument `"@ + param + "` to `"@ + fn_name + "` expected enum `"@ + expected
                            + "`, found variant `"@ + e + "."@ + v + "`"@,
                        None,
                    ))
                } else {
                    None
                },
                None => None,
            },
            None => {
                let owners = spec_owners(defs, name@, None);
                if owners.len() == 1 && owners[0] != expected {
                    Some((
                        "argument `"@ + param + "` to `"@ + fn_name + "` expected enum `"@ + expected
                            + "`, found variant `"@ + name@ + "`"@,
                        Some("qualify the expected enum variant, for example `"@ + expected + "."@ + name@ + "`"@),
                    ))
                } else {
                    None
                }
            },
        },
        _ => None,
    }
}

/// The names of the enums declaring `name`, in declaration order.
pub fn owners_of(defs: &Vec<(String, EnumDef)>, name: &str, only: Option<&Vec<String>>) -> (r: Vec<String>)
    ensures
        spec_names(r@) == spec_owners(defs@, name@, match only {
            Some(l) => Some(spec_names(l@)),
            None => None,
        }),
{
    let ghost only_view = match only {
        Some(l) => Some(spec_names(l@)),
        None => None::<Seq<Seq<char>>>,
    };
    let mut out: Vec<String> = Vec::new();
    let mut i: usize = 0;
    while i < defs.len()
        invariant
            i <= defs@.len(),
            only_view == match only {
                Some(l) => Some(spec_names(l@)),
                None => None::<Seq<Seq<char>>>,
            },
            spec_names(out@) == spec_owners(defs@.take(i as int), name@, only_view),
        decreases defs@.len() - i,
    {
        let allowed = match only {
            Some(list) => contains_name(list, defs[i].0.as_str()),
            None => true,
        };
        let ghost before = out@;
        if allowed && has_variant_exec(&defs[i].1, name) {
            out.push(defs[i].0.clone());
            assert(spec_names(out@) =~= spec_names(before).push(defs@[i as int].0@));
        }
        assert(defs@.take(i + 1).drop_last() =~= defs@.take(i as int));
        i += 1;
    }
    assert(defs@.take(defs@.len() as int) =~= defs@);
    out
}

/// Whether `list` holds `name`.
pub fn contains_name(list: &Vec<String>, name: &str) -> (r: bool)
    ensures
        r == spec_names(list@).contains(name@),
{
    let mut i: usize = 0;
    while i < list.len()
        invariant
            i <= list@.len(),
            forall|k: int| 0 <= k < i ==> list@[k]@ != name@,
        decreases list@.len() - i,
    {
        if str_eq(list[i].as_str(), name) {
            assert(spec_names(list@)[i as int] == name@);
            return true;
        }
        i += 1;
    }
    assert forall|k: int| 0 <= k < spec_names(list@).len() implies spec_names(list@)[k] != name@ by {}
    false
}

/// `` `owner.name` `` for each owner.
fn owner_choices_exec(owners: &Vec<String>, name: &str) -> (r: Vec<String>)
    ensures
        spec_names(r@) == owner_choices(spec_names(owners@), name@),
{
    let mut out: Vec<String> = Vec::new();
    let mut i: usize = 0;
    while i < owners.len()
        invariant
            i <= owners@.len(),
            out@.len() == i,
            forall|k: int| 0 <= k < i ==> #[trigger] out@[k]@ == "`"@ + owners@[k]@ + "."@ + name@ + "`"@,
        decreases owners@.len() - i,
    {
        out.push(cat5("`", owners[i].as_str(), ".", name, "`"));
        i += 1;
    }
    assert(spec_names(out@) =~= owner_choices(spec_names(owners@), name@));
    out
}

impl Checker {
    /// The variant names of the enum `enum_name` in declaration order.
    pub fn enum_variants_in_decl_order(&self, enum_name: &str) -> (r: Option<Vec<String>>)
        ensures
            match find_enum(self.enum_defs@, enum_name@) {
                Some(d) => r matches Some(v) && spec_names(v@) == decl_order(variant_keys(d.variants@)),
                None => r is None,
            },
    {
        match find_enum_index(&self.enum_defs, enum_name) {
            Some(i) => Some(variants_in_decl_order(&self.enum_defs[i].1)),
            None => None,
        }
    }

    /// The variant of `enum_name` that a static scalar denotes.
    pub fn enum_variant_name_from_scalar(&self, enum_name: &str, sx: &Sx) -> (r: Option<String>)
        ensures
            match spec_variant_from_scalar(self.enum_defs@, enum_name@, *sx) {
                Some(n) => r matches Some(s) && s@ == n,
                None => r is None,
            },
    {
        let v = match sx.try_eval_static_scalar() {
            Some(v) => v,
            None => return None,
        };
        proof {
            lemma_static_value_wf(*sx);
        }
        if !v.is_integral_exec() || v.neg {
            return None;
        }
        let idx = v.mag / v.den;
        let order = match self.enum_variants_in_decl_order(enum_name) {
            Some(o) => o,
            None => return None,
        };
        if idx < order.len() as u64 {
            let i = idx as usize;
            assert(spec_names(order@)[i as int] == order@[i as int]@);
            Some(order[i].clone())
        } else {
            None
        }
    }

    /// Checks that `value` can stand for a variant of `enum_name`.
    pub fn validate_enum_scalar_value(
        &mut self,
        enum_name: &str,
        value: &Value,
        span: Span,
        context: &str,
    ) -> (r: bool)
        ensures
            r == enum_scalar_ok(old(self).enum_defs@, enum_name@, *value),
            r ==> final(self).diags@ == old(self).diags@,
            !r ==> pushed_one(old(self).diags@, final(self).diags@) && is_error_diag(
                final(self).diags@.last(),
                span,
                if numeric_lane(*value) is None {
                    context@ + " expected enum `"@ + enum_name@ + "` variant, found "@ + value.spec_kind()
                } else {
                    context@ + " is not a valid `"@ + enum_name@ + "` variant value"@
                },
                Some(if numeric_lane(*value) is None { "enum type mismatch"@ } else { "invalid enum variant value"@ }),
                if numeric_lane(*value) is None { None } else { Some(variants_help(old(self).enum_defs@, enum_name@)) },
            ),
            final(self).enum_defs == old(self).enum_defs,
            final(self).scopes == old(self).scopes,
    {
        let (sx, _kind) = match Self::as_numeric_scalar(value) {
            Some(p) => p,
            None => {
                let head = cat3(context, " expected enum `", enum_name);
                let message = cat3(head.as_str(), "` variant, found ", value.kind());
                let d = Diag::error(span, message).with_label(String::from_str("enum type mismatch"));
                self.diags.push(d);
                return false;
            },
        };
        if sx.try_eval_static_scalar().is_none() {
            return true;
        }
        if self.enum_variant_name_from_scalar(enum_name, &sx).is_some() {
            return true;
        }
        let variants = match self.enum_variants_in_decl_order(enum_name) {
            Some(v) => v,
            None => Vec::new(),
        };
        assert(spec_names(variants@) == decl_order_or_empty(self.enum_defs@, enum_name@));
        let help = if variants.len() == 0 {
            cat3("use a declared `", enum_name, "` variant")
        } else {
            let listed = join(&variants, ", ");
            let head = cat3("use `", enum_name, ".<variant>` where <variant> is one of: ");
            cat2(head.as_str(), listed.as_str())
        };
        let message = cat3(context, " is not a valid `", enum_name);
        let message = cat2(message.as_str(), "` variant value");
        let d = Diag::error(span, message).with_label(String::from_str("invalid enum variant value")).with_help(help);
        self.diags.push(d);
        false
    }

    /// Checks an enum-typed call argument written as a variant name.
    pub fn validate_enum_call_arg_expr(
        &mut self,
        expected_enum: &str,
        arg: &SExpr,
        fn_name: &str,
        param_name: &str,
    ) -> (r: bool)
        ensures
            r == spec_call_arg_problem(old(self).enum_defs@, expected_enum@, arg.node, fn_name@, param_name@) is None,
            match spec_call_arg_problem(old(self).enum_defs@, expected_enum@, arg.node, fn_name@, param_name@) {
                Some((m, h)) => pushed_one(old(self).diags@, final(self).diags@) && is_error_diag(
                    final(self).diags@.last(),
                    arg.span,
                    m,
                    Some("enum type mismatch"@),
                    h,
                ),
                None => final(self).diags@ == old(self).diags@,
            },
            final(self).enum_defs == old(self).enum_defs,
            final(self).scopes == old(self).scopes,
    {
        let name = match &arg.node {
            Expr::Var(name) => name,
            _ => return true,
        };
        match split_dot_exec(name.as_str()) {
            Some((enum_name, variant_name)) => {
                let i = match find_enum_index(&self.enum_defs, enum_name) {
                    Some(i) => i,
                    None => return true,
                };
                if !has_variant_exec(&self.enum_defs[i].1, variant_name) {
                    return true;
                }
                if !str_eq(enum_name, expected_enum) {
                    let a = cat5("argument `", param_name, "` to `", fn_name, "` expected enum `");
                    let b = cat5(a.as_str(), expected_enum, "`, found variant `", enum_name, ".");
                    let message = cat3(b.as_str(), variant_name, "`");
                    let d = Diag::error(arg.span, message).with_label(String::from_str("enum type mismatch"));
                    self.diags.push(d);
                    return false;
                }
                true
            },
            None => {
                let owners = owners_of(&self.enum_defs, name.as_str(), None);
                if owners.len() == 1 && !str_eq(owners[0].as_str(), expected_enum) {
                    assert(spec_names(owners@)[0] == owners@[0]@);
                    let a = cat5("argument `", param_name, "` to `", fn_name, "` expected enum `");
                    let message = cat5(a.as_str(), expected_enum, "`, found variant `", name.as_str(), "`");
                    let help = cat5("qualify the expected enum variant, for example `", expected_enum, ".", name.as_str(), "`");
                    let d = Diag::error(arg.span, message).with_label(String::from_str("enum type mismatch")).with_help(help);
                    self.diags.push(d);
                    return false;
                }
                proof {
                    if owners@.len() == 1 {
                        assert(spec_names(owners@)[0] == owners@[0]@);
                    }
                }
                true
            },
        }
    }

    /// The enums that declare a variant called `variant_name`.
    pub fn infer_enum_for_unqualified_match_variant(&self, variant_name: &str) -> (r: Vec<String>)
        ensures
            spec_names(r@) == spec_owners(self.enum_defs@, variant_name@, None),
    {
        owners_of(&self.enum_defs, variant_name, None)
    }

    /// Resolves `Enum.variant`, or a bare variant of an enum that allows
    /// unqualified values, to its ordinal; `None` when `name` names no enum value.
    pub fn resolve_enum_value_name(&mut self, name: &str, span: Span) -> (r: Option<Value>)
        ensures
            match spec_resolve_enum(old(self).enum_defs@, spec_names(old(self).unqualified_enums@), name@) {
                None => r is None && final(self).diags@ == old(self).diags@,
                Some(Ok((d, v))) => r == Some(ordinal_value(d, v)) && final(self).diags@ == old(self).diags@,
                Some(Err((m, h))) => r == Some(Value::Error) && pushed_one(old(self).diags@, final(self).diags@)
                    && is_error_diag(final(self).diags@.last(), span, m, None, Some(h)),
            },
            final(self).enum_defs == old(self).enum_defs,
            final(self).scopes == old(self).scopes,
    {
        match split_dot_exec(name) {
            Some((enum_name, variant_name)) => {
                let i = match find_enum_index(&self.enum_defs, enum_name) {
                    Some(i) => i,
                    None => return None,
                };
                if has_dot_exec(variant_name) {
                    let message = cat3("invalid enum variant path `", name, "`");
                    let d = Diag::error(span, message).with_help(String::from_str("use `<Enum>.<variant>`, for example `YAxis.down`"));
                    self.diags.push(d);
                    return Some(Value::Error);
                }
                if !has_variant_exec(&self.enum_defs[i].1, variant_name) {
                    let message = cat5("unknown variant `", variant_name, "` on enum `", enum_name, "`");
                    let d = Diag::error(span, message).with_help(String::from_str("use a declared enum variant name"));
                    self.diags.push(d);
                    return Some(Value::Error);
                }
                Some(Self::enum_variant_scalar_value(&self.enum_defs[i].1, variant_name))
            },
            None => {
                let owners = owners_of(&self.enum_defs, name, Some(&self.unqualified_enums));
                if owners.len() == 0 {
                    return None;
                }
                if owners.len() > 1 {
                    let choices = owner_choices_exec(&owners, name);
                    let listed = join(&choices, " or ");
                    let message = cat3("ambiguous enum variant `", name, "`");
                    let help = cat2("qualify the variant: ", listed.as_str());
                    let d = Diag::error(span, message).with_help(help);
                    self.diags.push(d);
                    return Some(Value::Error);
                }
                assert(spec_names(owners@)[0] == owners@[0]@);
                match find_enum_index(&self.enum_defs, owners[0].as_str()) {
                    Some(i) => Some(Self::enum_variant_scalar_value(&self.enum_defs[i].1, name)),
                    None => None,
                }
            },
        }
    }
}

/// The bare names of the anchor variants.
pub open spec fn spec_is_anchor_variant(name: Seq<char>) -> bool {
    name == "center"@ || name == "top_center"@ || name == "bottom_center"@ || name == "left_center"@
        || name == "right_center"@ || name == "top_left"@ || name == "top_right"@ || name
        == "bottom_left"@ || name == "bottom_right"@
}

impl Checker {
    pub fn is_anchor_variant_name(name: &str) -> (r: bool)
        ensures
            r == spec_is_anchor_variant(name@),
    {
        str_eq(name, "center") || str_eq(name, "top_center") || str_eq(name, "bottom_center")
            || str_eq(name, "left_center") || str_eq(name, "right_center") || str_eq(name, "top_left")
            || str_eq(name, "top_right") || str_eq(name, "bottom_left") || str_eq(name, "bottom_right")
    }
}

} // verus!
