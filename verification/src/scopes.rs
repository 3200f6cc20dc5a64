//! Lexical bindings of values and styles, parameter-unit validation.
use vstd::prelude::*;
use crate::ast::{Expr, SExpr, Unit};
use crate::checker::{Checker, StyleDef};
use crate::diag::{diag_view, error_view, Diag, DiagView, Severity, Span};
use crate::sx::Sx;
use crate::text::{cat3, str_eq};
use crate::value::Value;

verus! {

/// The value bound to `name` in `scope`, searching entries from index `j` on;
/// the earliest matching entry wins.
pub open spec fn scope_get_from(scope: Seq<(String, Value)>, name: Seq<char>, j: int) -> Option<
    Value,
>
    decreases scope.len() - j,
{
    if j < 0 || j >= scope.len() {
        None
    } else if scope[j].0@ == name {
        Some(scope[j].1)
    } else {
        scope_get_from(scope, name, j + 1)
    }
}

pub open spec fn scope_get(scope: Seq<(String, Value)>, name: Seq<char>) -> Option<Value> {
    scope_get_from(scope, name, 0)
}

/// The binding of `name` in the scopes `0..k`, innermost (highest index) first.
pub open spec fn scopes_get_upto(scopes: Seq<Vec<(String, Value)>>, name: Seq<char>, k: int) -> Option<
    Value,
>
    decreases k,
{
    if k <= 0 {
        None
    } else {
        match scope_get(scopes[k - 1]@, name) {
            Some(v) => Some(v),
            None => scopes_get_upto(scopes, name, k - 1),
        }
    }
}

pub open spec fn scopes_get(scopes: Seq<Vec<(String, Value)>>, name: Seq<char>) -> Option<Value> {
    scopes_get_upto(scopes, name, scopes.len() as int)
}

/// Name lookup: the innermost binding, else the builtin `coord`.
pub open spec fn spec_lookup(scopes: Seq<Vec<(String, Value)>>, name: Seq<char>) -> Option<Value> {
    match scopes_get(scopes, name) {
        Some(v) => Some(v),
        None => if name == "coord"@ {
            Some(Value::Vec2((Sx::CoordX, Sx::CoordY)))
        } else {
            None
        },
    }
}

/// The index of the earliest entry named `name`, from `j` on.
pub open spec fn scope_index_from(scope: Seq<(String, Value)>, name: Seq<char>, j: int) -> Option<
    int,
>
    decreases scope.len() - j,
{
    if j < 0 || j >= scope.len() {
        None
    } else if scope[j].0@ == name {
        Some(j)
    } else {
        scope_index_from(scope, name, j + 1)
    }
}

pub proof fn lemma_index_get(scope: Seq<(String, Value)>, name: Seq<char>, j: int)
    requires
        0 <= j,
    ensures
        scope_index_from(scope, name, j) matches Some(i) ==> j <= i < scope.len() && scope[i].0@
            == name && scope_get_from(scope, name, j) == Some(scope[i].1) && (forall|k: int|
            j <= k < i ==> scope[k].0@ != name),
        scope_index_from(scope, name, j) is None ==> scope_get_from(scope, name, j) is None && (
        forall|k: int| j <= k < scope.len() ==> scope[k].0@ != name),
    decreases scope.len() - j,
{
    if j < scope.len() && scope[j].0@ != name {
        lemma_index_get(scope, name, j + 1);
    }
}

/// Replacing the entry at `i` keeps every other name's lookup, provided `i`
/// is the earliest entry for its own name.
pub proof fn lemma_get_update(
    scope: Seq<(String, Value)>,
    i: int,
    e: (String, Value),
    n: Seq<char>,
    j: int,
)
    requires
        0 <= j <= i < scope.len(),
        scope[i].0@ == e.0@,
        forall|k: int| 0 <= k < i ==> scope[k].0@ != e.0@,
    ensures
        scope_get_from(scope.update(i, e), n, j) == if n == e.0@ {
            Some(e.1)
        } else {
            scope_get_from(scope, n, j)
        },
    decreases scope.len() - j,
{
    if j < i {
        lemma_get_update(scope, i, e, n, j + 1);
    } else {
        if n != e.0@ {
            lemma_get_update_tail(scope, i, e, n, j + 1);
        }
    }
}

pub proof fn lemma_get_update_tail(
    scope: Seq<(String, Value)>,
    i: int,
    e: (String, Value),
    n: Seq<char>,
    j: int,
)
    requires
        0 <= i < j,
        i < scope.len(),
    ensures
        scope_get_from(scope.update(i, e), n, j) == scope_get_from(scope, n, j),
    decreases scope.len() - j,
{
    if j < scope.len() {
        assert(scope.update(i, e)[j] == scope[j]);
        lemma_get_update_tail(scope, i, e, n, j + 1);
    }
}

/// Appending an entry whose name is absent adds exactly that name.
pub proof fn lemma_get_push(scope: Seq<(String, Value)>, e: (String, Value), n: Seq<char>, j: int)
    requires
        0 <= j <= scope.len(),
        forall|k: int| j <= k < scope.len() ==> scope[k].0@ != e.0@,
    ensures
        scope_get_from(scope.push(e), n, j) == if n == e.0@ {
            Some(e.1)
        } else {
            scope_get_from(scope, n, j)
        },
    decreases scope.len() - j,
{
    if j < scope.len() {
        assert(scope.push(e)[j] == scope[j]);
        lemma_get_push(scope, e, n, j + 1);
    } else {
        assert(scope.push(e)[j] == e);
        assert(scope_get_from(scope.push(e), n, j + 1) is None);
    }
}

/// Scopes other than the one at `k` keep their lookups.
pub proof fn lemma_scopes_frame(
    a: Seq<Vec<(String, Value)>>,
    b: Seq<Vec<(String, Value)>>,
    n: Seq<char>,
    k: int,
)
    requires
        0 <= k <= a.len(),
        a.len() == b.len(),
        forall|i: int| 0 <= i < k ==> a[i]@ == b[i]@,
    ensures
        scopes_get_upto(a, n, k) == scopes_get_upto(b, n, k),
    decreases k,
{
    if k > 0 {
        lemma_scopes_frame(a, b, n, k - 1);
    }
}

/// The index of the innermost scope below `k` (the highest index) that binds `name`.
pub open spec fn innermost_binding_upto(scopes: Seq<Vec<(String, Value)>>, name: Seq<char>, k: int) -> Option<
    int,
>
    decreases k,
{
    if k <= 0 {
        None
    } else if scope_get(scopes[k - 1]@, name) is Some {
        Some(k - 1)
    } else {
        innermost_binding_upto(scopes, name, k - 1)
    }
}

/// The index of the innermost scope that binds `name`.
pub open spec fn innermost_binding(scopes: Seq<Vec<(String, Value)>>, name: Seq<char>) -> Option<int> {
    innermost_binding_upto(scopes, name, scopes.len() as int)
}

/// A scope that binds `name` with every scope above it up to `k` unbound is
/// the innermost binding below `k`; with no binding below `k` there is none.
pub proof fn lemma_innermost_binding(scopes: Seq<Vec<(String, Value)>>, name: Seq<char>, idx: int, k: int)
    requires
        0 <= k <= scopes.len(),
        forall|i: int| idx < i < k ==> scope_get(scopes[i]@, name) is None,
        0 <= idx < k ==> scope_get(scopes[idx]@, name) is Some,
    ensures
        0 <= idx < k ==> innermost_binding_upto(scopes, name, k) == Some(idx),
        idx < 0 ==> innermost_binding_upto(scopes, name, k) is None,
    decreases k,
{
    if k > 0 && k - 1 != idx {
        lemma_innermost_binding(scopes, name, idx, k - 1);
    }
}

/// `after` is `before` with `name` re-bound to `v`.
pub open spec fn rebound(
    after: Seq<Vec<(String, Value)>>,
    before: Seq<Vec<(String, Value)>>,
    name: Seq<char>,
    v: Value,
) -> bool {
    &&& scopes_get(before, name) is Some
    &&& forall|n: Seq<char>|
        scopes_get(after, n) == if n == name {
            Some(v)
        } else {
            scopes_get(before, n)
        }
}

/// The set of `(scope index, name)` writes a tracking frame records.
pub open spec fn writes_view(ws: Seq<(usize, String)>) -> Set<(usize, Seq<char>)> {
    Set::new(|p: (usize, Seq<char>)| exists|i: int| 0 <= i < ws.len() && ws[i].0 == p.0 && ws[i].1@ == p.1)
}

/// Adds `(index, name)` to a write-tracking frame unless it is already there.
pub fn record_write(ws: &mut Vec<(usize, String)>, index: usize, name: &str)
    ensures
        writes_view(final(ws)@) == writes_view(old(ws)@).insert((index, name@)),
{
    let mut i: usize = 0;
    while i < ws.len()
        invariant
            i <= ws@.len(),
            forall|k: int| 0 <= k < i ==> !(ws@[k].0 == index && ws@[k].1@ == name@),
        decreases ws@.len() - i,
    {
        if ws[i].0 == index && str_eq(ws[i].1.as_str(), name) {
            proof {
                assert(writes_view(ws@) =~= writes_view(ws@).insert((index, name@)));
            }
            return;
        }
        i += 1;
    }
    let ghost before = ws@;
    ws.push((index, String::from_str(name)));
    proof {
        assert forall|p: (usize, Seq<char>)| writes_view(ws@).contains(p) <==> writes_view(
            before,
        ).insert((index, name@)).contains(p) by {
            if writes_view(before).contains(p) {
                let j = choose|j: int| 0 <= j < before.len() && before[j].0 == p.0 && before[j].1@
                    == p.1;
                assert(ws@[j] == before[j]);
            }
            if writes_view(ws@).contains(p) {
                let j = choose|j: int| 0 <= j < ws@.len() && ws@[j].0 == p.0 && ws@[j].1@ == p.1;
                if j < before.len() {
                    assert(ws@[j] == before[j]);
                }
            }
            if p == (index, name@) {
                assert(ws@[before.len() as int].1@ == name@);
            }
        }
        assert(writes_view(ws@) =~= writes_view(before).insert((index, name@)));
    }
}

/// The index of the earliest entry named `name` in `scope`.
pub fn find_in_scope(scope: &Vec<(String, Value)>, name: &str) -> (r: Option<usize>)
    ensures
        r matches Some(i) ==> i < scope@.len() && scope@[i as int].0@ == name@ && scope_get(
            scope@,
            name@,
        ) == Some(scope@[i as int].1) && (forall|k: int| 0 <= k < i ==> scope@[k].0@ != name@),
        r is None ==> scope_get(scope@, name@) is None && (forall|k: int|
            0 <= k < scope@.len() ==> scope@[k].0@ != name@),
{
    let mut j: usize = 0;
    while j < scope.len()
        invariant
            j <= scope@.len(),
            scope_get_from(scope@, name@, 0) == scope_get_from(scope@, name@, j as int),
            forall|k: int| 0 <= k < j ==> scope@[k].0@ != name@,
        decreases scope@.len() - j,
    {
        if str_eq(scope[j].0.as_str(), name) {
            return Some(j);
        }
        j += 1;
    }
    None
}

pub open spec fn spec_unit_family(unit: Unit) -> Seq<char> {
    match unit {
        Unit::Unitless => "unitless"@,
        Unit::Px | Unit::Uv | Unit::Vw | Unit::Vh | Unit::Vmin | Unit::Vmax => "length"@,
        Unit::Deg | Unit::Turn => "angle"@,
        Unit::Sec | Unit::MilliSec => "time"@,
    }
}

pub open spec fn spec_literal_unit(expr: SExpr) -> Option<Unit> {
    match expr.node {
        Expr::Num(_, unit) => Some(unit),
        _ => None,
    }
}

/// The unit-carrying literals of a param declaration, in order: default,
/// range minimum, range maximum.
pub open spec fn param_literals(default: SExpr, range: Option<(SExpr, SExpr)>) -> Seq<Unit> {
    let d = match spec_literal_unit(default) {
        Some(u) => seq![u],
        None => Seq::empty(),
    };
    match range {
        Some((lo, hi)) => d + match spec_literal_unit(lo) {
            Some(u) => seq![u],
            None => Seq::empty(),
        } + match spec_literal_unit(hi) {
            Some(u) => seq![u],
            None => Seq::empty(),
        },
        None => d,
    }
}

/// The spans of a param declaration's unit-carrying literals, in the order of
/// `param_literals`.
pub open spec fn param_literal_spans(default: SExpr, range: Option<(SExpr, SExpr)>) -> Seq<Span> {
    let d = if spec_literal_unit(default) is Some {
        seq![default.span]
    } else {
        Seq::empty()
    };
    match range {
        Some((lo, hi)) => d + (if spec_literal_unit(lo) is Some {
            seq![lo.span]
        } else {
            Seq::empty()
        }) + (if spec_literal_unit(hi) is Some {
            seq![hi.span]
        } else {
            Seq::empty()
        }),
        None => d,
    }
}

/// What each unit-carrying literal of a param declaration is, in the order
/// of `param_literals`.
pub open spec fn param_literal_labels(default: SExpr, range: Option<(SExpr, SExpr)>) -> Seq<
    Seq<char>,
> {
    let d = if spec_literal_unit(default) is Some {
        seq!["default"@]
    } else {
        Seq::empty()
    };
    match range {
        Some((lo, hi)) => d + (if spec_literal_unit(lo) is Some {
            seq!["range minimum"@]
        } else {
            Seq::empty()
        }) + (if spec_literal_unit(hi) is Some {
            seq!["range maximum"@]
        } else {
            Seq::empty()
        }),
        None => d,
    }
}

/// The index of the first literal from `j` on that carries a unit.
pub open spec fn first_united_from(units: Seq<Unit>, j: int) -> int
    decreases units.len() - j,
{
    if j < 0 || j >= units.len() {
        units.len() as int
    } else if !(units[j] is Unitless) {
        j
    } else {
        first_united_from(units, j + 1)
    }
}

/// The index of the first literal from `j` on whose unit family is not `family`.
pub open spec fn first_other_family_from(units: Seq<Unit>, family: Seq<char>, j: int) -> int
    decreases units.len() - j,
{
    if j < 0 || j >= units.len() {
        units.len() as int
    } else if spec_unit_family(units[j]) != family {
        j
    } else {
        first_other_family_from(units, family, j + 1)
    }
}

/// The error reported for a param whose literal units do not suit its type:
/// for an integer type, at the first literal with a unit; for a float type,
/// at the name, naming the first literal whose family differs from the first
/// literal's.
pub open spec fn param_units_error(
    name: Seq<char>,
    name_span: Span,
    ty_name: Seq<char>,
    default: SExpr,
    range: Option<(SExpr, SExpr)>,
) -> DiagView {
    let units = param_literals(default, range);
    let spans = param_literal_spans(default, range);
    let labels = param_literal_labels(default, range);
    if ty_name == "i32"@ || ty_name == "u32"@ {
        let i = first_united_from(units, 0);
        error_view(
            spans[i],
            "param `"@ + name + "` "@ + labels[i] + " must be unitless for `"@ + ty_name + "`"@,
            Some("remove the unit suffix"@),
            Some("integer params accept plain integer literals only"@),
        )
    } else {
        let base = spec_unit_family(units[0]);
        let i = first_other_family_from(units, base, 0);
        error_view(
            name_span,
            "param `"@ + name + "` mixes incompatible unit families in default/range"@,
            Some(labels[i] + " uses "@ + spec_unit_family(units[i]) + " units here"@),
            Some("use one unit family consistently (current baseline: "@ + base + ")"@),
        )
    }
}

/// Whether a param's literal units are acceptable for its type: integer
/// params take unitless literals only; float params with two or more
/// literals keep one unit family.
pub open spec fn spec_param_units_ok(ty_name: Seq<char>, units: Seq<Unit>) -> bool {
    if ty_name == "i32"@ || ty_name == "u32"@ {
        forall|i: int| 0 <= i < units.len() ==> units[i] is Unitless
    } else if (ty_name == "f32"@ || ty_name == "f64"@ || ty_name == "half"@) && units.len() >= 2 {
        forall|i: int| 0 <= i < units.len() ==> spec_unit_family(#[trigger] units[i]) == spec_unit_family(units[0])
    } else {
        true
    }
}

impl Checker {
    /// The value a name denotes, innermost scope first.
    pub fn lookup(&self, name: &str) -> (r: Option<Value>)
        ensures
            r == spec_lookup(self.scopes@, name@),
    {
        let mut k: usize = self.scopes.len();
        while k > 0
            invariant
                k <= self.scopes@.len(),
                scopes_get(self.scopes@, name@) == scopes_get_upto(self.scopes@, name@, k as int),
            decreases k,
        {
            let scope = &self.scopes[k - 1];
            match find_in_scope(scope, name) {
                Some(i) => {
                    assert(scope_get(self.scopes@[k - 1]@, name@) == Some(scope@[i as int].1));
                    assert(scopes_get_upto(self.scopes@, name@, k as int) == Some(
                        scope@[i as int].1,
                    ));
                    return Some(scope[i].1.clone_value());
                },
                None => {},
            }
            k -= 1;
        }
        if str_eq(name, "coord") {
            Some(Value::Vec2((Sx::CoordX, Sx::CoordY)))
        } else {
            None
        }
    }

    /// The style a name denotes, innermost style scope first.
    pub fn lookup_style(&self, name: &str) -> (r: Option<&StyleDef>)
        ensures
            r matches Some(d) ==> exists|k: int, i: int|
                0 <= k < self.style_scopes@.len() && 0 <= i < self.style_scopes@[k]@.len()
                    && self.style_scopes@[k]@[i].0@ == name@ && self.style_scopes@[k]@[i].1 == *d
                    && (forall|k2: int, i2: int|
                    k < k2 < self.style_scopes@.len() && 0 <= i2 < self.style_scopes@[k2]@.len()
                        ==> self.style_scopes@[k2]@[i2].0@ != name@),
            r is None ==> forall|k: int, i: int|
                0 <= k < self.style_scopes@.len() && 0 <= i < self.style_scopes@[k]@.len()
                    ==> self.style_scopes@[k]@[i].0@ != name@,
    {
        let mut k: usize = self.style_scopes.len();
        while k > 0
            invariant
                k <= self.style_scopes@.len(),
                forall|k2: int, i2: int|
                    k <= k2 < self.style_scopes@.len() && 0 <= i2 < self.style_scopes@[k2]@.len()
                        ==> self.style_scopes@[k2]@[i2].0@ != name@,
            decreases k,
        {
            let scope = &self.style_scopes[k - 1];
            let mut i: usize = 0;
            while i < scope.len()
                invariant
                    k > 0,
                    k <= self.style_scopes@.len(),
                    scope == &self.style_scopes@[k - 1],
                    forall|k2: int, i2: int|
                        k <= k2 < self.style_scopes@.len() && 0 <= i2
                            < self.style_scopes@[k2]@.len() ==> self.style_scopes@[k2]@[i2].0@
                            != name@,
                    i <= scope@.len(),
                    forall|i2: int| 0 <= i2 < i ==> scope@[i2].0@ != name@,
                decreases scope@.len() - i,
            {
                if str_eq(scope[i].0.as_str(), name) {
                    let ghost kk = k - 1;
                    assert(0 <= kk < self.style_scopes@.len() && 0 <= i < self.style_scopes@[kk]@.len()
                        && self.style_scopes@[kk]@[i as int].0@ == name@
                        && self.style_scopes@[kk]@[i as int].1 == scope@[i as int].1
                        && (forall|k2: int, i2: int|
                        kk < k2 < self.style_scopes@.len() && 0 <= i2 < self.style_scopes@[k2]@.len()
                            ==> self.style_scopes@[k2]@[i2].0@ != name@));
                    return Some(&scope[i].1);
                }
                i += 1;
            }
            k -= 1;
        }
        None
    }

    /// Binds `name` in the innermost scope, replacing an earlier binding there.
    pub fn bind(&mut self, name: String, v: Value)
        requires
            old(self).scopes@.len() > 0,
        ensures
            final(self).scopes@.len() == old(self).scopes@.len(),
            forall|i: int|
                0 <= i < old(self).scopes@.len() - 1 ==> final(self).scopes@[i] == old(
                    self,
                ).scopes@[i],
            forall|n: Seq<char>|
                scope_get(final(self).scopes@.last()@, n) == if n == name@ {
                    Some(v)
                } else {
                    scope_get(old(self).scopes@.last()@, n)
                },
            forall|n: Seq<char>|
                scopes_get(final(self).scopes@, n) == if n == name@ {
                    Some(v)
                } else {
                    scopes_get(old(self).scopes@, n)
                },
            final(self).diags == old(self).diags,
            final(self).style_scopes == old(self).style_scopes,
            final(self).assignment_scopes == old(self).assignment_scopes,
            final(self).let_counter == old(self).let_counter,
            final(self).enum_defs == old(self).enum_defs,
            final(self).unqualified_enums == old(self).unqualified_enums,
            final(self).params == old(self).params,
    {
        let ghost old_scopes = self.scopes@;
        let mut top = self.scopes.pop().unwrap();
        let ghost old_top = top@;
        proof {
            lemma_index_get(top@, name@, 0);
        }
        let idx = find_in_scope(&top, name.as_str());
        let ghost entry = (name, v);
        match idx {
            Some(i) => {
                assert(old_top[i as int].0@ == entry.0@);
                top.set(i, (name, v));
                proof {
                    assert forall|n: Seq<char>|
                        scope_get(top@, n) == if n == entry.0@ {
                            Some(entry.1)
                        } else {
                            scope_get(old_top, n)
                        } by {
                        lemma_get_update(old_top, i as int, entry, n, 0);
                    }
                }
            },
            None => {
                top.push((name, v));
                proof {
                    assert forall|n: Seq<char>|
                        scope_get(top@, n) == if n == entry.0@ {
                            Some(entry.1)
                        } else {
                            scope_get(old_top, n)
                        } by {
                        lemma_get_push(old_top, entry, n, 0);
                    }
                }
            },
        }
        self.scopes.push(top);
        proof {
            let len = old_scopes.len() as int;
            assert forall|n: Seq<char>|
                scopes_get(self.scopes@, n) == if n == entry.0@ {
                    Some(entry.1)
                } else {
                    scopes_get(old_scopes, n)
                } by {
                assert(self.scopes@[len - 1]@ == top@);
                lemma_scopes_frame(self.scopes@, old_scopes, n, len - 1);
            }
        }
    }

    /// Re-binds the innermost existing binding of `name`, recording the write
    /// in every open tracking frame; `false` when `name` is unbound.
    pub fn assign(&mut self, name: &str, v: Value) -> (r: bool)
        ensures
            r == (scopes_get(old(self).scopes@, name@) is Some),
            r ==> forall|n: Seq<char>|
                scopes_get(final(self).scopes@, n) == if n == name@ {
                    Some(v)
                } else {
                    scopes_get(old(self).scopes@, n)
                },
            !r ==> final(self).scopes@ == old(self).scopes@,
            final(self).scopes@.len() == old(self).scopes@.len(),
            final(self).assignment_scopes@.len() == old(self).assignment_scopes@.len(),
            !r ==> final(self).assignment_scopes == old(self).assignment_scopes,
            r == (innermost_binding(old(self).scopes@, name@) is Some),
            (match innermost_binding(old(self).scopes@, name@) {
                Some(j) => {
                    &&& forall|k: int|
                        0 <= k < old(self).scopes@.len() && k != j ==> final(self).scopes@[k] == old(
                            self,
                        ).scopes@[k]
                    &&& scope_index_from(old(self).scopes@[j]@, name@, 0) matches Some(i)
                        && final(self).scopes@[j]@[i].0@ == name@ && final(self).scopes@[j]@
                        == old(self).scopes@[j]@.update(i, (final(self).scopes@[j]@[i].0, v))
                    &&& forall|f: int|
                        0 <= f < final(self).assignment_scopes@.len() ==> writes_view(
                            final(self).assignment_scopes@[f]@,
                        ) == writes_view(old(self).assignment_scopes@[f]@).insert(
                            (j as usize, name@),
                        )
                },
                None => true,
            }),
            final(self).diags == old(self).diags,
            final(self).style_scopes == old(self).style_scopes,
            final(self).let_counter == old(self).let_counter,
    {
        let ghost old_scopes = self.scopes@;
        let mut k: usize = self.scopes.len();
        while k > 0
            invariant
                k <= self.scopes@.len(),
                self.scopes@ == old_scopes,
                old_scopes == old(self).scopes@,
                self.assignment_scopes == old(self).assignment_scopes,
                self.diags == old(self).diags,
                self.style_scopes == old(self).style_scopes,
                self.let_counter == old(self).let_counter,
                scopes_get(old_scopes, name@) == scopes_get_upto(old_scopes, name@, k as int),
                forall|i: int| k <= i < old_scopes.len() ==> scope_get(old_scopes[i]@, name@) is None,
            decreases k,
        {
            proof {
                lemma_index_get(self.scopes@[k - 1]@, name@, 0);
            }
            let found = find_in_scope(&self.scopes[k - 1], name);
            if let Some(i) = found {
                let index = k - 1;
                assert(index < old_scopes.len());
                assert(old_scopes == old(self).scopes@);
                assert(scope_get(old_scopes[index as int]@, name@) is Some);
                let mut scope = self.scopes.remove(index);
                let ghost old_scope = scope@;
                assert(old_scope == old_scopes[index as int]@);
                assert(old_scope[i as int].0@ == name@);
                let key = String::from_str(name);
                let ghost e = (key, v);
                scope.set(i, (key, v));
                self.scopes.insert(index, scope);
                let ghost new_scopes = self.scopes@;
                proof {
                    assert(new_scopes =~= old_scopes.update(index as int, new_scopes[index as int]));
                    assert(new_scopes[index as int]@ == old_scope.update(i as int, e));
                    assert forall|n: Seq<char>|
                        scopes_get(new_scopes, n) == if n == name@ {
                            Some(v)
                        } else {
                            scopes_get(old_scopes, n)
                        } by {
                        lemma_get_update(old_scope, i as int, e, n, 0);
                        if n == name@ {
                            assert forall|j: int| index < j < new_scopes.len() implies scope_get(
                                new_scopes[j]@,
                                n,
                            ) is None by {
                                assert(new_scopes[j] == old_scopes[j]);
                            }
                            lemma_scopes_hit(new_scopes, n, index as int, new_scopes.len() as int);
                        } else {
                            lemma_scopes_replace(
                                new_scopes,
                                old_scopes,
                                index as int,
                                n,
                                old_scopes.len() as int,
                            );
                        }
                    }
                    lemma_scopes_hit(old_scopes, name@, index as int, k as int);
                    assert(scope_get(old_scopes[index as int]@, name@) is Some);
                    assert(scopes_get(old_scopes, name@) == scopes_get_upto(old_scopes, name@, k as int));
                    assert(scopes_get(old_scopes, name@) is Some);
                    assert(rebound(new_scopes, old(self).scopes@, name@, v));
                    lemma_innermost_binding(old_scopes, name@, index as int, old_scopes.len() as int);
                    lemma_index_get(old_scope, name@, 0);
                    assert forall|k2: int|
                        0 <= k2 < old_scopes.len() && k2 != index implies new_scopes[k2]
                        == old_scopes[k2] by {
                        assert(new_scopes[k2] == old_scopes.update(index as int, new_scopes[index as int])[k2]);
                    }
                    assert(new_scopes[index as int]@[i as int] == e);
                    assert(new_scopes[index as int]@ =~= old_scope.update(
                        i as int,
                        (new_scopes[index as int]@[i as int].0, v),
                    ));
                }
                let ghost old_frames = self.assignment_scopes@;
                let mut f: usize = 0;
                let mut frames: Vec<Vec<(usize, String)>> = Vec::new();
                while self.assignment_scopes.len() > 0
                    invariant
                        self.scopes@ == new_scopes,
                        rebound(new_scopes, old(self).scopes@, name@, v),
                        new_scopes.len() == old(self).scopes@.len(),
                        innermost_binding(old(self).scopes@, name@) == Some(index as int),
                        forall|k2: int|
                            0 <= k2 < old(self).scopes@.len() && k2 != index ==> new_scopes[k2]
                                == old(self).scopes@[k2],
                        scope_index_from(old(self).scopes@[index as int]@, name@, 0) == Some(
                            i as int,
                        ),
                        new_scopes[index as int]@[i as int].0@ == name@,
                        new_scopes[index as int]@ == old(self).scopes@[index as int]@.update(
                            i as int,
                            (new_scopes[index as int]@[i as int].0, v),
                        ),
                        0 <= index < old(self).scopes@.len(),
                        scope_get(old(self).scopes@[index as int]@, name@) is Some,
                        self.diags == old(self).diags,
                        self.style_scopes == old(self).style_scopes,
                        self.let_counter == old(self).let_counter,
                        frames@.len() + self.assignment_scopes@.len() == old_frames.len(),
                        forall|j: int|
                            0 <= j < self.assignment_scopes@.len() ==> self.assignment_scopes@[j]
                                == old_frames[j],
                        forall|j: int|
                            0 <= j < frames@.len() ==> writes_view(frames@[j]@) == writes_view(
                                old_frames[old_frames.len() - 1 - j]@,
                            ).insert((index, name@)),
                    decreases self.assignment_scopes@.len(),
                {
                    let mut w = self.assignment_scopes.pop().unwrap();
                    record_write(&mut w, index, name);
                    frames.push(w);
                }
                while frames.len() > 0
                    invariant
                        self.scopes@ == new_scopes,
                        rebound(new_scopes, old(self).scopes@, name@, v),
                        new_scopes.len() == old(self).scopes@.len(),
                        innermost_binding(old(self).scopes@, name@) == Some(index as int),
                        forall|k2: int|
                            0 <= k2 < old(self).scopes@.len() && k2 != index ==> new_scopes[k2]
                                == old(self).scopes@[k2],
                        scope_index_from(old(self).scopes@[index as int]@, name@, 0) == Some(
                            i as int,
                        ),
                        new_scopes[index as int]@[i as int].0@ == name@,
                        new_scopes[index as int]@ == old(self).scopes@[index as int]@.update(
                            i as int,
                            (new_scopes[index as int]@[i as int].0, v),
                        ),
                        0 <= index < old(self).scopes@.len(),
                        scope_get(old(self).scopes@[index as int]@, name@) is Some,
                        self.diags == old(self).diags,
                        self.style_scopes == old(self).style_scopes,
                        self.let_counter == old(self).let_counter,
                        frames@.len() + self.assignment_scopes@.len() == old_frames.len(),
                        forall|j: int|
                            0 <= j < self.assignment_scopes@.len() ==> writes_view(
                                self.assignment_scopes@[j]@,
                            ) == writes_view(old_frames[j]@).insert((index, name@)),
                        forall|j: int|
                            0 <= j < frames@.len() ==> writes_view(frames@[j]@) == writes_view(
                                old_frames[old_frames.len() - 1 - j]@,
                            ).insert((index, name@)),
                    decreases frames@.len(),
                {
                    let w = frames.pop().unwrap();
                    self.assignment_scopes.push(w);
                }
                return true;
            }
            k -= 1;
        }
        proof {
            lemma_innermost_binding(old_scopes, name@, -1, old_scopes.len() as int);
        }
        false
    }

    /// Declares a style in the innermost style scope; a redeclaration there
    /// replaces it and reports an error.
    pub fn bind_style(&mut self, name: String, def: StyleDef, name_span: Span)
        requires
            old(self).style_scopes@.len() > 0,
        ensures
            final(self).style_scopes@.len() == old(self).style_scopes@.len(),
            final(self).scopes == old(self).scopes,
            (exists|i: int|
                0 <= i < old(self).style_scopes@.last()@.len()
                    && old(self).style_scopes@.last()@[i].0@ == name@) ==> final(self).diags@.len()
                == old(self).diags@.len() + 1 && final(self).diags@.last().severity
                == Severity::Error && final(self).diags@.last().span == name_span
                && final(self).diags@.last().message@ == "duplicate style declaration `"@ + name@
                + "`"@,
            !(exists|i: int|
                0 <= i < old(self).style_scopes@.last()@.len()
                    && old(self).style_scopes@.last()@[i].0@ == name@) ==> final(self).diags
                == old(self).diags,
            exists|i: int|
                0 <= i < final(self).style_scopes@.last()@.len()
                    && final(self).style_scopes@.last()@[i].0@ == name@
                    && final(self).style_scopes@.last()@[i].1 == def,
    {
        let mut top = self.style_scopes.pop().unwrap();
        let ghost old_top = top@;
        assert(old_top == old(self).style_scopes@.last()@);
        let mut i: usize = 0;
        let mut found: Option<usize> = None;
        while i < top.len()
            invariant
                i <= top@.len(),
                top@ == old_top,
                found is None ==> forall|j: int| 0 <= j < i ==> top@[j].0@ != name@,
                found matches Some(f) ==> f < top@.len() && top@[f as int].0@ == name@,
            decreases top@.len() - i,
        {
            if found.is_none() && str_eq(top[i].0.as_str(), name.as_str()) {
                found = Some(i);
            }
            i += 1;
        }
        match found {
            Some(f) => {
                assert(old_top[f as int].0@ == name@);
                let msg = cat3("duplicate style declaration `", name.as_str(), "`");
                top.set(f, (name, def));
                let d = Diag::error(name_span, msg).with_help(
                    String::from_str(
                        "rename the style or remove the earlier declaration in this scope",
                    ),
                );
                self.diags.push(d);
                self.style_scopes.push(top);
                assert(self.style_scopes@.last()@[f as int].1 == def);
            },
            None => {
                top.push((name, def));
                self.style_scopes.push(top);
                assert(self.style_scopes@.last()@[old_top.len() as int].1 == def);
            },
        }
    }

    pub fn unit_family(unit: Unit) -> (r: &'static str)
        ensures
            r@ == spec_unit_family(unit),
    {
        match unit {
            Unit::Unitless => "unitless",
            Unit::Px | Unit::Uv | Unit::Vw | Unit::Vh | Unit::Vmin | Unit::Vmax => "length",
            Unit::Deg | Unit::Turn => "angle",
            Unit::Sec | Unit::MilliSec => "time",
        }
    }

    pub fn literal_num_unit(expr: &SExpr) -> (r: Option<Unit>)
        ensures
            r == spec_literal_unit(*expr),
    {
        match &expr.node {
            Expr::Num(_, unit) => Some(*unit),
            _ => None,
        }
    }

    /// Checks the units of a param's literal default and range: integer
    /// params take unitless literals only, float params keep one unit family.
    /// Reports the first violation and returns whether there was none.
    pub fn validate_param_literal_units(
        &mut self,
        name: &str,
        name_span: &Span,
        ty_name: &str,
        default: &SExpr,
        range: Option<&(SExpr, SExpr)>,
    ) -> (r: bool)
        ensures
            r == spec_param_units_ok(
                ty_name@,
                param_literals(
                    *default,
                    match range {
                        Some(p) => Some(*p),
                        None => None,
                    },
                ),
            ),
            r ==> final(self).diags == old(self).diags,
            !r ==> final(self).diags@.len() == old(self).diags@.len() + 1
                && final(self).diags@.last().severity == Severity::Error,
            !r ==> final(self).diags@.drop_last() == old(self).diags@,
            !r ==> diag_view(final(self).diags@.last()) == param_units_error(
                name@,
                *name_span,
                ty_name@,
                *default,
                match range {
                    Some(p) => Some(*p),
                    None => None,
                },
            ),
            final(self).scopes == old(self).scopes,
            final(self).let_counter == old(self).let_counter,
            final(self).params == old(self).params,
    {
        let ghost rng = match range {
            Some(p) => Some(*p),
            None => None::<(SExpr, SExpr)>,
        };
        let mut units: Vec<Unit> = Vec::new();
        let mut spans: Vec<Span> = Vec::new();
        let mut labels: Vec<&str> = Vec::new();
        if let Some(u) = Self::literal_num_unit(default) {
            units.push(u);
            spans.push(default.span);
            labels.push("default");
        }
        if let Some(pair) = range {
            if let Some(u) = Self::literal_num_unit(&pair.0) {
                units.push(u);
                spans.push(pair.0.span);
                labels.push("range minimum");
            }
            if let Some(u) = Self::literal_num_unit(&pair.1) {
                units.push(u);
                spans.push(pair.1.span);
                labels.push("range maximum");
            }
        }
        assert(units@ =~= param_literals(*default, rng));
        assert(spans@ =~= param_literal_spans(*default, rng));
        assert(labels@.len() == param_literal_labels(*default, rng).len());
        assert(forall|j: int| 0 <= j < labels@.len() ==> labels@[j]@ == param_literal_labels(*default, rng)[j]);
        let n = units.len();
        let is_int = str_eq(ty_name, "i32") || str_eq(ty_name, "u32");
        let is_float = str_eq(ty_name, "f32") || str_eq(ty_name, "f64") || str_eq(ty_name, "half");
        if is_int {
            let mut i: usize = 0;
            while i < n
                invariant
                    n == units@.len(),
                    n == spans@.len(),
                    n == labels@.len(),
                    i <= n,
                    forall|j: int| 0 <= j < i ==> units@[j] is Unitless,
                    first_united_from(units@, 0) == first_united_from(units@, i as int),
                    spans@ == param_literal_spans(*default, rng),
                    forall|j: int| 0 <= j < labels@.len() ==> labels@[j]@ == param_literal_labels(*default, rng)[j],
                    rng == match range {
                        Some(p) => Some(*p),
                        None => None::<(SExpr, SExpr)>,
                    },
                    units@ == param_literals(
                        *default,
                        match range {
                            Some(p) => Some(*p),
                            None => None,
                        },
                    ),
                    is_int == (ty_name@ == "i32"@ || ty_name@ == "u32"@),
                    is_int,
                    self.diags == old(self).diags,
                    self.scopes == old(self).scopes,
                    self.let_counter == old(self).let_counter,
                    self.params == old(self).params,
                decreases n - i,
            {
                if units[i] != Unit::Unitless {
                    assert(!(units@[i as int] is Unitless));
                    assert(!spec_param_units_ok(ty_name@, units@));
                    let msg = crate::text::cat7(
                        "param `",
                        name,
                        "` ",
                        labels[i],
                        " must be unitless for `",
                        ty_name,
                        "`",
                    );
                    let d = Diag::error(spans[i], msg).with_label(
                        String::from_str("remove the unit suffix"),
                    ).with_help(String::from_str("integer params accept plain integer literals only"));
                    self.diags.push(d);
                    return false;
                }
                i += 1;
            }
        } else if is_float && n >= 2 {
            let base = Self::unit_family(units[0]);
            let mut i: usize = 0;
            while i < n
                invariant
                    n == units@.len(),
                    n == labels@.len(),
                    n >= 2,
                    base@ == spec_unit_family(units@[0]),
                    i <= n,
                    forall|j: int| 0 <= j < i ==> spec_unit_family(units@[j]) == base@,
                    first_other_family_from(units@, base@, 0) == first_other_family_from(units@, base@, i as int),
                    forall|j: int| 0 <= j < labels@.len() ==> labels@[j]@ == param_literal_labels(*default, rng)[j],
                    rng == match range {
                        Some(p) => Some(*p),
                        None => None::<(SExpr, SExpr)>,
                    },
                    units@ == param_literals(
                        *default,
                        match range {
                            Some(p) => Some(*p),
                            None => None,
                        },
                    ),
                    is_int == (ty_name@ == "i32"@ || ty_name@ == "u32"@),
                    is_float == (ty_name@ == "f32"@ || ty_name@ == "f64"@ || ty_name@ == "half"@),
                    !is_int,
                    is_float,
                    self.diags == old(self).diags,
                    self.scopes == old(self).scopes,
                    self.let_counter == old(self).let_counter,
                    self.params == old(self).params,
                decreases n - i,
            {
                let fam = Self::unit_family(units[i]);
                if !str_eq(fam, base) {
                    assert(spec_unit_family(units@[i as int]) != spec_unit_family(units@[0]));
                    assert(!spec_param_units_ok(ty_name@, units@));
                    let msg = cat3(
                        "param `",
                        name,
                        "` mixes incompatible unit families in default/range",
                    );
                    let label = crate::text::cat3(labels[i], " uses ", fam);
                    let label = crate::text::cat2(label.as_str(), " units here");
                    let help = crate::text::cat3(
                        "use one unit family consistently (current baseline: ",
                        base,
                        ")",
                    );
                    let d = Diag::error(*name_span, msg).with_label(label).with_help(help);
                    self.diags.push(d);
                    return false;
                }
                i += 1;
            }
        }
        true
    }
}

/// Replacing one scope by one with the same lookup for `n` keeps `n`'s lookup.
pub proof fn lemma_scopes_replace(
    a: Seq<Vec<(String, Value)>>,
    b: Seq<Vec<(String, Value)>>,
    idx: int,
    n: Seq<char>,
    k: int,
)
    requires
        0 <= k <= a.len(),
        a.len() == b.len(),
        forall|i: int| 0 <= i < a.len() && i != idx ==> a[i]@ == b[i]@,
        0 <= idx < a.len() ==> scope_get(b[idx]@, n) == scope_get(a[idx]@, n),
    ensures
        scopes_get_upto(a, n, k) == scopes_get_upto(b, n, k),
    decreases k,
{
    if k > 0 {
        lemma_scopes_replace(a, b, idx, n, k - 1);
    }
}

/// A lookup that misses every scope above `idx` is answered by scope `idx`.
pub proof fn lemma_scopes_hit(a: Seq<Vec<(String, Value)>>, n: Seq<char>, idx: int, k: int)
    requires
        0 <= idx < k <= a.len(),
        scope_get(a[idx]@, n) is Some,
        forall|i: int| idx < i < k ==> scope_get(a[i]@, n) is None,
    ensures
        scopes_get_upto(a, n, k) == scope_get(a[idx]@, n),
    decreases k,
{
    if k - 1 > idx {
        lemma_scopes_hit(a, n, idx, k - 1);
    }
}

} // verus!
