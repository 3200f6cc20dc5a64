//! Type-name syntax: trimming, spatial qualifiers (`T in space`,
//! `T from a to b`), and whitespace-insensitive comparison.
use vstd::prelude::*;
use crate::text::{chars_of, string_of};

verus! {

broadcast use vstd::string::group_string_axioms;

/// Unicode `White_Space`, as `char::is_whitespace` decides it.
pub open spec fn is_ws(c: char) -> bool {
    let u = c as u32;
    u == 0x20 || (0x09 <= u && u <= 0x0D) || u == 0x85 || u == 0xA0 || u == 0x1680 || (0x2000
        <= u && u <= 0x200A) || u == 0x2028 || u == 0x2029 || u == 0x202F || u == 0x205F || u
        == 0x3000
}

pub fn is_ws_exec(c: char) -> (r: bool)
    ensures
        r == is_ws(c),
{
    let u = c as u32;
    u == 0x20 || (0x09 <= u && u <= 0x0D) || u == 0x85 || u == 0xA0 || u == 0x1680 || (0x2000
        <= u && u <= 0x200A) || u == 0x2028 || u == 0x2029 || u == 0x202F || u == 0x205F || u
        == 0x3000
}

pub open spec fn ltrim(s: Seq<char>) -> Seq<char>
    decreases s.len(),
{
    if s.len() > 0 && is_ws(s[0]) {
        ltrim(s.drop_first())
    } else {
        s
    }
}

pub open spec fn rtrim(s: Seq<char>) -> Seq<char>
    decreases s.len(),
{
    if s.len() > 0 && is_ws(s.last()) {
        rtrim(s.drop_last())
    } else {
        s
    }
}

/// `str::trim`: whitespace removed from both ends.
pub open spec fn trim(s: Seq<char>) -> Seq<char> {
    rtrim(ltrim(s))
}

/// `p` occurs in `s` at index `i`.
pub open spec fn match_at(s: Seq<char>, p: Seq<char>, i: int) -> bool {
    0 <= i && i + p.len() <= s.len() && s.subrange(i, i + p.len()) == p
}

/// The greatest index below `k` where `p` occurs.
pub open spec fn last_match_below(s: Seq<char>, p: Seq<char>, k: int) -> Option<int>
    decreases k,
{
    if k <= 0 {
        None
    } else if match_at(s, p, k - 1) {
        Some(k - 1)
    } else {
        last_match_below(s, p, k - 1)
    }
}

/// `str::rsplit_once`: the text around the last occurrence of `p`.
pub open spec fn rsplit_once(s: Seq<char>, p: Seq<char>) -> Option<(Seq<char>, Seq<char>)> {
    match last_match_below(s, p, s.len() + 1int) {
        Some(i) => Some((s.subrange(0, i), s.subrange(i + p.len(), s.len() as int))),
        None => None,
    }
}

/// The base type of a spatially qualified type name: `T in s` and
/// `T from a to b` give `T`; anything else is only trimmed.
pub open spec fn spec_strip_spatial(name: Seq<char>) -> Seq<char> {
    let t = trim(name);
    match rsplit_once(t, " in "@) {
        Some((base, suffix)) if trim(base).len() > 0 && trim(suffix).len() > 0 => trim(base),
        _ => match rsplit_once(t, " from "@) {
            Some((base, suffix)) if trim(base).len() > 0 && trim(suffix).len() > 0 => match rsplit_once(
                suffix,
                " to "@,
            ) {
                Some((_src, dst)) if trim(dst).len() > 0 => trim(base),
                _ => t,
            },
            _ => t,
        },
    }
}

/// The space a type is qualified with.
#[derive(Debug, PartialEq)]
pub enum SpatialQualifier {
    In(String),
    FromTo { from: String, to: String },
}

/// The view of a spatial qualifier: `(Some(space), None)` for `in`,
/// `(Some(from), Some(to))` for `from ... to`.
pub enum QualifierView {
    In(Seq<char>),
    FromTo(Seq<char>, Seq<char>),
}

pub open spec fn spec_spatial_qualifier(ty: Seq<char>) -> Option<QualifierView> {
    let t = trim(ty);
    match rsplit_once(t, " in "@) {
        Some((base, suffix)) if trim(base).len() > 0 && trim(suffix).len() > 0 => Some(
            QualifierView::In(trim(suffix)),
        ),
        _ => match rsplit_once(t, " from "@) {
            Some((base, suffix)) if trim(base).len() > 0 && trim(suffix).len() > 0 => match rsplit_once(
                suffix,
                " to "@,
            ) {
                Some((src, dst)) if trim(src).len() > 0 && trim(dst).len() > 0 => Some(
                    QualifierView::FromTo(trim(src), trim(dst)),
                ),
                _ => None,
            },
            _ => None,
        },
    }
}

impl SpatialQualifier {
    pub open spec fn view_q(self) -> QualifierView {
        match self {
            SpatialQualifier::In(s) => QualifierView::In(s@),
            SpatialQualifier::FromTo { from, to } => QualifierView::FromTo(from@, to@),
        }
    }

    /// Two qualifiers name the same spaces.
    pub fn same_as(&self, other: &SpatialQualifier) -> (r: bool)
        ensures
            r == (self.view_q() == other.view_q()),
    {
        match (self, other) {
            (SpatialQualifier::In(a), SpatialQualifier::In(b)) => *a == *b,
            (
                SpatialQualifier::FromTo { from: f1, to: t1 },
                SpatialQualifier::FromTo { from: f2, to: t2 },
            ) => *f1 == *f2 && *t1 == *t2,
            _ => false,
        }
    }
}

/// The bounds `(lo, hi)` of `trim(s.subrange(lo0, hi0))` inside `s`.
pub fn trim_bounds(s: &Vec<char>, lo0: usize, hi0: usize) -> (r: (usize, usize))
    requires
        lo0 <= hi0 <= s@.len(),
    ensures
        lo0 <= r.0 <= r.1 <= hi0,
        s@.subrange(r.0 as int, r.1 as int) == trim(s@.subrange(lo0 as int, hi0 as int)),
{
    let mut lo = lo0;
    while lo < hi0 && is_ws_exec(s[lo])
        invariant
            lo0 <= lo <= hi0 <= s@.len(),
            ltrim(s@.subrange(lo0 as int, hi0 as int)) == ltrim(s@.subrange(lo as int, hi0 as int)),
        decreases hi0 - lo,
    {
        assert(s@.subrange(lo as int, hi0 as int).drop_first() =~= s@.subrange(
            lo + 1,
            hi0 as int,
        ));
        lo += 1;
    }
    assert(ltrim(s@.subrange(lo as int, hi0 as int)) == s@.subrange(lo as int, hi0 as int));
    let mut hi = hi0;
    while hi > lo && is_ws_exec(s[hi - 1])
        invariant
            lo <= hi <= hi0 <= s@.len(),
            rtrim(s@.subrange(lo as int, hi0 as int)) == rtrim(s@.subrange(lo as int, hi as int)),
        decreases hi - lo,
    {
        assert(s@.subrange(lo as int, hi as int).drop_last() =~= s@.subrange(
            lo as int,
            hi - 1,
        ));
        hi -= 1;
    }
    (lo, hi)
}

/// Whether `p` occurs in `s` at `i`.
pub fn match_at_exec(s: &Vec<char>, p: &Vec<char>, i: usize) -> (r: bool)
    ensures
        r == match_at(s@, p@, i as int),
{
    if i > s.len() || p.len() > s.len() - i {
        return false;
    }
    let mut j: usize = 0;
    while j < p.len()
        invariant
            s@.len() <= usize::MAX,
            i + p@.len() <= s@.len(),
            j <= p@.len(),
            forall|k: int| 0 <= k < j ==> s@[i + k] == p@[k],
        decreases p@.len() - j,
    {
        assert(i + j < s@.len());
        if s[i + j] != p[j] {
            assert(s@.subrange(i as int, i + p@.len())[j as int] != p@[j as int]);
            return false;
        }
        j += 1;
    }
    assert(s@.subrange(i as int, i + p@.len()) =~= p@);
    true
}

/// The start of the last occurrence of `p` in `s.subrange(lo, hi)`, relative to `lo`.
pub fn rsplit_index(s: &Vec<char>, lo: usize, hi: usize, p: &Vec<char>) -> (r: Option<usize>)
    requires
        lo <= hi <= s@.len(),
    ensures
        r == match last_match_below(
            s@.subrange(lo as int, hi as int),
            p@,
            (hi - lo) + 1,
        ) {
            Some(i) => Some(i as usize),
            None => None::<usize>,
        },
{
    let ghost t = s@.subrange(lo as int, hi as int);
    let sub = slice_vec(s, lo, hi);
    let mut k: usize = hi - lo;
    loop
        invariant
            sub@ == t,
            t == s@.subrange(lo as int, hi as int),
            k <= hi - lo,
            last_match_below(t, p@, (hi - lo) + 1) == last_match_below(t, p@, k + 1),
        decreases k,
    {
        if match_at_exec(&sub, p, k) {
            assert(last_match_below(t, p@, k + 1) == Some(k as int));
            return Some(k);
        }
        assert(last_match_below(t, p@, k + 1) == last_match_below(t, p@, k as int));
        if k == 0 {
            assert(last_match_below(t, p@, 0) is None);
            return None;
        }
        k -= 1;
    }
}

/// A copy of `s[lo..hi]`.
pub fn slice_vec(s: &Vec<char>, lo: usize, hi: usize) -> (r: Vec<char>)
    requires
        lo <= hi <= s@.len(),
    ensures
        r@ == s@.subrange(lo as int, hi as int),
{
    let mut out: Vec<char> = Vec::new();
    let mut i = lo;
    while i < hi
        invariant
            lo <= i <= hi <= s@.len(),
            out@ == s@.subrange(lo as int, i as int),
        decreases hi - i,
    {
        out.push(s[i]);
        assert(s@.subrange(lo as int, i as int).push(s@[i as int]) =~= s@.subrange(
            lo as int,
            i + 1,
        ));
        i += 1;
    }
    out
}

pub proof fn lemma_sub_sub(s: Seq<char>, a: int, b: int, c: int, d: int)
    requires
        0 <= a <= b <= s.len(),
        0 <= c <= d <= b - a,
    ensures
        s.subrange(a, b).subrange(c, d) == s.subrange(a + c, a + d),
{
    assert(s.subrange(a, b).subrange(c, d) =~= s.subrange(a + c, a + d));
}

pub proof fn lemma_match_bounds(s: Seq<char>, p: Seq<char>, k: int)
    ensures
        last_match_below(s, p, k) matches Some(i) ==> match_at(s, p, i),
    decreases k,
{
    if k > 0 && !match_at(s, p, k - 1) {
        lemma_match_bounds(s, p, k - 1);
    }
}

/// The base type of a spatially qualified type name.
#[verifier::rlimit(60)]
pub fn strip_spatial_type_suffix(name: &str) -> (r: &str)
    ensures
        r@ == spec_strip_spatial(name@),
{
    let s = chars_of(name);
    let n = s.len();
    let (lo, hi) = trim_bounds(&s, 0, n);
    let ghost t = trim(name@);
    assert(s@.subrange(0, n as int) =~= s@);
    proof {
        reveal_strlit(" in ");
        reveal_strlit(" from ");
        reveal_strlit(" to ");
    }
    let pin: Vec<char> = chars_of(" in ");
    let pfrom: Vec<char> = chars_of(" from ");
    let pto: Vec<char> = chars_of(" to ");
    match rsplit_index(&s, lo, hi, &pin) {
        Some(i) => {
            proof {
                lemma_match_bounds(t, pin@, (hi - lo) + 1);
            }
            let (blo, bhi) = trim_bounds(&s, lo, lo + i);
            let (slo, shi) = trim_bounds(&s, lo + i + 4, hi);
            proof {
                lemma_sub_sub(s@, lo as int, hi as int, 0, i as int);
                lemma_sub_sub(s@, lo as int, hi as int, i + 4, (hi - lo) as int);
            }
            if blo < bhi && slo < shi {
                return name.substring_char(blo, bhi);
            }
        },
        None => {},
    }
    match rsplit_index(&s, lo, hi, &pfrom) {
        Some(i) => {
            proof {
                lemma_match_bounds(t, pfrom@, (hi - lo) + 1);
            }
            let (blo, bhi) = trim_bounds(&s, lo, lo + i);
            let (slo, shi) = trim_bounds(&s, lo + i + 6, hi);
            proof {
                lemma_sub_sub(s@, lo as int, hi as int, 0, i as int);
                lemma_sub_sub(s@, lo as int, hi as int, i + 6, (hi - lo) as int);
            }
            if blo < bhi && slo < shi {
                let suf_lo = lo + i + 6;
                match rsplit_index(&s, suf_lo, hi, &pto) {
                    Some(j) => {
                        proof {
                            lemma_match_bounds(s@.subrange(suf_lo as int, hi as int), pto@, (hi - suf_lo) + 1);
                            lemma_sub_sub(s@, suf_lo as int, hi as int, j + 4, (hi - suf_lo) as int);
                        }
                        let (dlo, dhi) = trim_bounds(&s, suf_lo + j + 4, hi);
                        if dlo < dhi {
                            return name.substring_char(blo, bhi);
                        }
                    },
                    None => {},
                }
            }
        },
        None => {},
    }
    name.substring_char(lo, hi)
}

/// The spatial qualifier of a type name, if it has a well-formed one.
#[verifier::rlimit(60)]
pub fn spatial_qualifier(ty_name: &str) -> (r: Option<SpatialQualifier>)
    ensures
        r matches Some(q) ==> spec_spatial_qualifier(ty_name@) == Some(q.view_q()),
        r is None ==> spec_spatial_qualifier(ty_name@) is None,
{
    let s = chars_of(ty_name);
    let n = s.len();
    let (lo, hi) = trim_bounds(&s, 0, n);
    let ghost t = trim(ty_name@);
    assert(s@.subrange(0, n as int) =~= s@);
    proof {
        reveal_strlit(" in ");
        reveal_strlit(" from ");
        reveal_strlit(" to ");
    }
    let pin: Vec<char> = chars_of(" in ");
    let pfrom: Vec<char> = chars_of(" from ");
    let pto: Vec<char> = chars_of(" to ");
    match rsplit_index(&s, lo, hi, &pin) {
        Some(i) => {
            proof {
                lemma_match_bounds(t, pin@, (hi - lo) + 1);
            }
            let (blo, bhi) = trim_bounds(&s, lo, lo + i);
            let (slo, shi) = trim_bounds(&s, lo + i + 4, hi);
            proof {
                lemma_sub_sub(s@, lo as int, hi as int, 0, i as int);
                lemma_sub_sub(s@, lo as int, hi as int, i + 4, (hi - lo) as int);
            }
            if blo < bhi && slo < shi {
                let space = string_of(&slice_vec(&s, slo, shi));
                return Some(SpatialQualifier::In(space));
            }
        },
        None => {},
    }
    match rsplit_index(&s, lo, hi, &pfrom) {
        Some(i) => {
            proof {
                lemma_match_bounds(t, pfrom@, (hi - lo) + 1);
            }
            let (blo, bhi) = trim_bounds(&s, lo, lo + i);
            let (slo, shi) = trim_bounds(&s, lo + i + 6, hi);
            proof {
                lemma_sub_sub(s@, lo as int, hi as int, 0, i as int);
                lemma_sub_sub(s@, lo as int, hi as int, i + 6, (hi - lo) as int);
            }
            if blo < bhi && slo < shi {
                let suf_lo = lo + i + 6;
                match rsplit_index(&s, suf_lo, hi, &pto) {
                    Some(j) => {
                        proof {
                            lemma_match_bounds(s@.subrange(suf_lo as int, hi as int), pto@, (hi - suf_lo) + 1);
                            lemma_sub_sub(s@, suf_lo as int, hi as int, 0, j as int);
                            lemma_sub_sub(s@, suf_lo as int, hi as int, j + 4, (hi - suf_lo) as int);
                        }
                        let (flo, fhi) = trim_bounds(&s, suf_lo, suf_lo + j);
                        let (dlo, dhi) = trim_bounds(&s, suf_lo + j + 4, hi);
                        if flo < fhi && dlo < dhi {
                            let from = string_of(&slice_vec(&s, flo, fhi));
                            let to = string_of(&slice_vec(&s, dlo, dhi));
                            return Some(SpatialQualifier::FromTo { from, to });
                        }
                    },
                    None => {},
                }
            }
        },
        None => {},
    }
    None
}

/// The characters of `ty` that are not whitespace.
pub open spec fn spec_compact(ty: Seq<char>) -> Seq<char> {
    ty.filter(|c: char| !is_ws(c))
}

/// A type name with all whitespace removed.
pub fn compact(ty: &str) -> (r: String)
    ensures
        r@ == spec_compact(ty@),
{
    let cs = chars_of(ty);
    let mut out: Vec<char> = Vec::new();
    let mut i: usize = 0;
    while i < cs.len()
        invariant
            i <= cs@.len(),
            cs@ == ty@,
            out@ == cs@.take(i as int).filter(|c: char| !is_ws(c)),
        decreases cs@.len() - i,
    {
        proof {
            reveal_with_fuel(Seq::<_>::filter, 1);
            assert(cs@.take(i + 1).drop_last() =~= cs@.take(i as int));
        }
        if !is_ws_exec(cs[i]) {
            out.push(cs[i]);
        }
        i += 1;
    }
    assert(cs@.take(cs@.len() as int) =~= cs@);
    string_of(&out)
}

} // verus!
