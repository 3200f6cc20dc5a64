//! Names: edit distance and suggestions, `{axis}` pattern expansion, and the
//! rendering of permutation-axis values.
use vstd::prelude::*;
use crate::text::{chars_of, string_of, spec_decimal, decimal, push_char};
use crate::types::{is_ws, ltrim, rtrim, trim, trim_bounds, slice_vec};
use crate::ast::{BinOp, Expr, SExpr};
use crate::text::{cat3, cat5, str_eq};

verus! {

broadcast use vstd::string::group_string_axioms;

pub open spec fn min2(a: nat, b: nat) -> nat {
    if a <= b { a } else { b }
}

/// Levenshtein edit distance (insert, delete, substitute; unit costs).
pub open spec fn lev(a: Seq<char>, b: Seq<char>) -> nat
    decreases a.len() + b.len(),
{
    if a.len() == 0 {
        b.len()
    } else if b.len() == 0 {
        a.len()
    } else {
        min2(
            min2(lev(a.drop_last(), b) + 1, lev(a, b.drop_last()) + 1),
            lev(a.drop_last(), b.drop_last()) + if a.last() == b.last() { 0nat } else { 1nat },
        )
    }
}

pub proof fn lemma_lev_bound(a: Seq<char>, b: Seq<char>)
    ensures
        lev(a, b) <= a.len() + b.len(),
    decreases a.len() + b.len(),
{
    if a.len() > 0 && b.len() > 0 {
        lemma_lev_bound(a.drop_last(), b);
    }
}

pub proof fn lemma_lev_self(a: Seq<char>)
    ensures
        lev(a, a) == 0,
    decreases a.len(),
{
    if a.len() > 0 {
        lemma_lev_self(a.drop_last());
    }
}

/// The edit distance between two names, by characters.
pub fn levenshtein_distance(a: &str, b: &str) -> (r: usize)
    requires
        a@.len() + b@.len() < usize::MAX,
    ensures
        r == lev(a@, b@),
{
    let ac = chars_of(a);
    let bc = chars_of(b);
    if crate::text::str_eq(a, b) {
        proof {
            lemma_lev_self(a@);
        }
        return 0;
    }
    if ac.len() == 0 {
        return bc.len();
    }
    if bc.len() == 0 {
        return ac.len();
    }
    let m = bc.len();
    let mut prev: Vec<usize> = Vec::new();
    let mut j: usize = 0;
    while j <= m
        invariant
            m == bc@.len(),
            m < usize::MAX,
            j <= m + 1,
            prev@.len() == j,
            forall|k: int| 0 <= k < j ==> prev@[k] == lev(Seq::<char>::empty(), bc@.take(k)),
        decreases m + 1 - j,
    {
        prev.push(j);
        j += 1;
    }
    let mut i: usize = 0;
    while i < ac.len()
        invariant
            m == bc@.len(),
            ac@ == a@,
            bc@ == b@,
            a@.len() + b@.len() < usize::MAX,
            i <= ac@.len(),
            prev@.len() == m + 1,
            forall|k: int| 0 <= k <= m ==> prev@[k] == lev(ac@.take(i as int), bc@.take(k)),
        decreases ac@.len() - i,
    {
        let mut curr: Vec<usize> = Vec::new();
        proof {
            assert(ac@.take(i + 1).drop_last() =~= ac@.take(i as int));
        }
        curr.push(i + 1);
        let mut j: usize = 0;
        while j < m
            invariant
                m == bc@.len(),
                ac@ == a@,
                bc@ == b@,
                a@.len() + b@.len() < usize::MAX,
                i < ac@.len(),
                prev@.len() == m + 1,
                forall|k: int| 0 <= k <= m ==> prev@[k] == lev(ac@.take(i as int), bc@.take(k)),
                j <= m,
                curr@.len() == j + 1,
                forall|k: int| 0 <= k <= j ==> curr@[k] == lev(ac@.take(i + 1), bc@.take(k)),
            decreases m - j,
        {
            let ghost ai = ac@.take(i + 1);
            let ghost bj = bc@.take(j + 1);
            proof {
                assert(ai.drop_last() =~= ac@.take(i as int));
                assert(bj.drop_last() =~= bc@.take(j as int));
                assert(ai.last() == ac@[i as int]);
                assert(bj.last() == bc@[j as int]);
                lemma_lev_bound(ac@.take(i as int), bc@.take(j + 1));
                lemma_lev_bound(ai, bc@.take(j as int));
                lemma_lev_bound(ac@.take(i as int), bc@.take(j as int));
            }
            let cost: usize = if ac[i] == bc[j] { 0 } else { 1 };
            let del = prev[j + 1] + 1;
            let ins = curr[j] + 1;
            let sub = prev[j] + cost;
            let best = if del <= ins { del } else { ins };
            let best = if best <= sub { best } else { sub };
            curr.push(best);
            j += 1;
        }
        prev = curr;
        i += 1;
    }
    assert(ac@.take(ac@.len() as int) =~= a@);
    assert(bc@.take(m as int) =~= b@);
    prev[m]
}

/// ASCII letters lowered; other characters unchanged.
pub open spec fn ascii_lower(c: char) -> char {
    if 'A' <= c && c <= 'Z' {
        ((c as u32) + 32) as char
    } else {
        c
    }
}

pub open spec fn lower_seq(s: Seq<char>) -> Seq<char> {
    Seq::new(s.len(), |i: int| ascii_lower(s[i]))
}

pub fn to_ascii_lowercase(s: &str) -> (r: String)
    ensures
        r@ == lower_seq(s@),
{
    let cs = chars_of(s);
    let mut out: Vec<char> = Vec::new();
    let mut i: usize = 0;
    while i < cs.len()
        invariant
            cs@ == s@,
            i <= cs@.len(),
            out@ == lower_seq(s@).take(i as int),
        decreases cs@.len() - i,
    {
        let c = cs[i];
        let l = if 'A' <= c && c <= 'Z' {
            char_from_u32((c as u32) + 32)
        } else {
            c
        };
        out.push(l);
        assert(lower_seq(s@).take(i + 1) =~= lower_seq(s@).take(i as int).push(l));
        i += 1;
    }
    assert(lower_seq(s@).take(cs@.len() as int) =~= lower_seq(s@));
    string_of(&out)
}

/// The character with a code that is known to be a lowercase ASCII letter.
pub fn char_from_u32(u: u32) -> (c: char)
    requires
        0x61 <= u <= 0x7a,
    ensures
        c == u as char,
{
    let ghost uu = u;
    if u == 0x61 { 'a' } else if u == 0x62 { 'b' } else if u == 0x63 { 'c' } else if u == 0x64 { 'd' }
    else if u == 0x65 { 'e' } else if u == 0x66 { 'f' } else if u == 0x67 { 'g' } else if u == 0x68 { 'h' }
    else if u == 0x69 { 'i' } else if u == 0x6a { 'j' } else if u == 0x6b { 'k' } else if u == 0x6c { 'l' }
    else if u == 0x6d { 'm' } else if u == 0x6e { 'n' } else if u == 0x6f { 'o' } else if u == 0x70 { 'p' }
    else if u == 0x71 { 'q' } else if u == 0x72 { 'r' } else if u == 0x73 { 's' } else if u == 0x74 { 't' }
    else if u == 0x75 { 'u' } else if u == 0x76 { 'v' } else if u == 0x77 { 'w' } else if u == 0x78 { 'x' }
    else if u == 0x79 { 'y' } else { 'z' }
}

/// The first candidate with the least distance to `needle` among the first `n`.
pub open spec fn best_upto(cands: Seq<Seq<char>>, needle: Seq<char>, n: int) -> Option<(int, nat)>
    decreases n,
{
    if n <= 0 {
        None
    } else {
        let d = lev(needle, lower_seq(cands[n - 1]));
        match best_upto(cands, needle, n - 1) {
            None => Some((n - 1, d)),
            Some((k, bd)) => if d < bd {
                Some((n - 1, d))
            } else {
                Some((k, bd))
            },
        }
    }
}

/// The suggestion for a misspelt name: the closest candidate (ignoring ASCII
/// case; earliest on ties) when its distance is within 1 for names of at most
/// four bytes, within 3 otherwise.
pub open spec fn spec_nearest(arg: Seq<char>, cands: Seq<Seq<char>>) -> Option<Seq<char>> {
    let needle = lower_seq(arg);
    let threshold: nat = if (vstd::utf8::encode_utf8(needle).len() as usize) <= 4 { 1 } else { 3 };
    match best_upto(cands, needle, cands.len() as int) {
        Some((k, d)) => if d <= threshold {
            Some(cands[k])
        } else {
            None
        },
        None => None,
    }
}

pub open spec fn views(v: Seq<String>) -> Seq<Seq<char>> {
    Seq::new(v.len(), |i: int| v[i]@)
}

pub fn nearest_material_arg_name(arg_name: &str, candidates: &[String]) -> (r: Option<String>)
    requires
        forall|k: int| 0 <= k < candidates@.len() ==> arg_name@.len() + candidates@[k]@.len() < usize::MAX,
    ensures
        r matches Some(s) ==> spec_nearest(arg_name@, views(candidates@)) == Some(s@),
        r is None ==> spec_nearest(arg_name@, views(candidates@)) is None,
{
    let needle = to_ascii_lowercase(arg_name);
    let ghost cv = views(candidates@);
    let mut best: Option<(usize, usize)> = None;
    let mut i: usize = 0;
    while i < candidates.len()
        invariant
            cv == views(candidates@),
            needle@ == lower_seq(arg_name@),
            forall|k: int| 0 <= k < candidates@.len() ==> arg_name@.len() + candidates@[k]@.len() < usize::MAX,
            i <= candidates@.len(),
            best matches Some((k, _)) ==> k < i,
            best_upto(cv, needle@, i as int) == match best {
                Some((k, d)) => Some((k as int, d as nat)),
                None => None::<(int, nat)>,
            },
        decreases candidates@.len() - i,
    {
        let lowered = to_ascii_lowercase(candidates[i].as_str());
        assert(cv[i as int] == candidates@[i as int]@);
        let distance = levenshtein_distance(needle.as_str(), lowered.as_str());
        let take = match best {
            None => true,
            Some((_, bd)) => distance < bd,
        };
        if take {
            best = Some((i, distance));
        }
        i += 1;
    }
    let (k, d) = match best {
        Some(p) => p,
        None => return None,
    };
    let nlen = needle.as_str().len();
    let threshold: usize = if nlen <= 4 { 1 } else { 3 };
    if d <= threshold {
        assert(cv[k as int] == candidates@[k as int]@);
        Some(candidates[k].clone())
    } else {
        None
    }
}

/// The value of the first binding named `name`.
pub open spec fn find_binding(bs: Seq<(Seq<char>, Seq<char>)>, name: Seq<char>) -> Option<Seq<char>>
    decreases bs.len(),
{
    if bs.len() == 0 {
        None
    } else if bs[0].0 == name {
        Some(bs[0].1)
    } else {
        find_binding(bs.drop_first(), name)
    }
}

pub open spec fn binding_views(bs: Seq<(String, String)>) -> Seq<(Seq<char>, Seq<char>)> {
    Seq::new(bs.len(), |i: int| (bs[i].0@, bs[i].1@))
}

pub open spec fn hex_digit(d: nat) -> char {
    if d < 10 {
        crate::text::digit_char(d)
    } else if d == 10 {
        'a'
    } else if d == 11 {
        'b'
    } else if d == 12 {
        'c'
    } else if d == 13 {
        'd'
    } else if d == 14 {
        'e'
    } else {
        'f'
    }
}

/// Lowercase hexadecimal digits of `n`.
pub open spec fn spec_hex(n: nat) -> Seq<char>
    decreases n,
{
    if n < 16 {
        seq![hex_digit(n)]
    } else {
        spec_hex(n / 16) + seq![hex_digit(n % 16)]
    }
}

pub open spec fn is_digit(c: char) -> bool {
    '0' <= c && c <= '9'
}

/// The decimal value of a digit string (any characters allowed in the spec;
/// callers check they are digits).
pub open spec fn digits_value(ds: Seq<char>) -> nat
    decreases ds.len(),
{
    if ds.len() == 0 {
        0
    } else {
        digits_value(ds.drop_last()) * 10 + ((ds.last() as u32) - 0x30) as nat
    }
}

/// `u32::from_str`: an optional `+` then one or more digits, within range.
/// The digits of a decimal literal, after an optional leading `+`.
pub open spec fn unsigned_part(s: Seq<char>) -> Seq<char> {
    if s.len() > 0 && s[0] == '+' { s.drop_first() } else { s }
}

pub open spec fn parse_u32(s: Seq<char>) -> Option<u32> {
    let ds = unsigned_part(s);
    if ds.len() > 0 && (forall|i: int| 0 <= i < ds.len() ==> is_digit(ds[i])) && digits_value(ds)
        <= u32::MAX {
        Some(digits_value(ds) as u32)
    } else {
        None
    }
}

/// An axis value as a name fragment: `x` renders a decimal value in hex.
pub open spec fn spec_format_value(value: Seq<char>, hint: Option<Seq<char>>) -> Seq<char> {
    if hint == Some("x"@) {
        match parse_u32(value) {
            Some(n) => spec_hex(n as nat),
            None => value,
        }
    } else {
        value
    }
}

/// The index of the first `c` in `cs` at or after `i` (else `cs.len()`).
pub open spec fn first_from(cs: Seq<char>, c: char, i: int) -> int
    decreases cs.len() - i,
{
    if i >= cs.len() {
        cs.len() as int
    } else if cs[i] == c {
        i
    } else {
        first_from(cs, c, i + 1)
    }
}

/// `{name}` / `{name:hint}` substitution: the binding's value, formatted,
/// or the placeholder text itself when `name` is not bound.
pub open spec fn spec_subst(expr: Seq<char>, bs: Seq<(Seq<char>, Seq<char>)>) -> Seq<char> {
    let k = first_from(expr, ':', 0);
    let axis = expr.subrange(0, k);
    let hint = if k < expr.len() {
        Some(expr.subrange(k + 1, expr.len() as int))
    } else {
        None
    };
    match find_binding(bs, axis) {
        Some(v) => spec_format_value(v, hint),
        None => expr,
    }
}

/// Expansion of `${axis}` and `{axis}` placeholders from position `i` on.
pub open spec fn expand_from(cs: Seq<char>, i: int, bs: Seq<(Seq<char>, Seq<char>)>) -> Seq<char>
    decreases cs.len() - i,
{
    if i < 0 || i >= cs.len() {
        Seq::empty()
    } else if cs[i] == '$' && i + 1 < cs.len() && cs[i + 1] == '{' {
        let j = first_from(cs, '}', i + 2);
        proof {
            lemma_first_from_bounds(cs, '}', i + 2);
        }
        if j < cs.len() {
            spec_subst(cs.subrange(i + 2, j), bs) + expand_from(cs, j + 1, bs)
        } else {
            spec_subst(cs.subrange(i + 2, j), bs)
        }
    } else if cs[i] == '{' {
        let j = first_from(cs, '}', i + 1);
        proof {
            lemma_first_from_bounds(cs, '}', i + 1);
        }
        if j < cs.len() {
            spec_subst(cs.subrange(i + 1, j), bs) + expand_from(cs, j + 1, bs)
        } else {
            spec_subst(cs.subrange(i + 1, j), bs)
        }
    } else {
        seq![cs[i]] + expand_from(cs, i + 1, bs)
    }
}

pub proof fn lemma_first_from_bounds(cs: Seq<char>, c: char, i: int)
    requires
        0 <= i,
    ensures
        i <= first_from(cs, c, i) || (i > cs.len() && first_from(cs, c, i) == cs.len()),
        first_from(cs, c, i) <= cs.len() || i > cs.len(),
        first_from(cs, c, i) < cs.len() ==> cs[first_from(cs, c, i)] == c,
    decreases cs.len() - i,
{
    if i < cs.len() && cs[i] != c {
        lemma_first_from_bounds(cs, c, i + 1);
    }
}

pub fn first_from_exec(cs: &Vec<char>, c: char, i: usize) -> (r: usize)
    requires
        i <= cs@.len(),
    ensures
        r == first_from(cs@, c, i as int),
        i <= r <= cs@.len(),
{
    proof {
        lemma_first_from_bounds(cs@, c, i as int);
    }
    let mut j = i;
    while j < cs.len()
        invariant
            i <= j <= cs@.len(),
            first_from(cs@, c, i as int) == first_from(cs@, c, j as int),
        decreases cs@.len() - j,
    {
        if cs[j] == c {
            return j;
        }
        j += 1;
    }
    j
}

pub fn hex_digit_exec(d: u32) -> (c: char)
    requires
        d < 16,
    ensures
        c == hex_digit(d as nat),
{
    if d < 10 {
        crate::text::digit(d as u64)
    } else if d == 10 {
        'a'
    } else if d == 11 {
        'b'
    } else if d == 12 {
        'c'
    } else if d == 13 {
        'd'
    } else if d == 14 {
        'e'
    } else {
        'f'
    }
}

pub fn hex(n: u32) -> (r: String)
    ensures
        r@ == spec_hex(n as nat),
    decreases n,
{
    if n < 16 {
        let mut s = String::new();
        push_char(&mut s, hex_digit_exec(n));
        s
    } else {
        let mut s = hex(n / 16);
        push_char(&mut s, hex_digit_exec(n % 16));
        s
    }
}

pub proof fn lemma_digits_push(ds: Seq<char>, c: char)
    ensures
        digits_value(ds.push(c)) == digits_value(ds) * 10 + ((c as u32) - 0x30) as nat,
{
    assert(ds.push(c).drop_last() =~= ds);
}

/// Parses a decimal `u32` the way `str::parse::<u32>` does.
pub fn parse_u32_exec(s: &str) -> (r: Option<u32>)
    ensures
        r == parse_u32(s@),
{
    let cs = chars_of(s);
    let start: usize = if cs.len() > 0 && cs[0] == '+' { 1 } else { 0 };
    let ghost ds = unsigned_part(s@);
    assert(ds =~= cs@.subrange(start as int, cs@.len() as int));
    if start >= cs.len() {
        return None;
    }
    let cap: u64 = 0x1_0000_0000;
    let mut acc: u64 = 0;
    let mut i = start;
    while i < cs.len()
        invariant
            cs@ == s@,
            ds == unsigned_part(s@),
            start <= i <= cs@.len(),
            acc <= 0x1_0000_0000,
            cap == 0x1_0000_0000,
            ds == cs@.subrange(start as int, cs@.len() as int),
            forall|k: int| start <= k < i ==> is_digit(cs@[k]),
            acc as nat == min2(digits_value(cs@.subrange(start as int, i as int)), 0x1_0000_0000),
        decreases cs@.len() - i,
    {
        let c = cs[i];
        if !('0' <= c && c <= '9') {
            assert(ds[i - start] == c);
            assert(!is_digit(ds[i - start]));
            assert(!is_digit(unsigned_part(s@)[i - start]));
            return None;
        }
        let d = (c as u32 - 0x30) as u64;
        proof {
            lemma_digits_push(cs@.subrange(start as int, i as int), c);
            assert(cs@.subrange(start as int, i as int).push(c) =~= cs@.subrange(
                start as int,
                i + 1,
            ));
        }
        let next = acc * 10 + d;
        proof {
            let v = digits_value(cs@.subrange(start as int, i as int));
            assert(min2(min2(v, 0x1_0000_0000) * 10 + d as nat, 0x1_0000_0000) == min2(
                v * 10 + d as nat,
                0x1_0000_0000,
            )) by (nonlinear_arith)
                requires
                    d <= 9,
            ;
        }
        acc = if next > cap { cap } else { next };
        i += 1;
    }
    assert forall|k: int| 0 <= k < ds.len() implies is_digit(ds[k]) by {
        assert(ds[k] == cs@[k + start]);
    }
    if acc > 0xffff_ffff {
        None
    } else {
        Some(acc as u32)
    }
}

pub fn format_variant_value(value: &str, format_hint: Option<&str>) -> (r: String)
    ensures
        r@ == spec_format_value(
            value@,
            match format_hint {
                Some(h) => Some(h@),
                None => None,
            },
        ),
{
    match format_hint {
        Some(h) => {
            if crate::text::str_eq(h, "x") {
                match parse_u32_exec(value) {
                    Some(n) => hex(n),
                    None => String::from_str(value),
                }
            } else {
                String::from_str(value)
            }
        },
        None => String::from_str(value),
    }
}

/// The value of the first binding named `name` (by characters).
pub fn find_binding_exec<'a>(bindings: &'a [(String, String)], name: &str) -> (r: Option<&'a String>)
    ensures
        r matches Some(v) ==> find_binding(binding_views(bindings@), name@) == Some(v@),
        r is None ==> find_binding(binding_views(bindings@), name@) is None,
{
    let ghost bv = binding_views(bindings@);
    assert(bv.skip(0) =~= bv);
    let mut i: usize = 0;
    while i < bindings.len()
        invariant
            bv == binding_views(bindings@),
            i <= bindings@.len(),
            find_binding(bv, name@) == find_binding(bv.skip(i as int), name@),
        decreases bindings@.len() - i,
    {
        assert(bv.skip(i as int).drop_first() =~= bv.skip(i + 1));
        if crate::text::str_eq(bindings[i].0.as_str(), name) {
            return Some(&bindings[i].1);
        }
        i += 1;
    }
    assert(bv.skip(i as int).len() == 0);
    None
}

/// Substitutes one placeholder body `cs[lo..hi]`.
pub fn subst_exec(cs: &Vec<char>, lo: usize, hi: usize, bindings: &[(String, String)]) -> (r: Vec<
    char,
>)
    requires
        lo <= hi <= cs@.len(),
    ensures
        r@ == spec_subst(cs@.subrange(lo as int, hi as int), binding_views(bindings@)),
{
    let expr = slice_vec(cs, lo, hi);
    let k = first_from_exec(&expr, ':', 0);
    let axis = string_of(&slice_vec(&expr, 0, k));
    match find_binding_exec(bindings, axis.as_str()) {
        Some(v) => {
            let out = if k < expr.len() {
                let hint = string_of(&slice_vec(&expr, k + 1, expr.len()));
                format_variant_value(v.as_str(), Some(hint.as_str()))
            } else {
                format_variant_value(v.as_str(), None)
            };
            chars_of(out.as_str())
        },
        None => expr,
    }
}

pub fn append_chars(out: &mut Vec<char>, more: &Vec<char>)
    ensures
        final(out)@ == old(out)@ + more@,
{
    let mut i: usize = 0;
    while i < more.len()
        invariant
            i <= more@.len(),
            out@ == old(out)@ + more@.take(i as int),
        decreases more@.len() - i,
    {
        out.push(more[i]);
        assert(more@.take(i + 1) =~= more@.take(i as int).push(more@[i as int]));
        i += 1;
    }
    assert(more@.take(more@.len() as int) =~= more@);
}

/// Expands `${axis}` / `{axis}` placeholders (optionally `{axis:x}`) with the
/// bound axis values; unbound placeholders keep their inner text.
pub fn expand_binding_pattern(pattern: &str, bindings: &[(String, String)]) -> (r: String)
    ensures
        r@ == expand_from(pattern@, 0, binding_views(bindings@)),
{
    let cs = chars_of(pattern);
    let ghost bv = binding_views(bindings@);
    let mut out: Vec<char> = Vec::new();
    let mut i: usize = 0;
    while i < cs.len()
        invariant
            cs@ == pattern@,
            bv == binding_views(bindings@),
            i <= cs@.len(),
            expand_from(cs@, 0, bv) == out@ + expand_from(cs@, i as int, bv),
        decreases cs@.len() - i,
    {
        let ch = cs[i];
        let ghost before = out@;
        if ch == '$' && i + 1 < cs.len() && cs[i + 1] == '{' {
            let j = first_from_exec(&cs, '}', i + 2);
            let piece = subst_exec(&cs, i + 2, j, bindings);
            append_chars(&mut out, &piece);
            proof {
                if j < cs@.len() {
                    assert(expand_from(cs@, i as int, bv) == piece@ + expand_from(cs@, j + 1, bv));
                    assert(before + (piece@ + expand_from(cs@, j + 1, bv)) =~= out@ + expand_from(cs@, j + 1, bv));
                } else {
                    assert(expand_from(cs@, i as int, bv) == piece@);
                    assert(expand_from(cs@, cs@.len() as int, bv) =~= Seq::<char>::empty());
                    assert(before + piece@ =~= out@ + expand_from(cs@, cs@.len() as int, bv));
                }
            }
            i = if j < cs.len() { j + 1 } else { cs.len() };
        } else if ch == '{' {
            let j = first_from_exec(&cs, '}', i + 1);
            let piece = subst_exec(&cs, i + 1, j, bindings);
            append_chars(&mut out, &piece);
            proof {
                if j < cs@.len() {
                    assert(expand_from(cs@, i as int, bv) == piece@ + expand_from(cs@, j + 1, bv));
                    assert(before + (piece@ + expand_from(cs@, j + 1, bv)) =~= out@ + expand_from(cs@, j + 1, bv));
                } else {
                    assert(expand_from(cs@, i as int, bv) == piece@);
                    assert(expand_from(cs@, cs@.len() as int, bv) =~= Seq::<char>::empty());
                    assert(before + piece@ =~= out@ + expand_from(cs@, cs@.len() as int, bv));
                }
            }
            i = if j < cs.len() { j + 1 } else { cs.len() };
        } else {
            out.push(ch);
            proof {
                assert(expand_from(cs@, i as int, bv) == seq![ch] + expand_from(cs@, i + 1, bv));
                assert(before + (seq![ch] + expand_from(cs@, i + 1, bv)) =~= out@ + expand_from(cs@, i + 1, bv));
            }
            i += 1;
        }
    }
    assert(out@ + Seq::<char>::empty() =~= out@);
    string_of(&out)
}

/// A specialization entry name from its pattern and axis bindings.
pub fn apply_variant_pattern(pattern: &str, bindings: &[(String, String)]) -> (r: String)
    ensures
        r@ == expand_from(pattern@, 0, binding_views(bindings@)),
{
    expand_binding_pattern(pattern, bindings)
}

pub open spec fn is_word_char(c: char) -> bool {
    ('a' <= c && c <= 'z') || ('A' <= c && c <= 'Z') || ('0' <= c && c <= '9') || c == '_'
}

/// A word replaced by its binding's value when it names a bound axis.
pub open spec fn word_subst(token: Seq<char>, bs: Seq<(Seq<char>, Seq<char>)>) -> Seq<char> {
    match find_binding(bs, token) {
        Some(v) => v,
        None => token,
    }
}

/// Word-by-word substitution over `cs[i..]` (with a trailing space), the
/// current word so far being `token`.
pub open spec fn words_from(
    cs: Seq<char>,
    i: int,
    token: Seq<char>,
    bs: Seq<(Seq<char>, Seq<char>)>,
) -> Seq<char>
    decreases cs.len() - i,
{
    if i < 0 || i >= cs.len() {
        Seq::empty()
    } else if is_word_char(cs[i]) {
        words_from(cs, i + 1, token.push(cs[i]), bs)
    } else {
        word_subst(token, bs) + seq![cs[i]] + words_from(cs, i + 1, Seq::empty(), bs)
    }
}

/// A type written with axis placeholders and axis-named words, instantiated.
pub open spec fn spec_expand_type(ty: Seq<char>, bs: Seq<(Seq<char>, Seq<char>)>) -> Seq<char> {
    trim(words_from(expand_from(ty, 0, bs).push(' '), 0, Seq::empty(), bs))
}

pub fn expand_type_bindings(ty: &str, bindings: &[(String, String)]) -> (r: String)
    ensures
        r@ == spec_expand_type(ty@, binding_views(bindings@)),
{
    let ghost bv = binding_views(bindings@);
    let expanded = expand_binding_pattern(ty, bindings);
    let mut cs = chars_of(expanded.as_str());
    cs.push(' ');
    let mut output: Vec<char> = Vec::new();
    let mut token: Vec<char> = Vec::new();
    let mut i: usize = 0;
    while i < cs.len()
        invariant
            bv == binding_views(bindings@),
            i <= cs@.len(),
            words_from(cs@, 0, Seq::empty(), bv) == output@ + words_from(cs@, i as int, token@, bv),
        decreases cs@.len() - i,
    {
        let c = cs[i];
        if ('a' <= c && c <= 'z') || ('A' <= c && c <= 'Z') || ('0' <= c && c <= '9') || c == '_' {
            token.push(c);
        } else {
            let tok = string_of(&token);
            match find_binding_exec(bindings, tok.as_str()) {
                Some(v) => append_chars(&mut output, &chars_of(v.as_str())),
                None => append_chars(&mut output, &token),
            }
            token = Vec::new();
            output.push(c);
            assert(output@ + words_from(cs@, i + 1, Seq::empty(), bv) =~= output@.drop_last()
                + seq![c] + words_from(cs@, i + 1, Seq::empty(), bv));
        }
        i += 1;
    }
    assert(output@ + Seq::<char>::empty() =~= output@);
    let (lo, hi) = trim_bounds(&output, 0, output.len());
    assert(output@.subrange(0, output@.len() as int) =~= output@);
    string_of(&slice_vec(&output, lo, hi))
}

/// One value of a permutation axis.
#[derive(Debug, PartialEq)]
pub enum EvaluationPermutationAtom {
    Ident(String),
    Number(u32),
}

/// The value domain of a permutation axis.
#[derive(Debug)]
pub enum EvaluationPermutationSpec {
    Single(EvaluationPermutationAtom),
    Range { start: u32, end: u32 },
    List(Vec<EvaluationPermutationAtom>),
}

pub open spec fn spec_atom_value(atom: EvaluationPermutationAtom) -> Seq<char> {
    match atom {
        EvaluationPermutationAtom::Ident(name) => name@,
        EvaluationPermutationAtom::Number(v) => spec_decimal(v as nat),
    }
}

/// The rendered values of an axis, in order.
pub open spec fn spec_permutation_values(spec: EvaluationPermutationSpec) -> Seq<Seq<char>> {
    match spec {
        EvaluationPermutationSpec::Single(atom) => seq![spec_atom_value(atom)],
        EvaluationPermutationSpec::Range { start, end } => if start <= end {
            Seq::new((end - start + 1) as nat, |i: int| spec_decimal((start + i) as nat))
        } else {
            Seq::empty()
        },
        EvaluationPermutationSpec::List(values) => Seq::new(
            values@.len(),
            |i: int| spec_atom_value(values@[i]),
        ),
    }
}

pub fn atom_value(atom: &EvaluationPermutationAtom) -> (r: String)
    ensures
        r@ == spec_atom_value(*atom),
{
    match atom {
        EvaluationPermutationAtom::Ident(name) => name.clone(),
        EvaluationPermutationAtom::Number(value) => decimal(*value as u64),
    }
}

pub fn permutation_values(spec: &EvaluationPermutationSpec) -> (r: Vec<String>)
    ensures
        views(r@) == spec_permutation_values(*spec),
{
    let mut out: Vec<String> = Vec::new();
    match spec {
        EvaluationPermutationSpec::Single(atom) => {
            out.push(atom_value(atom));
            assert(views(out@) =~= spec_permutation_values(*spec));
        },
        EvaluationPermutationSpec::Range { start, end } => {
            if *start <= *end {
                let mut v: u64 = *start as u64;
                while v <= *end as u64
                    invariant
                        *start <= v <= *end as u64 + 1,
                        *start <= *end,
                        out@.len() == v - *start,
                        forall|k: int| 0 <= k < out@.len() ==> #[trigger] out@[k]@ == spec_decimal((*start + k) as nat),
                    decreases *end as u64 + 1 - v,
                {
                    let s = decimal(v);
                    out.push(s);
                    v += 1;
                }
            }
            assert(views(out@) =~= spec_permutation_values(*spec));
        },
        EvaluationPermutationSpec::List(values) => {
            let mut i: usize = 0;
            while i < values.len()
                invariant
                    i <= values@.len(),
                    out@.len() == i,
                    forall|k: int| 0 <= k < i ==> #[trigger] out@[k]@ == spec_atom_value(values@[k]),
                decreases values@.len() - i,
            {
                out.push(atom_value(&values[i]));
                i += 1;
            }
            assert(views(out@) =~= spec_permutation_values(*spec));
        },
    }
    out
}

/// A permutation axis of an evaluation: its name and its values.
#[derive(Debug)]
pub struct SchemaEvaluatorPermutationDecl {
    pub name: String,
    pub spec: EvaluationPermutationSpec,
}

/// The value domain of the first axis named `name`.
pub open spec fn find_axis(axes: Seq<SchemaEvaluatorPermutationDecl>, name: Seq<char>) -> Option<EvaluationPermutationSpec>
    decreases axes.len(),
{
    if axes.len() == 0 {
        None
    } else if axes[0].name@ == name {
        Some(axes[0].spec)
    } else {
        find_axis(axes.drop_first(), name)
    }
}

/// The axis value a predicate compares with: a name, or a whole non-negative number.
pub open spec fn predicate_value(e: Expr) -> Option<Seq<char>> {
    match e {
        Expr::Var(v) => Some(v@),
        Expr::Num(n, _) => if n.den > 0 && n.mag % n.den == 0 && (!n.neg || n.mag == 0) {
            Some(spec_decimal((n.mag / n.den) as nat))
        } else {
            None
        },
        _ => None,
    }
}

/// Whether a variant's `when axis == value` (or `!=`) predicate holds for
/// the axis values `bindings`; or why it is malformed.
pub open spec fn spec_variant_predicate(
    predicate: SExpr,
    bindings: Seq<(Seq<char>, Seq<char>)>,
    axes: Seq<SchemaEvaluatorPermutationDecl>,
) -> Result<bool, Seq<char>> {
    match predicate.node {
        Expr::Binary(op, left, right) => match left.node {
            Expr::Var(axis) => match find_binding(bindings, axis@) {
                None => Err("unknown evaluation axis `"@ + axis@ + "`"@),
                Some(actual) => match predicate_value(right.node) {
                    None => Err("variant predicate requires an axis value"@),
                    Some(expected) => match find_axis(axes, axis@) {
                        None => Err("unknown evaluation axis `"@ + axis@ + "`"@),
                        Some(domain) => if !spec_permutation_values(domain).contains(expected) {
                            Err("`"@ + expected + "` is not a value of evaluation axis `"@ + axis@ + "`"@)
                        } else if op is Eq {
                            Ok(actual == expected)
                        } else if op is Ne {
                            Ok(actual != expected)
                        } else {
                            Err("variant predicate supports == and !="@)
                        },
                    },
                },
            },
            _ => Err("variant predicate must compare a declared axis"@),
        },
        _ => Err("variant predicate requires an explicit axis comparison"@),
    }
}

fn find_axis_exec<'a>(axes: &'a [SchemaEvaluatorPermutationDecl], name: &str) -> (r: Option<&'a EvaluationPermutationSpec>)
    ensures
        match r {
            Some(s) => find_axis(axes@, name@) == Some(*s),
            None => find_axis(axes@, name@) is None,
        },
{
    let mut i: usize = 0;
    assert(axes@.skip(0) =~= axes@);
    while i < axes.len()
        invariant
            i <= axes@.len(),
            find_axis(axes@, name@) == find_axis(axes@.skip(i as int), name@),
        decreases axes@.len() - i,
    {
        assert(axes@.skip(i as int).drop_first() =~= axes@.skip(i + 1));
        if str_eq(axes[i].name.as_str(), name) {
            return Some(&axes[i].spec);
        }
        i += 1;
    }
    None
}

fn contains_string(values: &Vec<String>, s: &str) -> (r: bool)
    ensures
        r == views(values@).contains(s@),
{
    let mut i: usize = 0;
    while i < values.len()
        invariant
            i <= values@.len(),
            forall|k: int| 0 <= k < i ==> #[trigger] values@[k]@ != s@,
        decreases values@.len() - i,
    {
        if str_eq(values[i].as_str(), s) {
            assert(views(values@)[i as int] == s@);
            return true;
        }
        i += 1;
    }
    assert forall|k: int| 0 <= k < views(values@).len() implies #[trigger] views(values@)[k] != s@ by {
        assert(views(values@)[k] == values@[k]@);
    }
    false
}

/// Whether a variant's `when axis == value` (or `!=`) predicate holds for
/// the axis values `bindings`; an error message when it is malformed.
pub fn evaluate_variant_predicate(
    predicate: &SExpr,
    bindings: &[(String, String)],
    axes: &[SchemaEvaluatorPermutationDecl],
) -> (r: Result<bool, String>)
    ensures
        match spec_variant_predicate(*predicate, binding_views(bindings@), axes@) {
            Ok(b) => r == Ok::<bool, String>(b),
            Err(m) => r matches Err(e) && e@ == m,
        },
{
    let (op, left, right) = match &predicate.node {
        Expr::Binary(op, left, right) => (*op, left, right),
        _ => return Err(String::from_str("variant predicate requires an explicit axis comparison")),
    };
    let axis = match &left.node {
        Expr::Var(axis) => axis,
        _ => return Err(String::from_str("variant predicate must compare a declared axis")),
    };
    let actual = match find_binding_exec(bindings, axis.as_str()) {
        Some(v) => v,
        None => return Err(cat3("unknown evaluation axis `", axis.as_str(), "`")),
    };
    let expected = match &right.node {
        Expr::Var(value) => value.clone(),
        Expr::Num(n, _) => {
            if n.den > 0 && n.mag % n.den == 0 && (!n.neg || n.mag == 0) {
                decimal(n.mag / n.den)
            } else {
                return Err(String::from_str("variant predicate requires an axis value"));
            }
        },
        _ => return Err(String::from_str("variant predicate requires an axis value")),
    };
    let domain = match find_axis_exec(axes, axis.as_str()) {
        Some(d) => d,
        None => return Err(cat3("unknown evaluation axis `", axis.as_str(), "`")),
    };
    let values = permutation_values(domain);
    if !contains_string(&values, expected.as_str()) {
        return Err(cat5("`", expected.as_str(), "` is not a value of evaluation axis `", axis.as_str(), "`"));
    }
    match op {
        BinOp::Eq => Ok(str_eq(actual.as_str(), expected.as_str())),
        BinOp::Ne => Ok(!str_eq(actual.as_str(), expected.as_str())),
        _ => Err(String::from_str("variant predicate supports == and !=")),
    }
}

} // verus!
