//! Struct-typed global `param` declarations: each becomes one uniform
//! buffer whose fields are read lane by lane.
use vstd::prelude::*;
use crate::ast::{GlobalParamDecl, StructDecl, StructFieldDecl};
use crate::checker::Checker;
use crate::diag::{Diag, DiagView, Span, diag_views, error_view};
use crate::scopes::scopes_get;
use crate::sx::Sx;
use crate::text::{cat3, cat5, str_eq};
use crate::types::{spec_strip_spatial, strip_spatial_type_suffix};
use crate::value::{Value, fields_from_vec, spec_fields_of};

verus! {

/// How many scalar lanes a global uniform field decomposes into.
#[derive(Clone, Copy, Debug, PartialEq, Eq, Structural)]
pub enum FieldShape {
    Scalar,
    Vec2,
    Vec3,
    Vec4,
}

/// The shape of a global uniform field of type `ty` (its spatial qualifier
/// ignored), or `None` when the type cannot be a global uniform field.
pub open spec fn spec_field_shape(ty: Seq<char>) -> Option<FieldShape> {
    let n = spec_strip_spatial(ty);
    if n == "f32"@ || n == "f64"@ || n == "half"@ || n == "i32"@ || n == "u32"@ || n == "bool"@
        || n == "signal"@ || n == "delta"@ || n == "angle"@ || n == "length"@ {
        Some(FieldShape::Scalar)
    } else if n == "vec2"@ || n == "uvec2"@ || n == "coord"@ || n == "coord_like"@ || n
        == "resolution"@ {
        Some(FieldShape::Vec2)
    } else if n == "vec3"@ {
        Some(FieldShape::Vec3)
    } else if n == "vec4"@ {
        Some(FieldShape::Vec4)
    } else {
        None
    }
}

pub fn field_shape(ty_name: &str) -> (r: Option<FieldShape>)
    ensures
        r == spec_field_shape(ty_name@),
{
    let n = strip_spatial_type_suffix(ty_name);
    if str_eq(n, "f32") || str_eq(n, "f64") || str_eq(n, "half") || str_eq(n, "i32") || str_eq(
        n,
        "u32",
    ) || str_eq(n, "bool") || str_eq(n, "signal") || str_eq(n, "delta") || str_eq(n, "angle")
        || str_eq(n, "length") {
        Some(FieldShape::Scalar)
    } else if str_eq(n, "vec2") || str_eq(n, "uvec2") || str_eq(n, "coord") || str_eq(
        n,
        "coord_like",
    ) || str_eq(n, "resolution") {
        Some(FieldShape::Vec2)
    } else if str_eq(n, "vec3") {
        Some(FieldShape::Vec3)
    } else if str_eq(n, "vec4") {
        Some(FieldShape::Vec4)
    } else {
        None
    }
}

/// The read of lane `component` of field `field` of the uniform `binding`.
pub open spec fn uniform_leaf(binding: String, field: String, index: u32, component: Option<u8>) -> Sx {
    Sx::UniformField { binding_name: binding, field_name: field, field_index: index, component }
}

/// The value of a global uniform field: one uniform read per lane.
pub open spec fn spec_field_value(binding: String, field: String, index: u32, shape: FieldShape) -> Value {
    match shape {
        FieldShape::Scalar => Value::Scalar(uniform_leaf(binding, field, index, None)),
        FieldShape::Vec2 => Value::Vec2(
            (uniform_leaf(binding, field, index, Some(0u8)), uniform_leaf(binding, field, index, Some(1u8))),
        ),
        FieldShape::Vec3 => Value::Vec3(
            (
                uniform_leaf(binding, field, index, Some(0u8)),
                uniform_leaf(binding, field, index, Some(1u8)),
                uniform_leaf(binding, field, index, Some(2u8)),
            ),
        ),
        FieldShape::Vec4 => Value::Vec4(
            (
                uniform_leaf(binding, field, index, Some(0u8)),
                uniform_leaf(binding, field, index, Some(1u8)),
                uniform_leaf(binding, field, index, Some(2u8)),
                uniform_leaf(binding, field, index, Some(3u8)),
            ),
        ),
    }
}

fn leaf(binding_name: &String, field_name: &String, field_index: u32, component: Option<u8>) -> (r: Sx)
    ensures
        r == uniform_leaf(*binding_name, *field_name, field_index, component),
{
    Sx::UniformField {
        binding_name: binding_name.clone(),
        field_name: field_name.clone(),
        field_index,
        component,
    }
}

pub fn field_value(binding_name: &String, field_name: &String, field_index: u32, shape: FieldShape) -> (r: Value)
    ensures
        r == spec_field_value(*binding_name, *field_name, field_index, shape),
{
    match shape {
        FieldShape::Scalar => Value::Scalar(leaf(binding_name, field_name, field_index, None)),
        FieldShape::Vec2 => Value::Vec2(
            (
                leaf(binding_name, field_name, field_index, Some(0)),
                leaf(binding_name, field_name, field_index, Some(1)),
            ),
        ),
        FieldShape::Vec3 => Value::Vec3(
            (
                leaf(binding_name, field_name, field_index, Some(0)),
                leaf(binding_name, field_name, field_index, Some(1)),
                leaf(binding_name, field_name, field_index, Some(2)),
            ),
        ),
        FieldShape::Vec4 => Value::Vec4(
            (
                leaf(binding_name, field_name, field_index, Some(0)),
                leaf(binding_name, field_name, field_index, Some(1)),
                leaf(binding_name, field_name, field_index, Some(2)),
                leaf(binding_name, field_name, field_index, Some(3)),
            ),
        ),
    }
}

/// A global uniform: the binding name, the struct type, and its fields as
/// `(field name, type name)` pairs in declaration order.
#[derive(Debug)]
pub struct GlobalUniformDef {
    pub name: String,
    pub ty_name: String,
    pub fields: Vec<(String, String)>,
}

pub open spec fn shape_components(s: FieldShape) -> nat {
    match s {
        FieldShape::Scalar => 1,
        FieldShape::Vec2 => 2,
        FieldShape::Vec3 => 3,
        FieldShape::Vec4 => 4,
    }
}

/// Byte alignment of a field: three-lane vectors align like four-lane ones.
pub open spec fn shape_align(s: FieldShape) -> nat {
    if shape_components(s) == 3 {
        16
    } else {
        shape_components(s) * 4
    }
}

/// The least multiple of `a` that is at least `x`.
pub open spec fn align_up(x: nat, a: nat) -> nat {
    if a == 0 || x % a == 0 {
        x
    } else {
        (x + (a - x % a)) as nat
    }
}

/// Every field has a supported type.
pub open spec fn fields_supported(fields: Seq<(String, String)>) -> bool {
    forall|i: int| 0 <= i < fields.len() ==> (#[trigger] spec_field_shape(fields[i].1@)) is Some
}

pub open spec fn field_shapes(fields: Seq<(String, String)>) -> Seq<FieldShape> {
    Seq::new(fields.len(), |i: int| spec_field_shape(fields[i].1@)->0)
}

/// The byte offset just past the first `n` fields.
pub open spec fn layout_end(shapes: Seq<FieldShape>, n: int) -> nat
    decreases n,
{
    if n <= 0 {
        0
    } else {
        align_up(layout_end(shapes, n - 1), shape_align(shapes[n - 1])) + 4 * shape_components(
            shapes[n - 1],
        )
    }
}

/// The byte offset of field `i`.
pub open spec fn layout_offset(shapes: Seq<FieldShape>, i: int) -> nat {
    align_up(layout_end(shapes, i), shape_align(shapes[i]))
}

/// The size of the uniform buffer: the end of the last field rounded up to
/// 16 bytes, and at least 16.
pub open spec fn spec_byte_size(shapes: Seq<FieldShape>) -> nat {
    let end = align_up(layout_end(shapes, shapes.len() as int), 16);
    if shapes.len() == 0 || end < 16 {
        16
    } else {
        end
    }
}

pub proof fn lemma_align_up(x: nat, a: nat)
    requires
        a > 0,
    ensures
        x <= align_up(x, a) < x + a,
        align_up(x, a) % a == 0,
{
    let xi = x as int;
    let ai = a as int;
    let q = xi / ai;
    let r = xi % ai;
    vstd::arithmetic::div_mod::lemma_fundamental_div_mod(xi, ai);
    if r != 0 {
        assert(xi + (ai - r) == ai * (q + 1)) by (nonlinear_arith)
            requires
                xi == ai * q + r,
        ;
        vstd::arithmetic::mul::lemma_mul_is_commutative(ai, q + 1);
        vstd::arithmetic::div_mod::lemma_mod_multiples_basic(q + 1, ai);
    }
}

pub proof fn lemma_layout_monotone(shapes: Seq<FieldShape>, i: int, j: int)
    requires
        0 <= i <= j <= shapes.len(),
    ensures
        layout_end(shapes, i) <= layout_end(shapes, j),
        i < j ==> layout_offset(shapes, i) + 4 * shape_components(shapes[i]) <= layout_end(shapes, j),
    decreases j - i,
{
    if i < j {
        lemma_layout_monotone(shapes, i + 1, j);
        lemma_align_up(layout_end(shapes, i), shape_align(shapes[i]));
    }
}

impl GlobalUniformDef {
    /// The fields' lane layout fits in the 32-bit byte offsets of the uniform ABI.
    pub open spec fn layout_fits(self) -> bool {
        &&& fields_supported(self.fields@)
        &&& align_up(layout_end(field_shapes(self.fields@), self.fields@.len() as int), 16) <= u32::MAX
    }

    /// Byte offset and lane count of each field, in declaration order.
    pub fn field_layouts(&self) -> (r: Vec<(u32, u32)>)
        requires
            self.layout_fits(),
        ensures
            r@.len() == self.fields@.len(),
            forall|i: int|
                0 <= i < r@.len() ==> #[trigger] r@[i] == (
                    layout_offset(field_shapes(self.fields@), i) as u32,
                    shape_components(field_shapes(self.fields@)[i]) as u32,
                ),
    {
        let ghost shapes = field_shapes(self.fields@);
        let ghost n = self.fields@.len() as int;
        proof {
            lemma_align_up(layout_end(shapes, n), 16);
        }
        let mut out: Vec<(u32, u32)> = Vec::new();
        let mut offset: u64 = 0;
        let mut i: usize = 0;
        while i < self.fields.len()
            invariant
                shapes == field_shapes(self.fields@),
                n == self.fields@.len(),
                fields_supported(self.fields@),
                layout_end(shapes, n) <= u32::MAX,
                i <= n,
                offset == layout_end(shapes, i as int),
                out@.len() == i,
                forall|k: int|
                    0 <= k < i ==> #[trigger] out@[k] == (
                        layout_offset(shapes, k) as u32,
                        shape_components(shapes[k]) as u32,
                    ),
            decreases n - i,
        {
            let shape = match field_shape(self.fields[i].1.as_str()) {
                Some(s) => s,
                None => {
                    assert(spec_field_shape(self.fields@[i as int].1@) is Some);
                    return out;
                },
            };
            assert(shape == shapes[i as int]);
            let components: u64 = match shape {
                FieldShape::Scalar => 1,
                FieldShape::Vec2 => 2,
                FieldShape::Vec3 => 3,
                FieldShape::Vec4 => 4,
            };
            let align: u64 = if components == 3 { 16 } else { components * 4 };
            proof {
                lemma_layout_monotone(shapes, i as int, n);
                lemma_layout_monotone(shapes, i + 1, n);
                lemma_align_up(offset as nat, align as nat);
            }
            let rem = offset % align;
            let start = if rem == 0 { offset } else { offset + (align - rem) };
            assert(start == layout_offset(shapes, i as int));
            out.push((start as u32, components as u32));
            offset = start + components * 4;
            i += 1;
        }
        out
    }

    /// The byte size of the uniform buffer.
    pub fn byte_size(&self) -> (r: u32)
        requires
            self.layout_fits(),
        ensures
            r == spec_byte_size(field_shapes(self.fields@)),
    {
        let layouts = self.field_layouts();
        let ghost shapes = field_shapes(self.fields@);
        let ghost n = self.fields@.len() as int;
        if layouts.len() == 0 {
            return 16;
        }
        let last = layouts[layouts.len() - 1];
        proof {
            assert(last == layouts@[n - 1]);
            lemma_layout_monotone(shapes, n - 1, n);
            lemma_align_up(layout_end(shapes, n), 16);
        }
        let end: u64 = last.0 as u64 + last.1 as u64 * 4;
        assert(end == layout_end(shapes, n));
        let rem = end % 16;
        let rounded = if rem == 0 { end } else { end + (16 - rem) };
        if rounded < 16 {
            16
        } else {
            rounded as u32
        }
    }
}

/// The global uniforms of one check pass: their declarations and the value
/// each binding name evaluates to, in declaration order.
#[derive(Debug)]
pub struct GlobalUniformRegistry {
    pub defs: Vec<GlobalUniformDef>,
    pub bindings: Vec<(String, Value)>,
}

/// The struct declaration named `name`; the last declaration wins.
pub open spec fn find_struct(structs: Seq<StructDecl>, name: Seq<char>) -> Option<StructDecl>
    decreases structs.len(),
{
    if structs.len() == 0 {
        None
    } else if structs.last().name@ == name {
        Some(structs.last())
    } else {
        find_struct(structs.drop_last(), name)
    }
}

/// The errors for the unsupported fields of a struct, in order.
pub open spec fn field_diags(fields: Seq<StructFieldDecl>) -> Seq<DiagView>
    decreases fields.len(),
{
    if fields.len() == 0 {
        Seq::empty()
    } else {
        let f = fields.last();
        let rest = field_diags(fields.drop_last());
        if spec_field_shape(f.ty_name@) is None {
            rest.push(
                error_view(
                    f.ty_span,
                    "global uniform field `"@ + f.name@ + "` has unsupported type `"@ + f.ty_name@
                        + "`"@,
                    None,
                    Some("supported global uniform field types: f32-family scalars, vec2, vec3, vec4"@),
                ),
            )
        } else {
            rest
        }
    }
}

/// The registered uniforms among the first `n` params: each with its struct.
pub open spec fn registered(params: Seq<GlobalParamDecl>, structs: Seq<StructDecl>, n: int) -> Seq<
    (GlobalParamDecl, StructDecl),
>
    decreases n,
{
    if n <= 0 {
        Seq::empty()
    } else {
        let prev = registered(params, structs, n - 1);
        let d = params[n - 1];
        match find_struct(structs, d.ty_name@) {
            None => prev,
            Some(s) => if registered_names(prev).contains(d.name@) || field_diags(s.fields@).len() > 0 {
                prev
            } else {
                prev.push((d, s))
            },
        }
    }
}

pub open spec fn registered_names(rs: Seq<(GlobalParamDecl, StructDecl)>) -> Seq<Seq<char>> {
    Seq::new(rs.len(), |i: int| rs[i].0.name@)
}

/// The diagnostics for the first `n` params.
pub open spec fn registry_diags(params: Seq<GlobalParamDecl>, structs: Seq<StructDecl>, n: int) -> Seq<
    DiagView,
>
    decreases n,
{
    if n <= 0 {
        Seq::empty()
    } else {
        let prev = registry_diags(params, structs, n - 1);
        let d = params[n - 1];
        match find_struct(structs, d.ty_name@) {
            None => prev,
            Some(s) => if registered_names(registered(params, structs, n - 1)).contains(d.name@) {
                prev.push(
                    error_view(
                        d.name_span,
                        "duplicate global uniform `"@ + d.name@ + "`"@,
                        Some("global uniform name redefined"@),
                        Some("global uniform names must be unique within a program"@),
                    ),
                )
            } else {
                prev + field_diags(s.fields@)
            },
        }
    }
}

/// The declaration recorded for a registered uniform.
pub open spec fn spec_uniform_def_fields(s: StructDecl) -> Seq<(String, String)> {
    Seq::new(s.fields@.len(), |i: int| (s.fields@[i].name, s.fields@[i].ty_name))
}

/// The fields of the value bound for a registered uniform.
pub open spec fn spec_uniform_entries(d: GlobalParamDecl, s: StructDecl) -> Seq<(String, Value)> {
    Seq::new(
        s.fields@.len(),
        |i: int|
            (
                s.fields@[i].name,
                spec_field_value(d.name, s.fields@[i].name, i as u32, spec_field_shape(s.fields@[i].ty_name@)->0),
            ),
    )
}

pub open spec fn spec_uniform_binding(d: GlobalParamDecl, s: StructDecl) -> (String, Value) {
    (d.name, Value::Struct { ty_name: d.ty_name, fields: spec_fields_of(spec_uniform_entries(d, s)) })
}

/// The position of the struct declaration named `name` (the last one).
fn find_struct_index(structs: &[StructDecl], name: &str) -> (r: Option<usize>)
    ensures
        r matches Some(i) ==> i < structs@.len() && find_struct(structs@, name@) == Some(structs@[i as int]),
        r is None ==> find_struct(structs@, name@) is None,
{
    let mut k: usize = structs.len();
    assert(structs@.take(k as int) =~= structs@);
    while k > 0
        invariant
            k <= structs@.len(),
            find_struct(structs@, name@) == find_struct(structs@.take(k as int), name@),
        decreases k,
    {
        assert(structs@.take(k as int).drop_last() =~= structs@.take(k - 1));
        if str_eq(structs[k - 1].name.as_str(), name) {
            return Some(k - 1);
        }
        k -= 1;
    }
    None
}

fn contains_binding(bindings: &Vec<(String, Value)>, name: &str) -> (r: bool)
    ensures
        r == exists|i: int| 0 <= i < bindings@.len() && bindings@[i].0@ == name@,
{
    let mut i: usize = 0;
    while i < bindings.len()
        invariant
            i <= bindings@.len(),
            forall|k: int| 0 <= k < i ==> bindings@[k].0@ != name@,
        decreases bindings@.len() - i,
    {
        if str_eq(bindings[i].0.as_str(), name) {
            return true;
        }
        i += 1;
    }
    false
}

/// Validates the struct-typed global params and builds their registry;
/// params of other types are left to the ordinary param declarations.
pub fn build_global_uniform_registry(
    params: &[GlobalParamDecl],
    structs: &[StructDecl],
    diags: &mut Vec<Diag>,
) -> (r: GlobalUniformRegistry)
    ensures
        diag_views(final(diags)@) == diag_views(old(diags)@) + registry_diags(params@, structs@, params@.len() as int),
        r.defs@.len() == registered(params@, structs@, params@.len() as int).len(),
        r.bindings@.len() == r.defs@.len(),
        forall|i: int|
            0 <= i < r.defs@.len() ==> {
                let (d, s) = #[trigger] registered(params@, structs@, params@.len() as int)[i];
                &&& r.defs@[i].name == d.name
                &&& r.defs@[i].ty_name == d.ty_name
                &&& r.defs@[i].fields@ == spec_uniform_def_fields(s)
                &&& r.bindings@[i] == spec_uniform_binding(d, s)
            },
{
    let mut defs: Vec<GlobalUniformDef> = Vec::new();
    let mut bindings: Vec<(String, Value)> = Vec::new();
    let ghost base = diag_views(diags@);
    let mut p: usize = 0;
    while p < params.len()
        invariant
            p <= params@.len(),
            diag_views(diags@) == base + registry_diags(params@, structs@, p as int),
            defs@.len() == registered(params@, structs@, p as int).len(),
            bindings@.len() == defs@.len(),
            forall|i: int|
                0 <= i < defs@.len() ==> {
                    let (d, s) = #[trigger] registered(params@, structs@, p as int)[i];
                    &&& defs@[i].name == d.name
                    &&& defs@[i].ty_name == d.ty_name
                    &&& defs@[i].fields@ == spec_uniform_def_fields(s)
                    &&& bindings@[i] == spec_uniform_binding(d, s)
                },
        decreases params@.len() - p,
    {
        let decl = &params[p];
        let ghost prev = registered(params@, structs@, p as int);
        let ghost prev_diags = registry_diags(params@, structs@, p as int);
        let si = match find_struct_index(structs, decl.ty_name.as_str()) {
            Some(si) => si,
            None => {
                p += 1;
                continue;
            },
        };
        let sdecl = &structs[si];
        proof {
            assert forall|k: int| 0 <= k < bindings@.len() implies bindings@[k].0@ == registered_names(prev)[k] by {
                let (d, s) = registered(params@, structs@, p as int)[k];
                assert(bindings@[k] == spec_uniform_binding(d, s));
            }
        }
        if contains_binding(&bindings, decl.name.as_str()) {
            proof {
                let k = choose|k: int| 0 <= k < bindings@.len() && bindings@[k].0@ == decl.name@;
                assert(registered_names(prev)[k] == decl.name@);
            }
            let message = cat3("duplicate global uniform `", decl.name.as_str(), "`");
            let d = Diag::error(decl.name_span, message).with_label(
                String::from_str("global uniform name redefined"),
            ).with_help(String::from_str("global uniform names must be unique within a program"));
            let ghost before = diags@;
            diags.push(d);
            assert(diag_views(diags@) =~= diag_views(before).push(diag_view_of_last(diags@)));
            p += 1;
            continue;
        }
        proof {
            assert(!registered_names(prev).contains(decl.name@)) by {
                if registered_names(prev).contains(decl.name@) {
                    let k = choose|k: int| 0 <= k < registered_names(prev).len() && registered_names(prev)[k] == decl.name@;
                    assert(bindings@[k].0@ == decl.name@);
                }
            }
        }
        let mut fields: Vec<(String, String)> = Vec::new();
        let mut entries: Vec<(String, Value)> = Vec::new();
        let mut bad = false;
        let mut f: usize = 0;
        let ghost diags_at = diag_views(diags@);
        while f < sdecl.fields.len()
            invariant
                f <= sdecl.fields@.len(),
                diag_views(diags@) == diags_at + field_diags(sdecl.fields@.take(f as int)),
                bad == (field_diags(sdecl.fields@.take(f as int)).len() > 0),
                !bad ==> fields@ == spec_uniform_def_fields(*sdecl).take(f as int),
                !bad ==> entries@ == spec_uniform_entries(*decl, *sdecl).take(f as int),
            decreases sdecl.fields@.len() - f,
        {
            let field = &sdecl.fields[f];
            assert(sdecl.fields@.take(f + 1).drop_last() =~= sdecl.fields@.take(f as int));
            match field_shape(field.ty_name.as_str()) {
                None => {
                    let message = cat5(
                        "global uniform field `",
                        field.name.as_str(),
                        "` has unsupported type `",
                        field.ty_name.as_str(),
                        "`",
                    );
                    let d = Diag::error(field.ty_span, message).with_help(
                        String::from_str(
                            "supported global uniform field types: f32-family scalars, vec2, vec3, vec4",
                        ),
                    );
                    let ghost before = diags@;
                    diags.push(d);
                    assert(diag_views(diags@) =~= diag_views(before).push(diag_view_of_last(diags@)));
                    bad = true;
                },
                Some(shape) => {
                    if !bad {
                        let index: u32 = #[verifier::truncate] (f as u32);
                        let value = field_value(&decl.name, &field.name, index, shape);
                        entries.push((field.name.clone(), value));
                        fields.push((field.name.clone(), field.ty_name.clone()));
                        assert(fields@ =~= spec_uniform_def_fields(*sdecl).take(f + 1));
                        assert(entries@ =~= spec_uniform_entries(*decl, *sdecl).take(f + 1));
                    }
                },
            }
            f += 1;
        }
        assert(sdecl.fields@.take(sdecl.fields@.len() as int) =~= sdecl.fields@);
        if bad {
            p += 1;
            continue;
        }
        assert(fields@ =~= spec_uniform_def_fields(*sdecl));
        assert(entries@ =~= spec_uniform_entries(*decl, *sdecl));
        defs.push(GlobalUniformDef {
            name: decl.name.clone(),
            ty_name: decl.ty_name.clone(),
            fields,
        });
        let record = fields_from_vec(entries);
        bindings.push((decl.name.clone(), Value::Struct { ty_name: decl.ty_name.clone(), fields: record }));
        p += 1;
    }
    GlobalUniformRegistry { defs, bindings }
}

pub open spec fn diag_view_of_last(ds: Seq<Diag>) -> DiagView {
    crate::diag::diag_view(ds.last())
}

/// The binding of `name` made last among `bs`.
pub open spec fn last_binding(bs: Seq<(String, Value)>, name: Seq<char>) -> Option<Value>
    decreases bs.len(),
{
    if bs.len() == 0 {
        None
    } else if bs.last().0@ == name {
        Some(bs.last().1)
    } else {
        last_binding(bs.drop_last(), name)
    }
}

impl GlobalUniformRegistry {
    /// The root-scope bindings, in declaration order.
    pub fn scope_bindings(&self) -> (r: Vec<(String, Value)>)
        ensures
            r@ == self.bindings@,
    {
        let mut out: Vec<(String, Value)> = Vec::new();
        let mut i: usize = 0;
        while i < self.bindings.len()
            invariant
                i <= self.bindings@.len(),
                out@ == self.bindings@.take(i as int),
            decreases self.bindings@.len() - i,
        {
            out.push((self.bindings[i].0.clone(), self.bindings[i].1.clone_value()));
            assert(out@ =~= self.bindings@.take(i + 1));
            i += 1;
        }
        assert(self.bindings@.take(self.bindings@.len() as int) =~= self.bindings@);
        out
    }
}

impl Checker {
    /// Binds every global uniform in the innermost scope.
    pub fn bind_global_uniforms(&mut self, registry: &GlobalUniformRegistry)
        requires
            old(self).scopes@.len() > 0,
        ensures
            final(self).scopes@.len() == old(self).scopes@.len(),
            forall|n: Seq<char>|
                scopes_get(final(self).scopes@, n) == match last_binding(registry.bindings@, n) {
                    Some(v) => Some(v),
                    None => scopes_get(old(self).scopes@, n),
                },
            final(self).diags == old(self).diags,
    {
        let bindings = registry.scope_bindings();
        let ghost start = self.scopes@;
        let ghost diags0 = self.diags;
        let mut i: usize = 0;
        assert(bindings@.take(0) =~= Seq::<(String, Value)>::empty());
        while i < bindings.len()
            invariant
                bindings@ == registry.bindings@,
                i <= bindings@.len(),
                self.scopes@.len() == start.len(),
                start.len() > 0,
                forall|n: Seq<char>|
                    scopes_get(self.scopes@, n) == match last_binding(bindings@.take(i as int), n) {
                        Some(v) => Some(v),
                        None => scopes_get(start, n),
                    },
                self.diags == diags0,
            decreases bindings@.len() - i,
        {
            let name = bindings[i].0.clone();
            let value = bindings[i].1.clone_value();
            self.bind(name, value);
            assert(bindings@.take(i + 1).drop_last() =~= bindings@.take(i as int));
            i += 1;
        }
        assert(bindings@.take(bindings@.len() as int) =~= bindings@);
    }
}

} // verus!
