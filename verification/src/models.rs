//! Material models: each resolved material properties type with its parent,
//! composition, default flag and evaluator selection, and the schema
//! programs and schema evaluators bound to it.
use vstd::prelude::*;
use crate::ast::SExpr;
use crate::diag::{has_errors, opt_view, spec_has_errors, Diag, Severity, Span};
use crate::enums::contains_name;
use crate::surface::{
    clone_channels, decl_index, decl_index_exec, entry_index_exec, entry_of, MaterialPropertiesDecl,
    ResolvedMaterialProperties, ResolvedTable, ValidatedMaterialChannel,
};
use crate::text::{cat2, cat3, cat5, cat7, decimal, join, str_eq};

verus! {

/// A schema program bound to a material properties type.
#[derive(Debug)]
pub struct SchemaProgramDecl {
    pub name: String,
    pub name_span: Span,
    pub material_model_name: String,
    pub material_model_span: Span,
    /// The output expressions written; exactly one is expected.
    pub output: Vec<SExpr>,
}

/// A schema evaluator bound to a material properties type.
#[derive(Debug)]
pub struct SchemaEvaluatorDecl {
    pub name: String,
    pub name_span: Span,
    pub material_model_name: String,
    pub material_model_span: Span,
    /// Where the evaluator's contract block is written, if it has one.
    pub contract_span: Option<Span>,
    /// The names of the evaluator's permutation axes.
    pub permutations: Vec<String>,
    pub specialize_pattern: Option<String>,
}

/// A validated material model.
#[derive(Debug)]
pub struct ValidatedMaterialModel {
    pub parent: Option<String>,
    pub composition: Option<String>,
    pub is_default: bool,
    pub evaluation: Option<String>,
    pub channels: Vec<ValidatedMaterialChannel>,
    pub schema_program_name: Option<String>,
    pub schema_program_names: Vec<String>,
    pub schema_evaluator_name: Option<String>,
    pub schema_evaluator_names: Vec<String>,
}

/// The validated material models, by material properties name.
#[derive(Debug)]
pub struct ModelTable {
    pub entries: Vec<(String, ValidatedMaterialModel)>,
}

/// The composition found from declaration `i` on, following `extends` to the
/// first declaration of each parent name, for at most `fuel` steps.
pub open spec fn composition_at(decls: Seq<MaterialPropertiesDecl>, i: int, fuel: nat) -> Option<Seq<char>>
    decreases fuel,
{
    if i < 0 || i >= decls.len() {
        None
    } else {
        match decls[i].composition {
            Some(c) => Some(c@),
            None => match decls[i].extends_name {
                Some(p) => if fuel == 0 {
                    None
                } else {
                    match decl_index(decls, p@) {
                        Some(k) => composition_at(decls, k, (fuel - 1) as nat),
                        None => None,
                    }
                },
                None => None,
            },
        }
    }
}

/// The composition a material model takes: its own, else the nearest
/// ancestor's.
pub open spec fn inherited_composition(decls: Seq<MaterialPropertiesDecl>, name: Seq<char>) -> Option<Seq<char>> {
    match decl_index(decls, name) {
        Some(i) => composition_at(decls, i, decls.len() as nat),
        None => None,
    }
}

/// Some declaration named `name` is marked as the default.
pub open spec fn declared_default(decls: Seq<MaterialPropertiesDecl>, name: Seq<char>) -> bool {
    exists|j: int| 0 <= j < decls.len() && decls[j].name@ == name && decls[j].is_default
}

/// `m` is the model of the material named `name` with resolved properties
/// `props`: the first declaration's parent and evaluator, the inherited
/// composition, the default flag, and the resolved channels.
pub open spec fn model_of(
    decls: Seq<MaterialPropertiesDecl>,
    name: Seq<char>,
    props: ResolvedMaterialProperties,
    m: ValidatedMaterialModel,
) -> bool {
    &&& opt_view(m.parent) == match decl_index(decls, name) {
        Some(i) => opt_view(decls[i].extends_name),
        None => None,
    }
    &&& opt_view(m.evaluation) == match decl_index(decls, name) {
        Some(i) => opt_view(decls[i].evaluator),
        None => None,
    }
    &&& opt_view(m.composition) == inherited_composition(decls, name)
    &&& m.is_default == declared_default(decls, name)
    &&& m.channels@ == props.channels@
}

/// The names recorded in a list of first declarations.
pub open spec fn seen_names(seen: Seq<(String, Span)>) -> Seq<Seq<char>> {
    Seq::new(seen.len(), |i: int| seen[i].0@)
}

/// The program `k` is the first schema program carrying its name.
pub open spec fn first_program_named(programs: Seq<SchemaProgramDecl>, k: int) -> bool {
    forall|j: int| 0 <= j < k ==> programs[j].name@ != programs[k].name@
}

/// The evaluator `k` is the first schema evaluator carrying its name.
pub open spec fn first_evaluator_named(evaluators: Seq<SchemaEvaluatorDecl>, k: int) -> bool {
    forall|j: int| 0 <= j < k ==> evaluators[j].name@ != evaluators[k].name@
}

fn clone_opt(o: &Option<String>) -> (r: Option<String>)
    ensures
        opt_view(r) == opt_view(*o),
{
    match o {
        Some(s) => Some(s.clone()),
        None => None,
    }
}

/// The composition of the material named `name`; see `inherited_composition`.
fn composition_of(decls: &[MaterialPropertiesDecl], name: &str) -> (r: Option<String>)
    ensures
        opt_view(r) == inherited_composition(decls@, name@),
{
    let mut cur = match decl_index_exec(decls, name) {
        Some(i) => i,
        None => return None,
    };
    let mut fuel: usize = decls.len();
    proof {
        crate::surface::lemma_decl_index(decls@, name@);
    }
    loop
        invariant
            cur < decls@.len(),
            fuel <= decls@.len(),
            inherited_composition(decls@, name@) == composition_at(decls@, cur as int, fuel as nat),
        decreases fuel,
    {
        match &decls[cur].composition {
            Some(c) => return Some(c.clone()),
            None => {},
        }
        match &decls[cur].extends_name {
            Some(p) => {
                if fuel == 0 {
                    return None;
                }
                proof {
                    crate::surface::lemma_decl_index(decls@, p@);
                }
                match decl_index_exec(decls, p.as_str()) {
                    Some(k) => {
                        cur = k;
                        fuel = fuel - 1;
                    },
                    None => return None,
                }
            },
            None => return None,
        }
    }
}

/// Whether some declaration named `name` is marked as the default.
fn is_declared_default(decls: &[MaterialPropertiesDecl], name: &str) -> (r: bool)
    ensures
        r == declared_default(decls@, name@),
{
    let mut j: usize = 0;
    while j < decls.len()
        invariant
            j <= decls@.len(),
            forall|i: int| 0 <= i < j ==> !(decls@[i].name@ == name@ && decls@[i].is_default),
        decreases decls@.len() - j,
    {
        if decls[j].is_default && str_eq(decls[j].name.as_str(), name) {
            return true;
        }
        j += 1;
    }
    false
}

/// Builds the model of a resolved material with the given program and
/// evaluator bindings.
fn build_model(
    decls: &[MaterialPropertiesDecl],
    name: &str,
    props: &ResolvedMaterialProperties,
    schema_program_name: Option<String>,
    schema_program_names: Vec<String>,
    schema_evaluator_name: Option<String>,
    schema_evaluator_names: Vec<String>,
) -> (m: ValidatedMaterialModel)
    ensures
        model_of(decls@, name@, *props, m),
        m.schema_program_name == schema_program_name,
        m.schema_program_names == schema_program_names,
        m.schema_evaluator_name == schema_evaluator_name,
        m.schema_evaluator_names == schema_evaluator_names,
{
    proof {
        crate::surface::lemma_decl_index(decls@, name@);
    }
    let (parent, evaluation) = match decl_index_exec(decls, name) {
        Some(i) => (clone_opt(&decls[i].extends_name), clone_opt(&decls[i].evaluator)),
        None => (None, None),
    };
    ValidatedMaterialModel {
        parent,
        composition: composition_of(decls, name),
        is_default: is_declared_default(decls, name),
        evaluation,
        channels: clone_channels(&props.channels),
        schema_program_name,
        schema_program_names,
        schema_evaluator_name,
        schema_evaluator_names,
    }
}

fn push_error(diags: &mut Vec<Diag>, span: Span, message: String, help: Option<String>)
    ensures
        final(diags)@.len() == old(diags)@.len() + 1,
        forall|i: int| 0 <= i < old(diags)@.len() ==> final(diags)@[i] == old(diags)@[i],
        final(diags)@.last().severity == Severity::Error,
{
    let d = match help {
        Some(h) => Diag::error(span, message).with_help(h),
        None => Diag::error(span, message),
    };
    diags.push(d);
}

/// The span text `start..end`.
fn span_text(span: Span) -> (r: String) {
    let a = decimal(span.start as u64);
    let b = decimal(span.end as u64);
    cat3(a.as_str(), "..", b.as_str())
}

/// The name of the material `name` extends, as the last declaration of that
/// name with an `extends` clause says.
fn parent_of(decls: &[MaterialPropertiesDecl], name: &str) -> (r: Option<String>) {
    let mut found: Option<String> = None;
    let mut j: usize = 0;
    while j < decls.len()
        invariant
            j <= decls@.len(),
        decreases decls@.len() - j,
    {
        if str_eq(decls[j].name.as_str(), name) {
            match &decls[j].extends_name {
                Some(p) => {
                    found = Some(p.clone());
                },
                None => {},
            }
        }
        j += 1;
    }
    found
}

/// The names of the channels of `child` that `parent` lacks, in order.
fn child_only_channels(child: &Vec<ValidatedMaterialChannel>, parent: &Vec<ValidatedMaterialChannel>) -> (r: Vec<
    String,
>) {
    let mut names: Vec<String> = Vec::new();
    let mut i: usize = 0;
    while i < child.len()
        invariant
            i <= child@.len(),
        decreases child@.len() - i,
    {
        let mut present = false;
        let mut j: usize = 0;
        while j < parent.len()
            invariant
                j <= parent@.len(),
                i < child@.len(),
            decreases parent@.len() - j,
        {
            if str_eq(parent[j].name.as_str(), child[i].name.as_str()) {
                present = true;
            }
            j += 1;
        }
        if !present {
            names.push(child[i].name.clone());
        }
        i += 1;
    }
    names
}

/// The index of the first entry of `seen` named `name`.
fn seen_index(seen: &Vec<(String, Span)>, name: &str) -> (r: Option<usize>)
    ensures
        r matches Some(i) ==> i < seen@.len() && seen@[i as int].0@ == name@,
        r is None ==> forall|i: int| 0 <= i < seen@.len() ==> seen@[i].0@ != name@,
{
    let mut i: usize = 0;
    while i < seen.len()
        invariant
            i <= seen@.len(),
            forall|k: int| 0 <= k < i ==> seen@[k].0@ != name@,
        decreases seen@.len() - i,
    {
        if str_eq(seen[i].0.as_str(), name) {
            return Some(i);
        }
        i += 1;
    }
    None
}

/// Validates the schema programs and evaluators bound to the resolved
/// material properties and builds one model per resolved material. A
/// program needs exactly one output, a unique name, a known material, and no
/// other program for that material; a material without a program inherits its
/// nearest ancestor's (warning about child-only channels it leaves unused).
/// An evaluator needs a unique name and a known material; it is selected when
/// the material names it with `@evaluator`, or when it is the material's only
/// one, and a selected evaluator with permutations needs a contract and a
/// `specialize as` pattern.
pub fn validate_material_models(
    resolved: &ResolvedTable,
    material_properties: &[MaterialPropertiesDecl],
    schema_evaluators: &[SchemaEvaluatorDecl],
    schema_programs: &[SchemaProgramDecl],
) -> (r: Result<ModelTable, Vec<Diag>>)
    ensures
        r matches Ok(t) ==> {
            &&& t.entries@.len() == resolved.entries@.len()
            &&& forall|i: int|
                0 <= i < t.entries@.len() ==> t.entries@[i].0@ == resolved.entries@[i].0@ && model_of(
                    material_properties@,
                    resolved.entries@[i].0@,
                    resolved.entries@[i].1,
                    t.entries@[i].1,
                )
        },
        r matches Err(ds) ==> spec_has_errors(ds@),
        (exists|k: int| 0 <= k < schema_programs@.len() && schema_programs@[k].output@.len() != 1) ==> r is Err,
        (exists|k: int|
            0 <= k < schema_evaluators@.len() && first_evaluator_named(schema_evaluators@, k) && entry_of(
                resolved.entries@,
                schema_evaluators@[k].material_model_name@,
            ) is None) ==> r is Err,
        schema_programs@.len() == 0 && schema_evaluators@.len() == 0 ==> r is Ok,
{
    let n = resolved.entries.len();
    let mut diags: Vec<Diag> = Vec::new();
    let mut prog_name: Vec<Option<String>> = Vec::new();
    let mut prog_names: Vec<Vec<String>> = Vec::new();
    let mut eval_name: Vec<Option<String>> = Vec::new();
    let mut eval_names: Vec<Vec<String>> = Vec::new();
    let mut i: usize = 0;
    while i < n
        invariant
            n == resolved.entries@.len(),
            i <= n,
            prog_name@.len() == i,
            prog_names@.len() == i,
            eval_name@.len() == i,
            eval_names@.len() == i,
            forall|x: int| 0 <= x < i ==> prog_name@[x] is None,
        decreases n - i,
    {
        prog_name.push(None);
        prog_names.push(Vec::new());
        eval_name.push(None);
        eval_names.push(Vec::new());
        i += 1;
    }

    // Schema programs.
    let mut seen: Vec<(String, Span)> = Vec::new();
    let mut program_by_material: Vec<(String, String)> = Vec::new();
    let mut k: usize = 0;
    while k < schema_programs.len()
        invariant
            n == resolved.entries@.len(),
            prog_name@.len() == n,
            prog_names@.len() == n,
            eval_name@.len() == n,
            eval_names@.len() == n,
            k <= schema_programs@.len(),
            (exists|j: int| 0 <= j < k && schema_programs@[j].output@.len() != 1) ==> spec_has_errors(diags@),
            schema_programs@.len() == 0 ==> diags@.len() == 0,
            forall|x: int| 0 <= x < n && schema_programs@.len() == 0 ==> prog_name@[x] is None,
        decreases schema_programs@.len() - k,
    {
        let program = &schema_programs[k];
        let ghost before = diags@;
        if program.output.len() != 1 {
            let m = if program.output.len() == 0 {
                "schema program requires an explicit output expression"
            } else {
                "duplicate schema program output"
            };
            push_error(&mut diags, program.name_span, String::from_str(m), None);
            assert(diags@[diags@.len() - 1].severity == Severity::Error);
            k += 1;
            continue;
        }
        proof {
            if exists|j: int| 0 <= j < k && schema_programs@[j].output@.len() != 1 {
                let i0 = choose|i0: int| 0 <= i0 < before.len() && before[i0].severity == Severity::Error;
            }
        }
        match seen_index(&seen, program.name.as_str()) {
            Some(f) => {
                let first = seen[f].1;
                let message = cat3("duplicate schema_program declaration `", program.name.as_str(), "`");
                let t = span_text(first);
                let help = cat2("first declaration appears at bytes ", t.as_str());
                push_error(&mut diags, program.name_span, message, Some(help));
                proof {
                    if exists|j: int| 0 <= j < k && schema_programs@[j].output@.len() != 1 {
                        let i0 = choose|i0: int| 0 <= i0 < before.len() && before[i0].severity == Severity::Error;
                        assert(diags@[i0] == before[i0]);
                    }
                }
                k += 1;
                continue;
            },
            None => {},
        }
        seen.push((program.name.clone(), program.name_span));
        let mut existing: Option<usize> = None;
        let mut q: usize = 0;
        while q < program_by_material.len()
            invariant
                q <= program_by_material@.len(),
                existing matches Some(e) ==> e < program_by_material@.len(),
            decreases program_by_material@.len() - q,
        {
            if existing.is_none() && str_eq(program_by_material[q].0.as_str(), program.material_model_name.as_str()) {
                existing = Some(q);
            }
            q += 1;
        }
        match existing {
            Some(e) => {
                let a = cat5(
                    "material_properties `",
                    program.material_model_name.as_str(),
                    "` has multiple schema_program declarations (`",
                    program_by_material[e].1.as_str(),
                    "` and `",
                );
                let message = cat3(a.as_str(), program.name.as_str(), "`)");
                push_error(
                    &mut diags,
                    program.material_model_span,
                    message,
                    Some(String::from_str("declare at most one schema_program per material_properties type")),
                );
                proof {
                    if exists|j: int| 0 <= j < k && schema_programs@[j].output@.len() != 1 {
                        let i0 = choose|i0: int| 0 <= i0 < before.len() && before[i0].severity == Severity::Error;
                        assert(diags@[i0] == before[i0]);
                    }
                }
                k += 1;
                continue;
            },
            None => {},
        }
        match entry_index_exec(&resolved.entries, program.material_model_name.as_str()) {
            None => {
                let message = cat5(
                    "schema_program `",
                    program.name.as_str(),
                    "` references unknown material_properties `",
                    program.material_model_name.as_str(),
                    "`",
                );
                push_error(
                    &mut diags,
                    program.material_model_span,
                    message,
                    Some(String::from_str("declare the material_properties before binding a schema_program to it")),
                );
                proof {
                    if exists|j: int| 0 <= j < k && schema_programs@[j].output@.len() != 1 {
                        let i0 = choose|i0: int| 0 <= i0 < before.len() && before[i0].severity == Severity::Error;
                        assert(diags@[i0] == before[i0]);
                    }
                }
            },
            Some(idx) => {
                let mut names = prog_names[idx].clone();
                names.push(program.name.clone());
                prog_names.set(idx, names);
                prog_name.set(idx, Some(program.name.clone()));
                program_by_material.push((program.material_model_name.clone(), program.name.clone()));
            },
        }
        k += 1;
    }

    // Materials without a program inherit the nearest ancestor's.
    let mut inherited: Vec<(usize, String)> = Vec::new();
    let mut i: usize = 0;
    while i < n
        invariant
            n == resolved.entries@.len(),
            prog_name@.len() == n,
            prog_names@.len() == n,
            eval_name@.len() == n,
            eval_names@.len() == n,
            i <= n,
            forall|x: int| 0 <= x < inherited@.len() ==> inherited@[x].0 < n,
            (exists|j: int| 0 <= j < schema_programs@.len() && schema_programs@[j].output@.len() != 1)
                ==> spec_has_errors(diags@),
            schema_programs@.len() == 0 ==> diags@.len() == 0,
            forall|x: int| 0 <= x < n && schema_programs@.len() == 0 ==> prog_name@[x] is None,
        decreases n - i,
    {
        if prog_name[i].is_none() {
            let material = &resolved.entries[i].0;
            let mut cursor = parent_of(material_properties, material.as_str());
            let mut visited: Vec<String> = Vec::new();
            let mut steps: u128 = 0;
            while steps <= material_properties.len() as u128
                invariant
                    n == resolved.entries@.len(),
                    prog_name@.len() == n,
                    i < n,
                    forall|x: int| 0 <= x < inherited@.len() ==> inherited@[x].0 < n,
                    (exists|j: int| 0 <= j < schema_programs@.len() && schema_programs@[j].output@.len() != 1)
                        ==> spec_has_errors(diags@),
                    schema_programs@.len() == 0 ==> diags@.len() == 0,
                    forall|x: int| 0 <= x < n && schema_programs@.len() == 0 ==> prog_name@[x] is None,
                decreases material_properties@.len() + 1 - steps,
            {
                let parent_name = match cursor {
                    Some(p) => p,
                    None => break,
                };
                if contains_name(&visited, parent_name.as_str()) {
                    break;
                }
                visited.push(parent_name.clone());
                let found = match entry_index_exec(&resolved.entries, parent_name.as_str()) {
                    Some(j) => match &prog_name[j] {
                        Some(pn) => Some((j, pn.clone())),
                        None => None,
                    },
                    None => None,
                };
                if let Some((j, pn)) = found {
                    let extra = child_only_channels(&resolved.entries[i].1.channels, &resolved.entries[j].1.channels);
                    if extra.len() > 0 {
                        proof {
                            assert(prog_name@[j as int] is Some);
                            crate::surface::lemma_decl_index(material_properties@, material@);
                        }
                        let span = match decl_index_exec(material_properties, material.as_str()) {
                            Some(di) => material_properties[di].name_span,
                            None => Span { start: 0, end: 0 },
                        };
                        let joined = join(&extra, ", ");
                        let a = cat7(
                            "material_properties `",
                            material.as_str(),
                            "` inherits schema_program `",
                            pn.as_str(),
                            "` from `",
                            parent_name.as_str(),
                            "`; child-only channels are currently unused: ",
                        );
                        let message = cat2(a.as_str(), joined.as_str());
                        let ghost before = diags@;
                        diags.push(
                            Diag::warning(span, message).with_help(
                                String::from_str(
                                    "declare a dedicated schema_program for this material_properties to consume child-specific channels",
                                ),
                            ),
                        );
                        proof {
                            if exists|j2: int| 0 <= j2 < schema_programs@.len() && schema_programs@[j2].output@.len() != 1 {
                                let i0 = choose|i0: int| 0 <= i0 < before.len() && before[i0].severity == Severity::Error;
                                assert(diags@[i0] == before[i0]);
                            }
                        }
                    }
                    inherited.push((i, pn));
                    break;
                }
                cursor = parent_of(material_properties, parent_name.as_str());
                steps += 1;
            }
        }
        i += 1;
    }
    let mut x: usize = 0;
    while x < inherited.len()
        invariant
            prog_name@.len() == n,
            forall|y: int| 0 <= y < inherited@.len() ==> inherited@[y].0 < n,
        decreases inherited@.len() - x,
    {
        let idx = inherited[x].0;
        prog_name.set(idx, Some(inherited[x].1.clone()));
        x += 1;
    }

    // Schema evaluators.
    let mut seen_eval: Vec<(String, Span)> = Vec::new();
    let mut k: usize = 0;
    while k < schema_evaluators.len()
        invariant
            n == resolved.entries@.len(),
            prog_name@.len() == n,
            prog_names@.len() == n,
            eval_name@.len() == n,
            eval_names@.len() == n,
            k <= schema_evaluators@.len(),
            (exists|j: int| 0 <= j < schema_programs@.len() && schema_programs@[j].output@.len() != 1)
                ==> spec_has_errors(diags@),
            forall|j: int| 0 <= j < k ==> seen_names(seen_eval@).contains(
                #[trigger] schema_evaluators@[j].name@,
            ),
            forall|x: int| 0 <= x < seen_eval@.len() ==> exists|j: int| 0 <= j < k && schema_evaluators@[j].name@
                == #[trigger] seen_eval@[x].0@,
            (exists|j: int|
                0 <= j < k && first_evaluator_named(schema_evaluators@, j) && entry_of(
                    resolved.entries@,
                    schema_evaluators@[j].material_model_name@,
                ) is None) ==> spec_has_errors(diags@),
            schema_programs@.len() == 0 && k == 0 ==> diags@.len() == 0,
        decreases schema_evaluators@.len() - k,
    {
        let evaluation = &schema_evaluators[k];
        let ghost before = diags@;
        let ghost seen_before = seen_eval@;
        match seen_index(&seen_eval, evaluation.name.as_str()) {
            Some(f) => {
                let first = seen_eval[f].1;
                let message = cat3("duplicate schema_evaluator declaration `", evaluation.name.as_str(), "`");
                let t = span_text(first);
                let help = cat2("first declaration appears at bytes ", t.as_str());
                push_error(&mut diags, evaluation.name_span, message, Some(help));
                proof {
                    lemma_errors_kept(before, diags@);
                    let w = choose|j: int| 0 <= j < k && schema_evaluators@[j].name@ == seen_eval@[f as int].0@;
                    assert(!first_evaluator_named(schema_evaluators@, k as int));
                }
                k += 1;
                continue;
            },
            None => {},
        }
        seen_eval.push((evaluation.name.clone(), evaluation.name_span));
        proof {
            assert forall|j: int| 0 <= j < k + 1 implies seen_names(seen_eval@).contains(
                #[trigger] schema_evaluators@[j].name@,
            ) by {
                if j < k {
                    let x = choose|x: int|
                        0 <= x < seen_names(seen_before).len()
                            && seen_names(seen_before)[x] == schema_evaluators@[j].name@;
                    assert(seen_names(seen_eval@)[x] == schema_evaluators@[j].name@);
                } else {
                    assert(seen_names(seen_eval@)[seen_before.len() as int]
                        == schema_evaluators@[j].name@);
                }
            }
            assert forall|x: int| 0 <= x < seen_eval@.len() implies exists|j: int|
                0 <= j < k + 1 && schema_evaluators@[j].name@ == #[trigger] seen_eval@[x].0@ by {
                if x < seen_before.len() {
                    assert(seen_eval@[x] == seen_before[x]);
                } else {
                    assert(schema_evaluators@[k as int].name@ == seen_eval@[x].0@);
                }
            }
        }
        let idx = match entry_index_exec(&resolved.entries, evaluation.material_model_name.as_str()) {
            Some(idx) => idx,
            None => {
                let message = cat5(
                    "schema_evaluator `",
                    evaluation.name.as_str(),
                    "` references unknown material_properties `",
                    evaluation.material_model_name.as_str(),
                    "`",
                );
                push_error(
                    &mut diags,
                    evaluation.material_model_span,
                    message,
                    Some(String::from_str("declare the material_properties before binding a schema_evaluator to it")),
                );
                proof {
                    assert(diags@[diags@.len() - 1].severity == Severity::Error);
                    lemma_errors_kept(before, diags@);
                }
                k += 1;
                continue;
            },
        };
        let mut names = eval_names[idx].clone();
        names.push(evaluation.name.clone());
        eval_names.set(idx, names);
        proof {
            crate::surface::lemma_decl_index(material_properties@, evaluation.material_model_name@);
        }
        let declared_selection: Option<String> = match decl_index_exec(
            material_properties,
            evaluation.material_model_name.as_str(),
        ) {
            Some(di) => clone_opt(&material_properties[di].evaluator),
            None => None,
        };
        let should_select = match &declared_selection {
            Some(selected) => str_eq(selected.as_str(), evaluation.name.as_str()),
            None => {
                if eval_name[idx].is_some() {
                    push_error(
                        &mut diags,
                        evaluation.name_span,
                        String::from_str(
                            "ambiguous evaluation models; select one with @evaluator(name) on the material schema",
                        ),
                        None,
                    );
                }
                eval_name[idx].is_none()
            },
        };
        if should_select {
            if evaluation.contract_span.is_none() && evaluation.permutations.len() > 0 {
                let message = cat3(
                    "schema_evaluator `",
                    evaluation.name.as_str(),
                    "` declares permutations but no contract block",
                );
                push_error(
                    &mut diags,
                    evaluation.name_span,
                    message,
                    Some(String::from_str("add a `contract { ... }` block so the specialization strategy is explicit")),
                );
            }
            if evaluation.permutations.len() > 0 && evaluation.specialize_pattern.is_none() {
                let message = cat3(
                    "schema_evaluator `",
                    evaluation.name.as_str(),
                    "` declares permutations but no `specialize as` pattern",
                );
                push_error(
                    &mut diags,
                    evaluation.name_span,
                    message,
                    Some(
                        String::from_str(
                            "add `specialize as \"...\"` so generated variant entry names are deterministic",
                        ),
                    ),
                );
            }
            eval_name.set(idx, Some(evaluation.name.clone()));
        }
        proof {
            lemma_errors_kept(before, diags@);
        }
        k += 1;
    }

    if has_errors(&diags) {
        return Err(diags);
    }
    let mut entries: Vec<(String, ValidatedMaterialModel)> = Vec::new();
    let mut i: usize = 0;
    while i < n
        invariant
            n == resolved.entries@.len(),
            prog_name@.len() == n,
            prog_names@.len() == n,
            eval_name@.len() == n,
            eval_names@.len() == n,
            i <= n,
            entries@.len() == i,
            forall|j: int|
                0 <= j < i ==> entries@[j].0@ == resolved.entries@[j].0@ && model_of(
                    material_properties@,
                    resolved.entries@[j].0@,
                    resolved.entries@[j].1,
                    entries@[j].1,
                ),
        decreases n - i,
    {
        let entry = &resolved.entries[i];
        let m = build_model(
            material_properties,
            entry.0.as_str(),
            &entry.1,
            clone_opt(&prog_name[i]),
            prog_names[i].clone(),
            clone_opt(&eval_name[i]),
            eval_names[i].clone(),
        );
        entries.push((entry.0.clone(), m));
        i += 1;
    }
    Ok(ModelTable { entries })
}

/// Appending diagnostics keeps the errors already there.
proof fn lemma_errors_kept(before: Seq<Diag>, after: Seq<Diag>)
    requires
        before.len() <= after.len(),
        forall|i: int| 0 <= i < before.len() ==> after[i] == before[i],
    ensures
        spec_has_errors(before) ==> spec_has_errors(after),
{
    if spec_has_errors(before) {
        let i = choose|i: int| 0 <= i < before.len() && before[i].severity == Severity::Error;
        assert(after[i] == before[i]);
    }
}

} // verus!
