//! The emitter: serialize a translation unit into the textual artifact the
//! downstream verification tool consumes.
//!
//! The order is stable: struct layouts first, then the lowered functions,
//! the initializer last. Field order and parameter modes are preserved;
//! struct and callee references are printed through the unit's interned
//! name tables. The emitter performs no validation of its own: output is a
//! pure function of the translation unit, so two runs over equal units
//! produce byte-identical text.

use vstd::prelude::*;
use crate::lower::{FieldDefV, FunctionDef, FunctionDefV, InitDefV, ParamDefV, StructDef, StructDefV};
use crate::model::{ParamMode, TypeRef};
use crate::translate::{TranslationUnit, TranslationUnitV};
use vstd::string::StringExecFns;

verus! {

/// The views of a table of owned names.
pub open spec fn views_of(names: Seq<String>) -> Seq<Seq<char>> {
    names.map_values(|s: String| s@)
}

/// The qualifier a passing mode prints as.
pub open spec fn spec_mode_str(m: ParamMode) -> Seq<char> {
    match m {
        ParamMode::ByValue => Seq::empty(),
        ParamMode::ByImmRef => "&"@,
        ParamMode::ByMutRef => "&mut "@,
    }
}

/// Name `i` of a table, empty when out of range (a well-formed unit never
/// is).
pub open spec fn name_of(names: Seq<Seq<char>>, i: int) -> Seq<char> {
    if 0 <= i < names.len() {
        names[i]
    } else {
        Seq::empty()
    }
}

/// The text of one lowered type.
pub open spec fn spec_print_ty(t: TypeRef, snames: Seq<Seq<char>>) -> Seq<char>
    decreases t,
{
    match t {
        TypeRef::Int => "int"@,
        TypeRef::Bool => "bool"@,
        TypeRef::Struct(s) => name_of(snames, s as int),
        TypeRef::Ref(inner, m) => (if m {
            "&mut "@
        } else {
            "&"@
        }) + spec_print_ty(*inner, snames),
    }
}

/// The text of the first `n` fields of a struct.
pub open spec fn spec_fields(fields: Seq<FieldDefV>, snames: Seq<Seq<char>>, n: int) -> Seq<char>
    decreases n,
{
    if n <= 0 {
        Seq::empty()
    } else {
        spec_fields(fields, snames, n - 1) + fields[n - 1].name + ": "@ + spec_print_ty(
            fields[n - 1].ty,
            snames,
        ) + "; "@
    }
}

/// The line one struct layout prints as.
pub open spec fn spec_struct_line(d: StructDefV, snames: Seq<Seq<char>>) -> Seq<char> {
    "struct "@ + d.name + " { "@ + spec_fields(d.fields, snames, d.fields.len() as int) + "}\n"@
}

/// The text of the first `n` parameters of a function.
pub open spec fn spec_params(params: Seq<ParamDefV>, snames: Seq<Seq<char>>, n: int) -> Seq<char>
    decreases n,
{
    if n <= 0 {
        Seq::empty()
    } else {
        spec_params(params, snames, n - 1) + params[n - 1].name + ": "@ + spec_mode_str(
            params[n - 1].mode,
        ) + spec_print_ty(params[n - 1].ty, snames) + "; "@
    }
}

/// The first `n` ids of a list, printed through a name table.
pub open spec fn spec_names_list(ids: Seq<u32>, names: Seq<Seq<char>>, n: int) -> Seq<char>
    decreases n,
{
    if n <= 0 {
        Seq::empty()
    } else {
        spec_names_list(ids, names, n - 1) + name_of(names, ids[n - 1] as int) + "; "@
    }
}

/// The line one lowered function prints as.
pub open spec fn spec_fn_line(
    d: FunctionDefV,
    snames: Seq<Seq<char>>,
    fnames: Seq<Seq<char>>,
) -> Seq<char> {
    "fn "@ + d.name + "("@ + spec_params(d.params, snames, d.params.len() as int) + ") -> "@
        + spec_print_ty(d.ret, snames) + " calls "@ + spec_names_list(
        d.callees,
        fnames,
        d.callees.len() as int,
    ) + "\n"@
}

/// The line the initializer prints as: its name, the root structs of the
/// initial state in tuple order, and its resolved calls.
pub open spec fn spec_init_line(
    d: InitDefV,
    snames: Seq<Seq<char>>,
    fnames: Seq<Seq<char>>,
) -> Seq<char> {
    "init "@ + d.name + " roots "@ + spec_names_list(d.roots, snames, d.roots.len() as int)
        + "calls "@ + spec_names_list(d.callees, fnames, d.callees.len() as int) + "\n"@
}

/// The first `n` struct lines.
pub open spec fn spec_struct_lines(ds: Seq<StructDefV>, snames: Seq<Seq<char>>, n: int) -> Seq<
    char,
>
    decreases n,
{
    if n <= 0 {
        Seq::empty()
    } else {
        spec_struct_lines(ds, snames, n - 1) + spec_struct_line(ds[n - 1], snames)
    }
}

/// The first `n` function lines.
pub open spec fn spec_fn_lines(
    ds: Seq<FunctionDefV>,
    snames: Seq<Seq<char>>,
    fnames: Seq<Seq<char>>,
    n: int,
) -> Seq<char>
    decreases n,
{
    if n <= 0 {
        Seq::empty()
    } else {
        spec_fn_lines(ds, snames, fnames, n - 1) + spec_fn_line(ds[n - 1], snames, fnames)
    }
}

/// The whole serialized artifact: structs, then functions, the initializer
/// last.
pub open spec fn spec_emit(u: TranslationUnitV) -> Seq<char> {
    spec_struct_lines(u.structs, u.struct_names, u.structs.len() as int) + spec_fn_lines(
        u.functions,
        u.struct_names,
        u.fn_names,
        u.functions.len() as int,
    ) + spec_init_line(u.init, u.struct_names, u.fn_names)
}

/// Append one interned name, or nothing when the id is out of range.
fn emit_name(out: &mut String, names: &Vec<String>, i: u32)
    ensures
        final(out)@ == old(out)@ + name_of(views_of(names@), i as int),
{
    if (i as usize) < names.len() {
        proof {
            assert(views_of(names@)[i as int] == names@[i as int]@);
        }
        out.append(names[i as usize].as_str());
    } else {
        proof {
            assert(out@ =~= out@ + Seq::<char>::empty());
        }
    }
}

/// Append the text of one lowered type.
fn emit_ty(out: &mut String, t: &TypeRef, snames: &Vec<String>)
    ensures
        final(out)@ == old(out)@ + spec_print_ty(*t, views_of(snames@)),
    decreases *t,
{
    match t {
        TypeRef::Int => {
            out.append("int");
        },
        TypeRef::Bool => {
            out.append("bool");
        },
        TypeRef::Struct(s) => {
            emit_name(out, snames, *s);
        },
        TypeRef::Ref(inner, m) => {
            if *m {
                out.append("&mut ");
            } else {
                out.append("&");
            }
            emit_ty(out, inner, snames);
            proof {
                assert(out@ =~= old(out)@ + spec_print_ty(*t, views_of(snames@)));
            }
        },
    }
}

/// Append the ids of a list through a name table.
fn emit_names_list(out: &mut String, ids: &Vec<u32>, names: &Vec<String>)
    ensures
        final(out)@ == old(out)@ + spec_names_list(ids@, views_of(names@), ids@.len() as int),
{
    let n = ids.len();
    for k in 0..n
        invariant
            n == ids@.len(),
            out@ == old(out)@ + spec_names_list(ids@, views_of(names@), k as int),
    {
        emit_name(out, names, ids[k]);
        out.append("; ");
        proof {
            assert(out@ =~= old(out)@ + spec_names_list(ids@, views_of(names@), k + 1 as int));
        }
    }
}

/// Append one struct layout line.
fn emit_struct(out: &mut String, d: &StructDef, snames: &Vec<String>)
    ensures
        final(out)@ == old(out)@ + spec_struct_line(d@, views_of(snames@)),
{
    out.append("struct ");
    out.append(d.name.as_str());
    out.append(" { ");
    let ghost mid = out@;
    let nfields = d.fields.len();
    for j in 0..nfields
        invariant
            nfields == d.fields@.len(),
            d@.fields == d.fields@.map_values(|f: crate::lower::FieldDef| f@),
            out@ == mid + spec_fields(d@.fields, views_of(snames@), j as int),
    {
        out.append(d.fields[j].name.as_str());
        out.append(": ");
        emit_ty(out, &d.fields[j].ty, snames);
        out.append("; ");
        proof {
            assert(d@.fields[j as int] == d.fields@[j as int]@);
            assert(out@ =~= mid + spec_fields(d@.fields, views_of(snames@), j + 1 as int));
        }
    }
    out.append("}\n");
    proof {
        assert(out@ =~= old(out)@ + spec_struct_line(d@, views_of(snames@)));
    }
}

/// Append one lowered function line.
fn emit_fn(out: &mut String, d: &FunctionDef, snames: &Vec<String>, fnames: &Vec<String>)
    ensures
        final(out)@ == old(out)@ + spec_fn_line(d@, views_of(snames@), views_of(fnames@)),
{
    out.append("fn ");
    out.append(d.name.as_str());
    out.append("(");
    let ghost mid = out@;
    let nparams = d.params.len();
    for j in 0..nparams
        invariant
            nparams == d.params@.len(),
            d@.params == d.params@.map_values(|q: crate::lower::ParamDef| q@),
            out@ == mid + spec_params(d@.params, views_of(snames@), j as int),
    {
        out.append(d.params[j].name.as_str());
        out.append(": ");
        match d.params[j].mode {
            ParamMode::ByValue => {},
            ParamMode::ByImmRef => {
                out.append("&");
            },
            ParamMode::ByMutRef => {
                out.append("&mut ");
            },
        }
        emit_ty(out, &d.params[j].ty, snames);
        out.append("; ");
        proof {
            assert(d@.params[j as int] == d.params@[j as int]@);
            assert(out@ =~= mid + spec_params(d@.params, views_of(snames@), j + 1 as int));
        }
    }
    out.append(") -> ");
    emit_ty(out, &d.ret, snames);
    out.append(" calls ");
    emit_names_list(out, &d.callees, fnames);
    out.append("\n");
    proof {
        assert(out@ =~= old(out)@ + spec_fn_line(d@, views_of(snames@), views_of(fnames@)));
    }
}

/// Serialize a whole translation unit.
pub fn emit(u: &TranslationUnit) -> (r: String)
    ensures
        r@ == spec_emit(u@),
{
    let mut out = String::new();
    let ns = u.structs.len();
    for i in 0..ns
        invariant
            ns == u.structs@.len(),
            u@.structs == u.structs@.map_values(|d: StructDef| d@),
            u@.struct_names == views_of(u.struct_names@),
            out@ == spec_struct_lines(u@.structs, u@.struct_names, i as int),
    {
        emit_struct(&mut out, &u.structs[i], &u.struct_names);
        proof {
            assert(u@.structs[i as int] == u.structs@[i as int]@);
            assert(out@ =~= spec_struct_lines(u@.structs, u@.struct_names, i + 1 as int));
        }
    }
    let ghost mid = out@;
    let nfuns = u.functions.len();
    for i in 0..nfuns
        invariant
            nfuns == u.functions@.len(),
            u@.functions == u.functions@.map_values(|d: FunctionDef| d@),
            u@.struct_names == views_of(u.struct_names@),
            u@.fn_names == views_of(u.fn_names@),
            out@ == mid + spec_fn_lines(u@.functions, u@.struct_names, u@.fn_names, i as int),
    {
        emit_fn(&mut out, &u.functions[i], &u.struct_names, &u.fn_names);
        proof {
            assert(u@.functions[i as int] == u.functions@[i as int]@);
            assert(out@ =~= mid + spec_fn_lines(
                u@.functions,
                u@.struct_names,
                u@.fn_names,
                i + 1 as int,
            ));
        }
    }
    out.append("init ");
    out.append(u.init.name.as_str());
    out.append(" roots ");
    emit_names_list(&mut out, &u.init.roots, &u.struct_names);
    out.append("calls ");
    emit_names_list(&mut out, &u.init.callees, &u.fn_names);
    out.append("\n");
    proof {
        assert(out@ =~= spec_emit(u@));
    }
    out
}

} // verus!

verus! {

/// Run the whole pass over one program graph and filter: translate, then
/// serialize. This is the single entry point a driver calls once per run;
/// on success the returned text is exactly the serialization of the
/// translation unit the inputs determine, so the pass is deterministic end
/// to end. Errors are those of the translator, on exactly the same inputs.
pub fn process(
    p: &crate::model::Program,
    filter: &crate::filter::FilterSet,
    policy: crate::model::FilterPolicy,
) -> (r: Result<String, crate::translate::TransError>)
    requires
        crate::model::wf(p@),
    ensures
        r matches Ok(text) ==> text@ == spec_emit(
            crate::translate::spec_unit(p@, filter@, policy),
        ),
        (r matches Ok(_)) <==> crate::translate::translation_ok(p@, filter@, policy),
        (r matches Err(crate::translate::TransError::NoInitializer { .. }))
            <==> crate::translate::num_candidates(p@) == 0,
        (r matches Err(crate::translate::TransError::MultipleInitializers { .. }))
            <==> crate::translate::num_candidates(p@) >= 2,
        (r matches Err(crate::translate::TransError::BadInitializerReturn))
            <==> (crate::translate::num_candidates(p@) == 1 && !crate::translate::init_ret_ok(
            p@.funcs[crate::translate::init_idx(p@)],
        )),
        (r matches Err(crate::translate::TransError::UnresolvedCall))
            <==> (crate::translate::num_candidates(p@) == 1 && crate::translate::init_ret_ok(
            p@.funcs[crate::translate::init_idx(p@)],
        ) && !crate::translate::resolution_ok(p@, filter@, policy, crate::translate::init_idx(p@))),
        (r matches Err(crate::translate::TransError::UnsupportedConstruct))
            <==> (crate::translate::num_candidates(p@) == 1 && crate::translate::init_ret_ok(
            p@.funcs[crate::translate::init_idx(p@)],
        ) && crate::translate::resolution_ok(p@, filter@, policy, crate::translate::init_idx(p@))
            && !crate::translate::supported_ok(
            p@,
            filter@,
            policy,
            crate::translate::init_idx(p@),
        )),
{
    match crate::translate::translate(p, filter, policy) {
        Ok(u) => Ok(emit(&u)),
        Err(e) => Err(e),
    }
}

} // verus!
