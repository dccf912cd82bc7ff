//! Laws of the translator, stated and proved over its specification.

use vstd::prelude::*;
use crate::emit::spec_emit;
use crate::lower::{erase_ty, mode_of, param_ty_of, spec_lower_param, ty_mentions, ty_supported};
use crate::model::{
    CallSite, FieldDeclV, FilterPolicy, FunctionDeclV, ParamDeclV, ProgramV, RetDeclV, SrcType,
    StructDeclV,
};
use crate::translate::{
    cand_idxs, edge, fn_calls, fn_mentions_struct, fn_sig_supported, init_idx, init_ret_ok,
    is_candidate, marked_fn_ids, marked_struct_ids, nn, num_candidates, reach_n, reached,
    resolution_ok, resolve_is, resolve_site, ret_tys, sites_resolve, spec_lower_fn, spec_marks, spec_roots,
    spec_sdef, spec_target, spec_unit, struct_mentions, struct_supported, supported_ok,
    translation_ok,
};

verus! {

/// Determinism: the whole pass is a pure function of the program graph,
/// the filter set, and the policy direction. Two runs over equal inputs
/// agree on success, on the translation unit, and on every byte of the
/// emitted artifact.
pub proof fn lemma_translation_deterministic(
    p1: ProgramV,
    p2: ProgramV,
    f1: Set<Seq<char>>,
    f2: Set<Seq<char>>,
    pol: FilterPolicy,
)
    requires
        p1 == p2,
        f1 == f2,
    ensures
        translation_ok(p1, f1, pol) == translation_ok(p2, f2, pol),
        spec_unit(p1, f1, pol) == spec_unit(p2, f2, pol),
        spec_emit(spec_unit(p1, f1, pol)) == spec_emit(spec_unit(p2, f2, pol)),
{
}

/// The marked struct ids are in range, marked, and strictly ascending, and
/// every marked struct id occurs.
proof fn lemma_marked_struct_ids_props(marks: Seq<bool>, nf: int, n: int)
    ensures
        forall|k: int|
            0 <= k < marked_struct_ids(marks, nf, n).len() ==> {
                &&& 0 <= #[trigger] marked_struct_ids(marks, nf, n)[k] < n
                &&& marks[nf + marked_struct_ids(marks, nf, n)[k]]
            },
        forall|k1: int, k2: int|
            0 <= k1 < k2 < marked_struct_ids(marks, nf, n).len() ==> marked_struct_ids(
                marks,
                nf,
                n,
            )[k1] < marked_struct_ids(marks, nf, n)[k2],
        forall|s: int|
            0 <= s < n && #[trigger] marks[nf + s] ==> exists|k: int|
                0 <= k < marked_struct_ids(marks, nf, n).len() && marked_struct_ids(
                    marks,
                    nf,
                    n,
                )[k] == s,
    decreases n,
{
    if n > 0 {
        lemma_marked_struct_ids_props(marks, nf, n - 1);
        let rest = marked_struct_ids(marks, nf, n - 1);
        let cur = marked_struct_ids(marks, nf, n);
        assert forall|s: int|
            0 <= s < n && #[trigger] marks[nf + s] implies exists|k: int|
            0 <= k < cur.len() && cur[k] == s by {
            if s == n - 1 {
                assert(cur[cur.len() - 1] == s);
            } else {
                let k = choose|k: int| 0 <= k < rest.len() && rest[k] == s;
                assert(cur[k] == s);
            }
        }
    }
}

/// The marked function ids are in range, marked, never the initializer,
/// strictly ascending; and every marked non-initializer id occurs.
proof fn lemma_marked_fn_ids_props(marks: Seq<bool>, init: int, n: int)
    ensures
        forall|k: int|
            0 <= k < marked_fn_ids(marks, init, n).len() ==> {
                &&& 0 <= #[trigger] marked_fn_ids(marks, init, n)[k] < n
                &&& marks[marked_fn_ids(marks, init, n)[k]]
                &&& marked_fn_ids(marks, init, n)[k] != init
            },
        forall|k1: int, k2: int|
            0 <= k1 < k2 < marked_fn_ids(marks, init, n).len() ==> marked_fn_ids(
                marks,
                init,
                n,
            )[k1] < marked_fn_ids(marks, init, n)[k2],
        forall|f: int|
            0 <= f < n && #[trigger] marks[f] && f != init ==> exists|k: int|
                0 <= k < marked_fn_ids(marks, init, n).len() && marked_fn_ids(
                    marks,
                    init,
                    n,
                )[k] == f,
    decreases n,
{
    if n > 0 {
        lemma_marked_fn_ids_props(marks, init, n - 1);
        let rest = marked_fn_ids(marks, init, n - 1);
        let cur = marked_fn_ids(marks, init, n);
        assert forall|f: int|
            0 <= f < n && #[trigger] marks[f] && f != init implies exists|k: int|
            0 <= k < cur.len() && cur[k] == f by {
            if f == n - 1 {
                assert(cur[cur.len() - 1] == f);
            } else {
                let k = choose|k: int| 0 <= k < rest.len() && rest[k] == f;
                assert(cur[k] == f);
            }
        }
    }
}

/// Struct dedup: the unit lists each reachable struct instantiation
/// exactly once — the ids (and, the graph's names being distinct, the
/// names) of its struct layouts are pairwise distinct, and a struct id
/// appears exactly when the struct is transitively required by the
/// selection. A struct reached from two different selected functions is
/// therefore emitted once, not twice.
pub proof fn lemma_struct_dedup(pv: ProgramV, fs: Set<Seq<char>>, pol: FilterPolicy)
    requires
        crate::model::wf(pv),
        translation_ok(pv, fs, pol),
    ensures
        forall|i: int, j: int|
            0 <= i < j < spec_unit(pv, fs, pol).structs.len() ==> {
                &&& (#[trigger] spec_unit(pv, fs, pol).structs[i]).id != (#[trigger] spec_unit(
                    pv,
                    fs,
                    pol,
                ).structs[j]).id
                &&& spec_unit(pv, fs, pol).structs[i].name != spec_unit(pv, fs, pol).structs[j].name
            },
        forall|s: int|
            0 <= s < pv.structs.len() ==> (#[trigger] reached(
                pv,
                fs,
                pol,
                init_idx(pv),
                pv.funcs.len() + s,
            ) <==> exists|i: int|
                0 <= i < spec_unit(pv, fs, pol).structs.len() && (#[trigger] spec_unit(
                    pv,
                    fs,
                    pol,
                ).structs[i]).id as int == s),
{
    let nf = pv.funcs.len() as int;
    let ns = pv.structs.len() as int;
    let marks = spec_marks(pv, fs, pol);
    let ids = marked_struct_ids(marks, nf, ns);
    lemma_marked_struct_ids_props(marks, nf, ns);
    let u = spec_unit(pv, fs, pol);
    assert forall|i: int, j: int| 0 <= i < j < u.structs.len() implies (u.structs[i].id
        != u.structs[j].id && u.structs[i].name != u.structs[j].name) by {
        assert(ids[i] < ids[j]);
        assert(u.structs[i].id == ids[i] as u32);
        assert(u.structs[j].id == ids[j] as u32);
        assert(u.structs[i].name == pv.structs[ids[i]].name);
        assert(u.structs[j].name == pv.structs[ids[j]].name);
    }
    assert forall|s: int| 0 <= s < ns implies (#[trigger] reached(pv, fs, pol, init_idx(pv), nf + s)
        <==> exists|i: int|
        0 <= i < u.structs.len() && (#[trigger] u.structs[i]).id as int == s) by {
        if reached(pv, fs, pol, init_idx(pv), nf + s) {
            assert(marks[nf + s]);
            let k = choose|k: int| 0 <= k < ids.len() && ids[k] == s;
            assert(u.structs[k].id as int == s);
        }
        if exists|i: int| 0 <= i < u.structs.len() && (#[trigger] u.structs[i]).id as int == s {
            let i = choose|i: int|
                0 <= i < u.structs.len() && (#[trigger] u.structs[i]).id as int == s;
            assert(u.structs[i].id == ids[i] as u32);
            assert(marks[nf + s]);
        }
    }
}

/// Filter exclusion, first direction: under the `Exclude` policy, a
/// function named in the filter list that is not transitively required by
/// any selection root is absent from the unit (it is not even the
/// initializer).
pub proof fn lemma_filter_excluded_absent(
    pv: ProgramV,
    fs: Set<Seq<char>>,
    pol: FilterPolicy,
    f: int,
)
    requires
        crate::model::wf(pv),
        translation_ok(pv, fs, pol),
        pol == FilterPolicy::Exclude,
        0 <= f < pv.funcs.len(),
        fs.contains(pv.funcs[f].name),
        !reached(pv, fs, pol, init_idx(pv), f),
    ensures
        f != init_idx(pv),
        forall|i: int|
            0 <= i < spec_unit(pv, fs, pol).functions.len() ==> (#[trigger] spec_unit(
                pv,
                fs,
                pol,
            ).functions[i]).id as int != f,
{
    let nf = pv.funcs.len() as int;
    let marks = spec_marks(pv, fs, pol);
    let ids = marked_fn_ids(marks, init_idx(pv), nf);
    lemma_marked_fn_ids_props(marks, init_idx(pv), nf);
    assert(reach_n(pv, fs, pol, init_idx(pv), init_idx(pv), 0) == (0 <= init_idx(pv) < nf));
    if f == init_idx(pv) {
        assert(reach_n(pv, fs, pol, init_idx(pv), f, 0));
        assert(reached(pv, fs, pol, init_idx(pv), f));
    }
    let u = spec_unit(pv, fs, pol);
    assert forall|i: int| 0 <= i < u.functions.len() implies (#[trigger] u.functions[i]).id as int
        != f by {
        assert(u.functions[i].id == ids[i] as u32);
        assert(0 <= ids[i] < nf <= u32::MAX);
        assert(u.functions[i].id as int == ids[i]);
        assert(marks[ids[i]]);
        if ids[i] == f {
            assert(reached(pv, fs, pol, init_idx(pv), f));
        }
    }
}

/// Filter exclusion, second direction: reachability overrides the list.
/// A function transitively required by the initializer or any other
/// selection root is translated even when the filter names it, under
/// either policy direction.
pub proof fn lemma_filter_reachable_present(
    pv: ProgramV,
    fs: Set<Seq<char>>,
    pol: FilterPolicy,
    f: int,
)
    requires
        crate::model::wf(pv),
        translation_ok(pv, fs, pol),
        0 <= f < pv.funcs.len(),
        reached(pv, fs, pol, init_idx(pv), f),
        f != init_idx(pv),
    ensures
        exists|i: int|
            0 <= i < spec_unit(pv, fs, pol).functions.len() && (#[trigger] spec_unit(
                pv,
                fs,
                pol,
            ).functions[i]).id as int == f,
{
    let nf = pv.funcs.len() as int;
    let marks = spec_marks(pv, fs, pol);
    let ids = marked_fn_ids(marks, init_idx(pv), nf);
    lemma_marked_fn_ids_props(marks, init_idx(pv), nf);
    assert(marks[f]);
    let k = choose|k: int| 0 <= k < ids.len() && ids[k] == f;
    let u = spec_unit(pv, fs, pol);
    assert(u.functions[k].id == ids[k] as u32);
    assert(0 <= ids[k] < nf <= u32::MAX);
    assert(u.functions[k].id as int == f);
}

} // verus!

verus! {

/// Two source types that agree except in the lifetime annotations on
/// their references.
pub open spec fn eqml_ty(a: SrcType, b: SrcType) -> bool
    decreases a,
{
    match (a, b) {
        (SrcType::Int, SrcType::Int) => true,
        (SrcType::Bool, SrcType::Bool) => true,
        (SrcType::Struct(s1), SrcType::Struct(s2)) => s1 == s2,
        (SrcType::Ref(i1, m1, _l1), SrcType::Ref(i2, m2, _l2)) => m1 == m2 && eqml_ty(*i1, *i2),
        (SrcType::Opaque, SrcType::Opaque) => true,
        _ => false,
    }
}

pub open spec fn eqml_ret(a: RetDeclV, b: RetDeclV) -> bool {
    match (a, b) {
        (RetDeclV::Single(t1), RetDeclV::Single(t2)) => eqml_ty(t1, t2),
        (RetDeclV::Tuple(ts1), RetDeclV::Tuple(ts2)) => ts1.len() == ts2.len() && forall|j: int|
            0 <= j < ts1.len() ==> #[trigger] eqml_ty(ts1[j], ts2[j]),
        _ => false,
    }
}

pub open spec fn eqml_param(a: ParamDeclV, b: ParamDeclV) -> bool {
    a.name == b.name && eqml_ty(a.ty, b.ty)
}

pub open spec fn eqml_fn(a: FunctionDeclV, b: FunctionDeclV) -> bool {
    &&& a.name == b.name
    &&& a.params.len() == b.params.len()
    &&& forall|j: int| 0 <= j < a.params.len() ==> #[trigger] eqml_param(a.params[j], b.params[j])
    &&& eqml_ret(a.ret, b.ret)
    &&& a.body == b.body
}

pub open spec fn eqml_field(a: FieldDeclV, b: FieldDeclV) -> bool {
    a.name == b.name && eqml_ty(a.ty, b.ty)
}

pub open spec fn eqml_struct(a: StructDeclV, b: StructDeclV) -> bool {
    &&& a.name == b.name
    &&& a.fields.len() == b.fields.len()
    &&& forall|j: int| 0 <= j < a.fields.len() ==> #[trigger] eqml_field(a.fields[j], b.fields[j])
}

/// Two programs identical but for lifetime annotations.
pub open spec fn eqml_program(p1: ProgramV, p2: ProgramV) -> bool {
    &&& p1.funcs.len() == p2.funcs.len()
    &&& p1.structs.len() == p2.structs.len()
    &&& p1.methods == p2.methods
    &&& forall|f: int| 0 <= f < p1.funcs.len() ==> #[trigger] eqml_fn(p1.funcs[f], p2.funcs[f])
    &&& forall|s: int|
        0 <= s < p1.structs.len() ==> #[trigger] eqml_struct(p1.structs[s], p2.structs[s])
}

/// Erasure, supportedness, passing mode, and struct mentions all ignore
/// lifetimes.
proof fn lemma_eqml_ty_facts(a: SrcType, b: SrcType)
    requires
        eqml_ty(a, b),
    ensures
        erase_ty(a) == erase_ty(b),
        ty_supported(a) == ty_supported(b),
        mode_of(a) == mode_of(b),
        param_ty_of(a) == param_ty_of(b),
        forall|s: int| ty_mentions(a, s) == ty_mentions(b, s),
    decreases a,
{
    match (a, b) {
        (SrcType::Ref(i1, _m1, _l1), SrcType::Ref(i2, _m2, _l2)) => {
            lemma_eqml_ty_facts(*i1, *i2);
            assert forall|s: int| ty_mentions(a, s) == ty_mentions(b, s) by {
                assert(ty_mentions(a, s) == ty_mentions(*i1, s));
                assert(ty_mentions(b, s) == ty_mentions(*i2, s));
            }
        },
        _ => {},
    }
}

proof fn lemma_eqml_ret_tys(r1: RetDeclV, r2: RetDeclV)
    requires
        eqml_ret(r1, r2),
    ensures
        ret_tys(r1).len() == ret_tys(r2).len(),
        forall|j: int| 0 <= j < ret_tys(r1).len() ==> #[trigger] eqml_ty(ret_tys(r1)[j], ret_tys(r2)[j]),
{
    match (r1, r2) {
        (RetDeclV::Single(t1), RetDeclV::Single(t2)) => {
            assert(ret_tys(r1)[0] == t1);
            assert(ret_tys(r2)[0] == t2);
        },
        _ => {},
    }
}

proof fn lemma_eqml_cand(p1: ProgramV, p2: ProgramV, n: int)
    requires
        eqml_program(p1, p2),
        n <= p1.funcs.len(),
    ensures
        cand_idxs(p1, n) == cand_idxs(p2, n),
    decreases n,
{
    if n > 0 {
        lemma_eqml_cand(p1, p2, n - 1);
        assert(eqml_fn(p1.funcs[n - 1], p2.funcs[n - 1]));
    }
}

proof fn lemma_eqml_fn_mentions(f1: FunctionDeclV, f2: FunctionDeclV, s: int)
    requires
        eqml_fn(f1, f2),
    ensures
        fn_mentions_struct(f1, s) == fn_mentions_struct(f2, s),
{
    lemma_eqml_ret_tys(f1.ret, f2.ret);
    if fn_mentions_struct(f1, s) {
        if exists|j: int| 0 <= j < f1.params.len() && ty_mentions((#[trigger] f1.params[j]).ty, s) {
            let j = choose|j: int|
                0 <= j < f1.params.len() && ty_mentions((#[trigger] f1.params[j]).ty, s);
            assert(eqml_param(f1.params[j], f2.params[j]));
            lemma_eqml_ty_facts(f1.params[j].ty, f2.params[j].ty);
            assert(ty_mentions(f2.params[j].ty, s));
        } else {
            let j = choose|j: int|
                0 <= j < ret_tys(f1.ret).len() && ty_mentions(#[trigger] ret_tys(f1.ret)[j], s);
            lemma_eqml_ty_facts(ret_tys(f1.ret)[j], ret_tys(f2.ret)[j]);
            assert(ty_mentions(ret_tys(f2.ret)[j], s));
        }
        assert(fn_mentions_struct(f2, s));
    }
    if fn_mentions_struct(f2, s) {
        if exists|j: int| 0 <= j < f2.params.len() && ty_mentions((#[trigger] f2.params[j]).ty, s) {
            let j = choose|j: int|
                0 <= j < f2.params.len() && ty_mentions((#[trigger] f2.params[j]).ty, s);
            assert(eqml_param(f1.params[j], f2.params[j]));
            lemma_eqml_ty_facts(f1.params[j].ty, f2.params[j].ty);
            assert(ty_mentions(f1.params[j].ty, s));
        } else {
            let j = choose|j: int|
                0 <= j < ret_tys(f2.ret).len() && ty_mentions(#[trigger] ret_tys(f2.ret)[j], s);
            lemma_eqml_ty_facts(ret_tys(f1.ret)[j], ret_tys(f2.ret)[j]);
            assert(ty_mentions(ret_tys(f1.ret)[j], s));
        }
        assert(fn_mentions_struct(f1, s));
    }
}

proof fn lemma_eqml_struct_mentions(s1: StructDeclV, s2: StructDeclV, s: int)
    requires
        eqml_struct(s1, s2),
    ensures
        struct_mentions(s1, s) == struct_mentions(s2, s),
{
    if struct_mentions(s1, s) {
        let j = choose|j: int|
            0 <= j < s1.fields.len() && ty_mentions((#[trigger] s1.fields[j]).ty, s);
        assert(eqml_field(s1.fields[j], s2.fields[j]));
        lemma_eqml_ty_facts(s1.fields[j].ty, s2.fields[j].ty);
        assert(ty_mentions(s2.fields[j].ty, s));
    }
    if struct_mentions(s2, s) {
        let j = choose|j: int|
            0 <= j < s2.fields.len() && ty_mentions((#[trigger] s2.fields[j]).ty, s);
        assert(eqml_field(s1.fields[j], s2.fields[j]));
        lemma_eqml_ty_facts(s1.fields[j].ty, s2.fields[j].ty);
        assert(ty_mentions(s1.fields[j].ty, s));
    }
}

proof fn lemma_eqml_edge(p1: ProgramV, p2: ProgramV, a: int, b: int)
    requires
        eqml_program(p1, p2),
    ensures
        edge(p1, a, b) == edge(p2, a, b),
{
    let nf = p1.funcs.len() as int;
    if 0 <= a < nn(p1) && 0 <= b < nn(p1) {
        if a < nf {
            assert(eqml_fn(p1.funcs[a], p2.funcs[a]));
            if b < nf {
                assert(fn_calls(p1, a, b) == fn_calls(p2, a, b)) by {
                    if fn_calls(p1, a, b) {
                        let k = choose|k: int|
                            0 <= k < p1.funcs[a].body.len() && resolve_is(
                                p1,
                                #[trigger] p1.funcs[a].body[k],
                                b,
                            );
                        assert(resolve_is(p2, p2.funcs[a].body[k], b));
                    }
                    if fn_calls(p2, a, b) {
                        let k = choose|k: int|
                            0 <= k < p2.funcs[a].body.len() && resolve_is(
                                p2,
                                #[trigger] p2.funcs[a].body[k],
                                b,
                            );
                        assert(resolve_is(p1, p1.funcs[a].body[k], b));
                    }
                }
            } else {
                lemma_eqml_fn_mentions(p1.funcs[a], p2.funcs[a], b - nf);
            }
        } else {
            assert(eqml_struct(p1.structs[a - nf], p2.structs[a - nf]));
            lemma_eqml_struct_mentions(p1.structs[a - nf], p2.structs[a - nf], b - nf);
        }
    }
}

proof fn lemma_eqml_reach_n(
    p1: ProgramV,
    p2: ProgramV,
    fs: Set<Seq<char>>,
    pol: FilterPolicy,
    init: int,
    i: int,
    n: nat,
)
    requires
        eqml_program(p1, p2),
    ensures
        reach_n(p1, fs, pol, init, i, n) == reach_n(p2, fs, pol, init, i, n),
    decreases n,
{
    if n == 0 {
        if 0 <= i < p1.funcs.len() {
            assert(eqml_fn(p1.funcs[i], p2.funcs[i]));
        }
    } else {
        lemma_eqml_reach_n(p1, p2, fs, pol, init, i, (n - 1) as nat);
        if exists|a: int| reach_n(p1, fs, pol, init, a, (n - 1) as nat) && edge(p1, a, i) {
            let a = choose|a: int| reach_n(p1, fs, pol, init, a, (n - 1) as nat) && edge(p1, a, i);
            lemma_eqml_reach_n(p1, p2, fs, pol, init, a, (n - 1) as nat);
            lemma_eqml_edge(p1, p2, a, i);
            assert(reach_n(p2, fs, pol, init, a, (n - 1) as nat) && edge(p2, a, i));
        }
        if exists|a: int| reach_n(p2, fs, pol, init, a, (n - 1) as nat) && edge(p2, a, i) {
            let a = choose|a: int| reach_n(p2, fs, pol, init, a, (n - 1) as nat) && edge(p2, a, i);
            lemma_eqml_reach_n(p1, p2, fs, pol, init, a, (n - 1) as nat);
            lemma_eqml_edge(p1, p2, a, i);
            assert(reach_n(p1, fs, pol, init, a, (n - 1) as nat) && edge(p1, a, i));
        }
    }
}

proof fn lemma_eqml_reached(
    p1: ProgramV,
    p2: ProgramV,
    fs: Set<Seq<char>>,
    pol: FilterPolicy,
    init: int,
)
    requires
        eqml_program(p1, p2),
    ensures
        forall|i: int| #[trigger] reached(p1, fs, pol, init, i) == reached(p2, fs, pol, init, i),
{
    assert forall|i: int| #[trigger] reached(p1, fs, pol, init, i) == reached(
        p2,
        fs,
        pol,
        init,
        i,
    ) by {
        if reached(p1, fs, pol, init, i) {
            let n = choose|n: nat| reach_n(p1, fs, pol, init, i, n);
            lemma_eqml_reach_n(p1, p2, fs, pol, init, i, n);
        }
        if reached(p2, fs, pol, init, i) {
            let n = choose|n: nat| reach_n(p2, fs, pol, init, i, n);
            lemma_eqml_reach_n(p1, p2, fs, pol, init, i, n);
        }
    }
}

/// Lifetime erasure invariance: two programs identical except in the
/// lifetime annotations on their reference types translate identically —
/// same success or failure condition, the same translation unit, and a
/// byte-identical emitted artifact.
pub proof fn lemma_lifetime_erasure_invariance(
    p1: ProgramV,
    p2: ProgramV,
    fs: Set<Seq<char>>,
    pol: FilterPolicy,
)
    requires
        eqml_program(p1, p2),
    ensures
        translation_ok(p1, fs, pol) == translation_ok(p2, fs, pol),
        translation_ok(p1, fs, pol) ==> spec_unit(p1, fs, pol) == spec_unit(p2, fs, pol),
        translation_ok(p1, fs, pol) ==> spec_emit(spec_unit(p1, fs, pol)) == spec_emit(
            spec_unit(p2, fs, pol),
        ),
{
    let nf = p1.funcs.len() as int;
    let ns = p1.structs.len() as int;
    lemma_eqml_cand(p1, p2, nf);
    let init = init_idx(p1);
    assert(init_idx(p2) == init);
    lemma_eqml_reached(p1, p2, fs, pol, init);
    // the closure marks agree
    assert(spec_marks(p1, fs, pol) =~= spec_marks(p2, fs, pol));
    let marks = spec_marks(p1, fs, pol);
    // per-function facts
    assert forall|f: int| 0 <= f < nf implies {
        &&& sites_resolve(p1, p1.funcs[f]) == sites_resolve(p2, p2.funcs[f])
        &&& #[trigger] spec_lower_fn(p1, f) == spec_lower_fn(p2, f)
        &&& fn_sig_supported(p1.funcs[f], f == init) == fn_sig_supported(p2.funcs[f], f == init)
    } by {
        assert(eqml_fn(p1.funcs[f], p2.funcs[f]));
        lemma_eqml_ret_tys(p1.funcs[f].ret, p2.funcs[f].ret);
        assert forall|j: int| 0 <= j < p1.funcs[f].params.len() implies {
            &&& #[trigger] spec_lower_param(p1.funcs[f].params[j]) == spec_lower_param(
                p2.funcs[f].params[j],
            )
            &&& ty_supported(p1.funcs[f].params[j].ty) == ty_supported(p2.funcs[f].params[j].ty)
        } by {
            assert(eqml_param(p1.funcs[f].params[j], p2.funcs[f].params[j]));
            lemma_eqml_ty_facts(p1.funcs[f].params[j].ty, p2.funcs[f].params[j].ty);
        }
        assert(p1.funcs[f].params.map_values(|p| spec_lower_param(p)) =~= p2.funcs[f].params.map_values(
            |p| spec_lower_param(p),
        ));
        match (p1.funcs[f].ret, p2.funcs[f].ret) {
            (RetDeclV::Single(t1), RetDeclV::Single(t2)) => {
                lemma_eqml_ty_facts(t1, t2);
            },
            _ => {},
        }
        assert(p1.funcs[f].body.map_values(|site: CallSite| spec_target(p1, site))
            =~= p2.funcs[f].body.map_values(|site: CallSite| spec_target(p2, site)));
        assert(spec_lower_fn(p1, f) =~= spec_lower_fn(p2, f));
        assert(sites_resolve(p1, p1.funcs[f]) == sites_resolve(p2, p2.funcs[f])) by {
            if sites_resolve(p1, p1.funcs[f]) {
                assert forall|k: int| 0 <= k < p2.funcs[f].body.len() implies (resolve_site(
                    p2,
                    #[trigger] p2.funcs[f].body[k],
                ) matches Some(_)) by {
                    assert(p2.funcs[f].body[k] == p1.funcs[f].body[k]);
                    assert(resolve_site(p1, p1.funcs[f].body[k]) matches Some(_));
                }
            }
            if sites_resolve(p2, p2.funcs[f]) {
                assert forall|k: int| 0 <= k < p1.funcs[f].body.len() implies (resolve_site(
                    p1,
                    #[trigger] p1.funcs[f].body[k],
                ) matches Some(_)) by {
                    assert(p2.funcs[f].body[k] == p1.funcs[f].body[k]);
                    assert(resolve_site(p2, p2.funcs[f].body[k]) matches Some(_));
                }
            }
        }
        assert forall|j: int|
            #![trigger p1.funcs[f].params[j]]
            #![trigger p2.funcs[f].params[j]]
            0 <= j < p1.funcs[f].params.len() implies ty_supported(p1.funcs[f].params[j].ty)
            == ty_supported(p2.funcs[f].params[j].ty) by {
            assert(eqml_param(p1.funcs[f].params[j], p2.funcs[f].params[j]));
            lemma_eqml_ty_facts(p1.funcs[f].params[j].ty, p2.funcs[f].params[j].ty);
        }
        assert(fn_sig_supported(p1.funcs[f], f == init) == fn_sig_supported(
            p2.funcs[f],
            f == init,
        )) by {
            assert(p1.funcs[f].params.len() == p2.funcs[f].params.len());
        }
    }
    // per-struct facts
    assert forall|s: int| 0 <= s < ns implies {
        &&& #[trigger] spec_sdef(p1, s) == spec_sdef(p2, s)
        &&& struct_supported(p1.structs[s]) == struct_supported(p2.structs[s])
    } by {
        assert(eqml_struct(p1.structs[s], p2.structs[s]));
        assert forall|j: int| 0 <= j < p1.structs[s].fields.len() implies {
            &&& erase_ty((#[trigger] p1.structs[s].fields[j]).ty) == erase_ty(
                p2.structs[s].fields[j].ty,
            )
            &&& p1.structs[s].fields[j].name == p2.structs[s].fields[j].name
            &&& ty_supported(p1.structs[s].fields[j].ty) == ty_supported(p2.structs[s].fields[j].ty)
        } by {
            assert(eqml_field(p1.structs[s].fields[j], p2.structs[s].fields[j]));
            lemma_eqml_ty_facts(p1.structs[s].fields[j].ty, p2.structs[s].fields[j].ty);
        }
        assert(spec_sdef(p1, s).fields =~= spec_sdef(p2, s).fields);
        assert(spec_sdef(p1, s) =~= spec_sdef(p2, s));
        assert forall|j: int|
            #![trigger p1.structs[s].fields[j]]
            #![trigger p2.structs[s].fields[j]]
            0 <= j < p1.structs[s].fields.len() implies ty_supported(p1.structs[s].fields[j].ty)
            == ty_supported(p2.structs[s].fields[j].ty) by {
            assert(eqml_field(p1.structs[s].fields[j], p2.structs[s].fields[j]));
            lemma_eqml_ty_facts(p1.structs[s].fields[j].ty, p2.structs[s].fields[j].ty);
        }
        assert(struct_supported(p1.structs[s]) == struct_supported(p2.structs[s])) by {
            assert(p1.structs[s].fields.len() == p2.structs[s].fields.len());
        }
    }
    // translation_ok agrees
    assert(resolution_ok(p1, fs, pol, init) == resolution_ok(p2, fs, pol, init)) by {
        if resolution_ok(p1, fs, pol, init) {
            assert forall|f: int|
                0 <= f < p2.funcs.len() && reached(p2, fs, pol, init, f) implies sites_resolve(
                p2,
                #[trigger] p2.funcs[f],
            ) by {
                assert(reached(p1, fs, pol, init, f));
                assert(sites_resolve(p1, p1.funcs[f]));
                assert(spec_lower_fn(p1, f) == spec_lower_fn(p2, f));
            }
        }
        if resolution_ok(p2, fs, pol, init) {
            assert forall|f: int|
                0 <= f < p1.funcs.len() && reached(p1, fs, pol, init, f) implies sites_resolve(
                p1,
                #[trigger] p1.funcs[f],
            ) by {
                assert(reached(p1, fs, pol, init, f));
                assert(sites_resolve(p2, p2.funcs[f]));
                assert(spec_lower_fn(p1, f) == spec_lower_fn(p2, f));
            }
        }
    }
    assert(supported_ok(p1, fs, pol, init) == supported_ok(p2, fs, pol, init)) by {
        if supported_ok(p1, fs, pol, init) {
            assert forall|f: int|
                0 <= f < p2.funcs.len() && reached(p2, fs, pol, init, f) implies fn_sig_supported(
                #[trigger] p2.funcs[f],
                f == init,
            ) by {
                assert(reached(p1, fs, pol, init, f));
                assert(fn_sig_supported(p1.funcs[f], f == init));
                assert(spec_lower_fn(p1, f) == spec_lower_fn(p2, f));
            }
            assert forall|s: int|
                0 <= s < p2.structs.len() && reached(p2, fs, pol, init, p2.funcs.len() + s) implies
                struct_supported(#[trigger] p2.structs[s]) by {
                assert(reached(p1, fs, pol, init, p1.funcs.len() + s));
                assert(struct_supported(p1.structs[s]));
                assert(spec_sdef(p1, s) == spec_sdef(p2, s));
            }
        }
        if supported_ok(p2, fs, pol, init) {
            assert forall|f: int|
                0 <= f < p1.funcs.len() && reached(p1, fs, pol, init, f) implies fn_sig_supported(
                #[trigger] p1.funcs[f],
                f == init,
            ) by {
                assert(reached(p1, fs, pol, init, f));
                assert(fn_sig_supported(p2.funcs[f], f == init));
                assert(spec_lower_fn(p1, f) == spec_lower_fn(p2, f));
            }
            assert forall|s: int|
                0 <= s < p1.structs.len() && reached(p1, fs, pol, init, p1.funcs.len() + s) implies
                struct_supported(#[trigger] p1.structs[s]) by {
                assert(reached(p1, fs, pol, init, p1.funcs.len() + s));
                assert(struct_supported(p2.structs[s]));
                assert(spec_sdef(p1, s) == spec_sdef(p2, s));
            }
        }
    }
    if num_candidates(p1) == 1 {
        crate::translate::lemma_cand_idxs_props(p1, nf);
        assert(0 <= init < nf);
        assert(eqml_fn(p1.funcs[init], p2.funcs[init]));
        lemma_eqml_ret_tys(p1.funcs[init].ret, p2.funcs[init].ret);
        assert(init_ret_ok(p1.funcs[init]) == init_ret_ok(p2.funcs[init])) by {
            match (p1.funcs[init].ret, p2.funcs[init].ret) {
                (RetDeclV::Tuple(ts1), RetDeclV::Tuple(ts2)) => {
                    assert forall|j: int|
                        #![trigger ts1[j]]
                        #![trigger ts2[j]]
                        0 <= j < ts1.len() implies (ts1[j] matches SrcType::Struct(_)) == (
                    ts2[j] matches SrcType::Struct(_)) by {
                        assert(eqml_ty(ts1[j], ts2[j]));
                    }
                },
                _ => {},
            }
        }
    }
    assert(translation_ok(p1, fs, pol) == translation_ok(p2, fs, pol));
    if translation_ok(p1, fs, pol) {
    // units agree
    crate::translate::lemma_cand_idxs_props(p1, nf);
    assert(0 <= init < nf);
    assert(eqml_fn(p1.funcs[init], p2.funcs[init]));
    assert(spec_roots(p1.funcs[init]) =~= spec_roots(p2.funcs[init])) by {
        match (p1.funcs[init].ret, p2.funcs[init].ret) {
            (RetDeclV::Tuple(ts1), RetDeclV::Tuple(ts2)) => {
                lemma_eqml_ret_tys(p1.funcs[init].ret, p2.funcs[init].ret);
                assert forall|j: int| 0 <= j < ts1.len() implies eqml_ty(
                    #[trigger] ts1[j],
                    ts2[j],
                ) by {
                    assert(ret_tys(p1.funcs[init].ret)[j] == ts1[j]);
                    assert(ret_tys(p2.funcs[init].ret)[j] == ts2[j]);
                }
            },
            _ => {},
        }
    }
    assert forall|s: int| 0 <= s < ns implies (#[trigger] p1.structs[s]).name
        == p2.structs[s].name by {
        assert(eqml_struct(p1.structs[s], p2.structs[s]));
    }
    assert forall|f: int| 0 <= f < nf implies (#[trigger] p1.funcs[f]).name
        == p2.funcs[f].name by {
        assert(eqml_fn(p1.funcs[f], p2.funcs[f]));
    }
    assert(p1.structs.map_values(|s: StructDeclV| s.name) =~= p2.structs.map_values(
        |s: StructDeclV| s.name,
    ));
    assert(p1.funcs.map_values(|f: FunctionDeclV| f.name) =~= p2.funcs.map_values(
        |f: FunctionDeclV| f.name,
    ));
    lemma_marked_struct_ids_props(marks, nf, ns);
    lemma_marked_fn_ids_props(marks, init, nf);
    assert(marked_struct_ids(marks, nf, ns).map_values(|s: int| spec_sdef(p1, s))
        =~= marked_struct_ids(marks, nf, ns).map_values(|s: int| spec_sdef(p2, s)));
    assert(marked_fn_ids(marks, init, nf).map_values(|f: int| spec_lower_fn(p1, f))
        =~= marked_fn_ids(marks, init, nf).map_values(|f: int| spec_lower_fn(p2, f)));
    assert(spec_unit(p1, fs, pol) =~= spec_unit(p2, fs, pol));
    }
}

} // verus!
