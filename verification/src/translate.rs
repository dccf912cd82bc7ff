//! The translator core: selection, reachability closure, initializer
//! discovery, and assembly of the translation unit.
//!
//! Selection policy: the roots are the designated initializer together with
//! every function whose name passes the filter (under `Exclude`, a name
//! passes when it is not listed; under `Include`, when it is). Everything
//! transitively required by a root — callees, struct types in signatures,
//! struct types in fields — is selected too, so a listed name that stays
//! reachable from the initializer is still translated.
//!
//! All of this is a pure function of the program graph and the filter:
//! re-running it over the same inputs yields the same translation unit.

use vstd::prelude::*;
use crate::filter::FilterSet;
use crate::lower::{
    erase, erase_ty, lower_param, spec_lower_param, ty_mentions, ty_supported, ty_supported_exec,
    FieldDef, FieldDefV, FunctionDef, FunctionDefV, InitDef, InitDefV, ParamDef, StructDef,
    StructDefV,
};
use crate::model::{
    fn_wf, ret_wf, ty_wf, wf, CallSite, FilterPolicy, FunctionDeclV, Program, ProgramV, RetDecl,
    RetDeclV, SrcType, StructDeclV,
};

verus! {

/// A fatal translation error. Partial output is never produced: any of
/// these aborts the whole run.
#[derive(Debug)]
pub enum TransError {
    /// No zero-parameter function with the designated entry name exists.
    NoInitializer { candidates: Vec<String> },
    /// More than one initializer candidate exists.
    MultipleInitializers { candidates: Vec<String> },
    /// The initializer's return type is not a tuple of struct values.
    BadInitializerReturn,
    /// A method call reachable from the selection roots has no static
    /// resolution.
    UnresolvedCall,
    /// A construct with no lowered form is reachable from the selection
    /// roots.
    UnsupportedConstruct,
}

/// The fixed naming convention for the designated initializer.
pub open spec fn init_name() -> Seq<char> {
    "crust_init"@
}

/// Whether a declared function is an initializer candidate: zero parameters
/// and the designated name.
pub open spec fn is_candidate(fv: FunctionDeclV) -> bool {
    fv.params.len() == 0 && fv.name == init_name()
}

/// The candidate indices among the first `n` functions, ascending.
pub open spec fn cand_idxs(pv: ProgramV, n: int) -> Seq<int>
    decreases n,
{
    if n <= 0 {
        Seq::empty()
    } else {
        let rest = cand_idxs(pv, n - 1);
        if is_candidate(pv.funcs[n - 1]) {
            rest.push(n - 1)
        } else {
            rest
        }
    }
}

pub open spec fn num_candidates(pv: ProgramV) -> int {
    cand_idxs(pv, pv.funcs.len() as int).len() as int
}

pub open spec fn cand_names(pv: ProgramV) -> Seq<Seq<char>> {
    cand_idxs(pv, pv.funcs.len() as int).map_values(|i: int| pv.funcs[i].name)
}

/// The index of the unique initializer (meaningful when exactly one
/// candidate exists).
pub open spec fn init_idx(pv: ProgramV) -> int {
    cand_idxs(pv, pv.funcs.len() as int)[0]
}

/// The initializer's return type must be a fixed-arity tuple of struct
/// values.
pub open spec fn init_ret_ok(fv: FunctionDeclV) -> bool {
    match fv.ret {
        RetDeclV::Tuple(ts) => forall|j: int|
            0 <= j < ts.len() ==> (#[trigger] ts[j]) matches SrcType::Struct(_),
        RetDeclV::Single(_) => false,
    }
}

/// The root struct ids of the initial harness state, in tuple order.
pub open spec fn spec_roots(fv: FunctionDeclV) -> Seq<u32> {
    match fv.ret {
        RetDeclV::Tuple(ts) => ts.map_values(
            |t: SrcType|
                match t {
                    SrcType::Struct(s) => s,
                    _ => 0u32,
                },
        ),
        RetDeclV::Single(_) => Seq::empty(),
    }
}

/// Static resolution of one call site.
pub open spec fn resolve_site(pv: ProgramV, site: CallSite) -> Option<u32> {
    match site {
        CallSite::Direct(c) => Some(c),
        CallSite::Method(m) => if m < pv.methods.len() {
            pv.methods[m as int]
        } else {
            None
        },
    }
}

/// Does `site` statically resolve to function `c`?
pub open spec fn resolve_is(pv: ProgramV, site: CallSite, c: int) -> bool {
    match resolve_site(pv, site) {
        Some(t) => t == c,
        None => false,
    }
}

/// The resolved target of a site, when it has one.
pub open spec fn spec_target(pv: ProgramV, site: CallSite) -> u32 {
    match resolve_site(pv, site) {
        Some(t) => t,
        None => 0u32,
    }
}

/// Do all call sites of `fv` resolve statically?
pub open spec fn sites_resolve(pv: ProgramV, fv: FunctionDeclV) -> bool {
    forall|k: int|
        0 <= k < fv.body.len() ==> (resolve_site(pv, #[trigger] fv.body[k]) matches Some(_))
}

/// Function `g` calls function `c`.
pub open spec fn fn_calls(pv: ProgramV, g: int, c: int) -> bool {
    exists|k: int|
        0 <= k < pv.funcs[g].body.len() && resolve_is(pv, #[trigger] pv.funcs[g].body[k], c)
}

/// The declared types of a return shape, as one sequence.
pub open spec fn ret_tys(r: RetDeclV) -> Seq<SrcType> {
    match r {
        RetDeclV::Single(t) => seq![t],
        RetDeclV::Tuple(ts) => ts,
    }
}

/// Does the signature of `fv` mention struct `s`?
pub open spec fn fn_mentions_struct(fv: FunctionDeclV, s: int) -> bool {
    (exists|j: int| 0 <= j < fv.params.len() && ty_mentions((#[trigger] fv.params[j]).ty, s))
        || (exists|j: int|
        0 <= j < ret_tys(fv.ret).len() && ty_mentions(#[trigger] ret_tys(fv.ret)[j], s))
}

/// Does a field of `sv` mention struct `s`?
pub open spec fn struct_mentions(sv: StructDeclV, s: int) -> bool {
    exists|j: int| 0 <= j < sv.fields.len() && ty_mentions((#[trigger] sv.fields[j]).ty, s)
}

/// Node count of the combined dependency graph: functions first, then
/// structs.
pub open spec fn nn(pv: ProgramV) -> int {
    pv.funcs.len() + pv.structs.len() as int
}

/// One dependency edge: a function requires its callees and the structs of
/// its signature; a struct requires the structs of its fields.
pub open spec fn edge(pv: ProgramV, a: int, b: int) -> bool {
    let nf = pv.funcs.len() as int;
    &&& 0 <= a < nn(pv)
    &&& 0 <= b < nn(pv)
    &&& if a < nf {
        if b < nf {
            fn_calls(pv, a, b)
        } else {
            fn_mentions_struct(pv.funcs[a], b - nf)
        }
    } else {
        b >= nf && struct_mentions(pv.structs[a - nf], b - nf)
    }
}

/// A selection root: the initializer, or a function whose name passes the
/// filter.
pub open spec fn is_root(
    pv: ProgramV,
    fs: Set<Seq<char>>,
    pol: FilterPolicy,
    init: int,
    i: int,
) -> bool {
    0 <= i < pv.funcs.len() && (i == init || FilterSet::spec_passes(fs, pol, pv.funcs[i].name))
}

/// Reachability from the roots in at most `n` steps.
pub open spec fn reach_n(
    pv: ProgramV,
    fs: Set<Seq<char>>,
    pol: FilterPolicy,
    init: int,
    i: int,
    n: nat,
) -> bool
    decreases n,
{
    if n == 0 {
        is_root(pv, fs, pol, init, i)
    } else {
        reach_n(pv, fs, pol, init, i, (n - 1) as nat) || exists|a: int|
            reach_n(pv, fs, pol, init, a, (n - 1) as nat) && edge(pv, a, i)
    }
}

/// Node `i` is transitively required by a selection root. For `i` below
/// the function count this is selection of a function; above it,
/// reachability of a struct.
pub open spec fn reached(
    pv: ProgramV,
    fs: Set<Seq<char>>,
    pol: FilterPolicy,
    init: int,
    i: int,
) -> bool {
    exists|n: nat| reach_n(pv, fs, pol, init, i, n)
}

/// Every call site of every selected function resolves statically.
pub open spec fn resolution_ok(
    pv: ProgramV,
    fs: Set<Seq<char>>,
    pol: FilterPolicy,
    init: int,
) -> bool {
    forall|f: int|
        0 <= f < pv.funcs.len() && reached(pv, fs, pol, init, f) ==> sites_resolve(
            pv,
            #[trigger] pv.funcs[f],
        )
}

/// A selected non-initializer function must have supported parameter types
/// and a single supported return type; the initializer's tuple return was
/// already validated separately.
pub open spec fn fn_sig_supported(fv: FunctionDeclV, is_init: bool) -> bool {
    &&& forall|j: int| 0 <= j < fv.params.len() ==> ty_supported((#[trigger] fv.params[j]).ty)
    &&& (is_init || (fv.ret matches RetDeclV::Single(t) && ty_supported(t)))
}

pub open spec fn struct_supported(sv: StructDeclV) -> bool {
    forall|j: int| 0 <= j < sv.fields.len() ==> ty_supported((#[trigger] sv.fields[j]).ty)
}

/// Everything selected lowers: no opaque construct is reachable.
pub open spec fn supported_ok(
    pv: ProgramV,
    fs: Set<Seq<char>>,
    pol: FilterPolicy,
    init: int,
) -> bool {
    let nf = pv.funcs.len() as int;
    &&& forall|f: int|
        0 <= f < nf && reached(pv, fs, pol, init, f) ==> fn_sig_supported(
            #[trigger] pv.funcs[f],
            f == init,
        )
    &&& forall|s: int|
        0 <= s < pv.structs.len() && reached(pv, fs, pol, init, nf + s) ==> struct_supported(
            #[trigger] pv.structs[s],
        )
}

/// The whole translation succeeds exactly on these inputs.
pub open spec fn translation_ok(pv: ProgramV, fs: Set<Seq<char>>, pol: FilterPolicy) -> bool {
    &&& num_candidates(pv) == 1
    &&& init_ret_ok(pv.funcs[init_idx(pv)])
    &&& resolution_ok(pv, fs, pol, init_idx(pv))
    &&& supported_ok(pv, fs, pol, init_idx(pv))
}

/// The lowered form of function `f`.
pub open spec fn spec_lower_fn(pv: ProgramV, f: int) -> FunctionDefV {
    let fv = pv.funcs[f];
    FunctionDefV {
        id: f as u32,
        name: fv.name,
        params: fv.params.map_values(|p| spec_lower_param(p)),
        ret: match fv.ret {
            RetDeclV::Single(t) => erase_ty(t),
            RetDeclV::Tuple(_) => crate::model::TypeRef::Int,
        },
        callees: fv.body.map_values(|site: CallSite| spec_target(pv, site)),
    }
}

/// The extracted layout of struct `s`.
pub open spec fn spec_sdef(pv: ProgramV, s: int) -> StructDefV {
    let sv = pv.structs[s];
    StructDefV {
        id: s as u32,
        name: sv.name,
        fields: sv.fields.map_values(
            |fd: crate::model::FieldDeclV| FieldDefV { name: fd.name, ty: erase_ty(fd.ty) },
        ),
    }
}

/// The marked function ids below `n`, ascending, the initializer excluded.
pub open spec fn marked_fn_ids(marks: Seq<bool>, init: int, n: int) -> Seq<int>
    decreases n,
{
    if n <= 0 {
        Seq::empty()
    } else {
        let rest = marked_fn_ids(marks, init, n - 1);
        if marks[n - 1] && n - 1 != init {
            rest.push(n - 1)
        } else {
            rest
        }
    }
}

/// The marked struct ids below `n`, ascending.
pub open spec fn marked_struct_ids(marks: Seq<bool>, nf: int, n: int) -> Seq<int>
    decreases n,
{
    if n <= 0 {
        Seq::empty()
    } else {
        let rest = marked_struct_ids(marks, nf, n - 1);
        if marks[nf + (n - 1)] {
            rest.push(n - 1)
        } else {
            rest
        }
    }
}

/// The filtered closure of one run: the struct layouts and lowered
/// functions reachable from the selection roots, the interned name tables
/// they refer to, and the lowered initializer. Constructed once, consumed
/// by the emitter, discarded.
pub struct TranslationUnit {
    pub struct_names: Vec<String>,
    pub fn_names: Vec<String>,
    pub structs: Vec<StructDef>,
    pub functions: Vec<FunctionDef>,
    pub init: InitDef,
}

#[verifier::ext_equal]
pub struct TranslationUnitV {
    pub struct_names: Seq<Seq<char>>,
    pub fn_names: Seq<Seq<char>>,
    pub structs: Seq<StructDefV>,
    pub functions: Seq<FunctionDefV>,
    pub init: InitDefV,
}

impl View for TranslationUnit {
    type V = TranslationUnitV;

    open spec fn view(&self) -> TranslationUnitV {
        TranslationUnitV {
            struct_names: self.struct_names@.map_values(|s: String| s@),
            fn_names: self.fn_names@.map_values(|s: String| s@),
            structs: self.structs@.map_values(|s: StructDef| s@),
            functions: self.functions@.map_values(|f: FunctionDef| f@),
            init: self.init@,
        }
    }
}

/// The marks the closure computes, as a sequence: one flag per node.
pub open spec fn spec_marks(pv: ProgramV, fs: Set<Seq<char>>, pol: FilterPolicy) -> Seq<bool> {
    Seq::new(nn(pv) as nat, |i: int| reached(pv, fs, pol, init_idx(pv), i))
}

/// The translation unit a successful run produces: a pure function of the
/// program graph, the filter, and the policy direction.
pub open spec fn spec_unit(pv: ProgramV, fs: Set<Seq<char>>, pol: FilterPolicy) -> TranslationUnitV {
    let nf = pv.funcs.len() as int;
    let ns = pv.structs.len() as int;
    let init = init_idx(pv);
    let marks = spec_marks(pv, fs, pol);
    TranslationUnitV {
        struct_names: pv.structs.map_values(|s: StructDeclV| s.name),
        fn_names: pv.funcs.map_values(|f: FunctionDeclV| f.name),
        structs: marked_struct_ids(marks, nf, ns).map_values(|s: int| spec_sdef(pv, s)),
        functions: marked_fn_ids(marks, init, nf).map_values(|f: int| spec_lower_fn(pv, f)),
        init: InitDefV {
            id: init as u32,
            name: pv.funcs[init].name,
            roots: spec_roots(pv.funcs[init]),
            callees: spec_lower_fn(pv, init).callees,
        },
    }
}

/// How many flags are set.
pub open spec fn count_trues(s: Seq<bool>) -> int
    decreases s.len(),
{
    if s.len() == 0 {
        0
    } else {
        count_trues(s.drop_last()) + if s.last() {
            1int
        } else {
            0int
        }
    }
}

proof fn lemma_count_trues_le(s: Seq<bool>)
    ensures
        0 <= count_trues(s) <= s.len(),
    decreases s.len(),
{
    if s.len() > 0 {
        lemma_count_trues_le(s.drop_last());
    }
}

proof fn lemma_count_trues_update(s: Seq<bool>, i: int)
    requires
        0 <= i < s.len(),
    ensures
        count_trues(s.update(i, true)) == count_trues(s) + if s[i] {
            0int
        } else {
            1int
        },
    decreases s.len(),
{
    if i == s.len() - 1 {
        assert(s.update(i, true).drop_last() =~= s.drop_last());
    } else {
        assert(s.update(i, true).drop_last() =~= s.drop_last().update(i, true));
        lemma_count_trues_update(s.drop_last(), i);
    }
}

/// A step of reachability.
proof fn lemma_reach_step(
    pv: ProgramV,
    fs: Set<Seq<char>>,
    pol: FilterPolicy,
    init: int,
    a: int,
    b: int,
)
    requires
        reached(pv, fs, pol, init, a),
        edge(pv, a, b),
    ensures
        reached(pv, fs, pol, init, b),
{
    let n = choose|n: nat| reach_n(pv, fs, pol, init, a, n);
    assert(reach_n(pv, fs, pol, init, b, n + 1));
}

/// A node already scanned: every edge out of it leads to a marked node, and
/// (for a function) all of its call sites resolve.
pub open spec fn node_done(pv: ProgramV, marks: Seq<bool>, a: int) -> bool {
    &&& forall|b: int| edge(pv, a, b) ==> marks[b]
    &&& (a < pv.funcs.len() ==> sites_resolve(pv, pv.funcs[a]))
}

/// When the marks contain the roots and are closed under edges, they
/// contain everything reachable.
proof fn lemma_reach_n_marked(
    pv: ProgramV,
    fs: Set<Seq<char>>,
    pol: FilterPolicy,
    init: int,
    marks: Seq<bool>,
    i: int,
    n: nat,
)
    requires
        marks.len() == nn(pv),
        forall|j: int| is_root(pv, fs, pol, init, j) ==> marks[j],
        forall|a: int| 0 <= a < nn(pv) && marks[a] ==> node_done(pv, marks, a),
        reach_n(pv, fs, pol, init, i, n),
    ensures
        0 <= i < nn(pv) && marks[i],
    decreases n,
{
    if n == 0 {
    } else if reach_n(pv, fs, pol, init, i, (n - 1) as nat) {
        lemma_reach_n_marked(pv, fs, pol, init, marks, i, (n - 1) as nat);
    } else {
        let a = choose|a: int| reach_n(pv, fs, pol, init, a, (n - 1) as nat) && edge(pv, a, i);
        lemma_reach_n_marked(pv, fs, pol, init, marks, a, (n - 1) as nat);
        assert(node_done(pv, marks, a));
    }
}

/// Set one mark.
fn mark_node(marks: &mut Vec<bool>, num: &mut usize, changed: &mut bool, t: usize)
    requires
        t < old(marks)@.len(),
        old(marks)@.len() <= usize::MAX,
        *old(num) == count_trues(old(marks)@),
    ensures
        final(marks)@.len() == old(marks)@.len(),
        *final(num) == count_trues(final(marks)@),
        final(marks)@[t as int],
        forall|i: int|
            0 <= i < final(marks)@.len() && i != t ==> final(marks)@[i] == old(marks)@[i],
        forall|i: int| 0 <= i < final(marks)@.len() && old(marks)@[i] ==> final(marks)@[i],
        *final(changed) == (*old(changed) || !old(marks)@[t as int]),
        *final(num) == *old(num) + if old(marks)@[t as int] {
            0int
        } else {
            1int
        },
{
    if !marks[t] {
        proof {
            lemma_count_trues_update(marks@, t as int);
            lemma_count_trues_le(marks@.update(t as int, true));
        }
        marks.set(t, true);
        *num = *num + 1;
        *changed = true;
    }
}

/// Mark every struct a type mentions.
fn mark_ty(nf: usize, t: &SrcType, marks: &mut Vec<bool>, num: &mut usize, changed: &mut bool)
    requires
        *old(num) == count_trues(old(marks)@),
        old(marks)@.len() <= usize::MAX,
        forall|s: int| #[trigger] ty_mentions(*t, s) ==> nf + s < old(marks)@.len(),
    ensures
        final(marks)@.len() == old(marks)@.len(),
        *final(num) == count_trues(final(marks)@),
        forall|i: int| 0 <= i < final(marks)@.len() && old(marks)@[i] ==> final(marks)@[i],
        forall|s: int| ty_mentions(*t, s) ==> final(marks)@[nf + s],
        forall|i: int|
            0 <= i < final(marks)@.len() && final(marks)@[i] && !old(marks)@[i] ==> i >= nf
                && ty_mentions(*t, i - nf),
        *old(changed) ==> *final(changed),
        !*final(changed) ==> forall|i: int|
            0 <= i < final(marks)@.len() ==> final(marks)@[i] == old(marks)@[i],
        *final(num) >= *old(num),
        (*final(changed) && !*old(changed)) ==> *final(num) > *old(num),
    decreases *t,
{
    match t {
        SrcType::Struct(s) => {
            proof {
                assert(ty_mentions(*t, *s as int));
            }
            mark_node(marks, num, changed, nf + (*s as usize));
        },
        SrcType::Ref(inner, _m, _lt) => {
            proof {
                assert forall|s: int| #[trigger] ty_mentions(**inner, s) implies nf + s
                    < old(marks)@.len() by {
                    assert(ty_mentions(*t, s));
                }
            }
            mark_ty(nf, inner, marks, num, changed);
            proof {
                assert forall|s: int| #[trigger] ty_mentions(*t, s) implies marks@[nf + s] by {
                    assert(ty_mentions(**inner, s));
                }
                assert forall|i: int|
                    0 <= i < marks@.len() && marks@[i] && !old(marks)@[i] implies i >= nf
                    && ty_mentions(*t, i - nf) by {
                    assert(ty_mentions(**inner, i - nf));
                }
            }
        },
        _ => {},
    }
}

/// Scan one marked function node: mark its callees and the structs of its
/// signature, or fail on a call with no static resolution.
#[verifier::rlimit(30)]
fn scan_fn(
    p: &Program,
    filter: &FilterSet,
    policy: FilterPolicy,
    init: usize,
    a: usize,
    marks: &mut Vec<bool>,
    num: &mut usize,
    changed: &mut bool,
) -> (r: Result<(), TransError>)
    requires
        wf(p@),
        a < p@.funcs.len(),
        old(marks)@.len() == nn(p@),
        *old(num) == count_trues(old(marks)@),
        reached(p@, filter@, policy, init as int, a as int),
    ensures
        final(marks)@.len() == old(marks)@.len(),
        *final(num) == count_trues(final(marks)@),
        forall|i: int| 0 <= i < final(marks)@.len() && old(marks)@[i] ==> final(marks)@[i],
        forall|i: int|
            0 <= i < final(marks)@.len() && final(marks)@[i] && !old(marks)@[i] ==> reached(
                p@,
                filter@,
                policy,
                init as int,
                i,
            ),
        *old(changed) ==> *final(changed),
        !*final(changed) ==> forall|i: int|
            0 <= i < final(marks)@.len() ==> final(marks)@[i] == old(marks)@[i],
        *final(num) >= *old(num),
        (*final(changed) && !*old(changed)) ==> *final(num) > *old(num),
        r matches Ok(_) ==> {
            &&& sites_resolve(p@, p@.funcs[a as int])
            &&& forall|b: int| edge(p@, a as int, b) ==> final(marks)@[b]
        },
        r matches Err(e) ==> e == TransError::UnresolvedCall && !resolution_ok(
            p@,
            filter@,
            policy,
            init as int,
        ),
{
    let ghost pv = p@;
    let ghost fs = filter@;
    let nf = p.funcs.len();
    let fdecl = &p.funcs[a];
    let nsites = fdecl.body.len();
    for k in 0..nsites
        invariant
            pv == p@,
            fs == filter@,
            wf(pv),
            a < nf,
            nf == pv.funcs.len(),
            fdecl == p.funcs@[a as int],
            fdecl@ == pv.funcs[a as int],
            reached(pv, fs, policy, init as int, a as int),
            nsites == fdecl.body@.len(),
            marks@.len() == old(marks)@.len() == nn(pv),
            *num == count_trues(marks@),
            forall|i: int| 0 <= i < marks@.len() && old(marks)@[i] ==> marks@[i],
            forall|i: int|
                0 <= i < marks@.len() && marks@[i] && !old(marks)@[i] ==> reached(
                    pv,
                    fs,
                    policy,
                    init as int,
                    i,
                ),
            *old(changed) ==> *changed,
            !*changed ==> forall|i: int| 0 <= i < marks@.len() ==> marks@[i] == old(marks)@[i],
            *num >= *old(num),
            (*changed && !*old(changed)) ==> *num > *old(num),
            forall|k2: int|
                0 <= k2 < k ==> {
                    &&& (resolve_site(pv, #[trigger] fdecl@.body[k2]) matches Some(_))
                    &&& marks@[spec_target(pv, fdecl@.body[k2]) as int]
                },
    {
        let site = fdecl.body[k];
        proof {
            assert(fn_wf(pv, pv.funcs[a as int])) by {
                assert(wf(pv));
            }
        }
        let target: u32 = match site {
            CallSite::Direct(c) => c,
            CallSite::Method(m) => {
                match p.methods[m as usize] {
                    Some(tt) => tt,
                    None => {
                        proof {
                            assert(!sites_resolve(pv, pv.funcs[a as int]));
                            assert(!resolution_ok(pv, fs, policy, init as int));
                        }
                        return Err(TransError::UnresolvedCall);
                    },
                }
            },
        };
        proof {
            assert(resolve_is(pv, site, target as int));
            assert(fn_calls(pv, a as int, target as int));
            assert(edge(pv, a as int, target as int));
            lemma_reach_step(pv, fs, policy, init as int, a as int, target as int);
        }
        mark_node(marks, num, changed, target as usize);
    }
    // signature structs: parameters, then return types
    let nparams = fdecl.params.len();
    for j in 0..nparams
        invariant
            pv == p@,
            fs == filter@,
            wf(pv),
            a < nf,
            nf == pv.funcs.len(),
            fdecl == p.funcs@[a as int],
            fdecl@ == pv.funcs[a as int],
            reached(pv, fs, policy, init as int, a as int),
            nparams == fdecl.params@.len(),
            marks@.len() == old(marks)@.len() == nn(pv),
            *num == count_trues(marks@),
            forall|i: int| 0 <= i < marks@.len() && old(marks)@[i] ==> marks@[i],
            forall|i: int|
                0 <= i < marks@.len() && marks@[i] && !old(marks)@[i] ==> reached(
                    pv,
                    fs,
                    policy,
                    init as int,
                    i,
                ),
            *old(changed) ==> *changed,
            !*changed ==> forall|i: int| 0 <= i < marks@.len() ==> marks@[i] == old(marks)@[i],
            *num >= *old(num),
            (*changed && !*old(changed)) ==> *num > *old(num),
            forall|k2: int|
                0 <= k2 < fdecl@.body.len() ==> {
                    &&& (resolve_site(pv, #[trigger] fdecl@.body[k2]) matches Some(_))
                    &&& marks@[spec_target(pv, fdecl@.body[k2]) as int]
                },
            forall|j2: int, s: int|
                0 <= j2 < j && 0 <= nf + s < marks@.len() && #[trigger] ty_mentions(
                    fdecl@.params[j2].ty,
                    s,
                ) ==> marks@[nf + s],
    {
        proof {
            assert(fn_wf(pv, pv.funcs[a as int]));
            assert(fdecl@.params[j as int].ty == fdecl.params@[j as int].ty);
            assert(ty_wf(pv, pv.funcs[a as int].params[j as int].ty));
            lemma_ty_wf_mentions(pv, fdecl@.params[j as int].ty);
        }
        let ghost pre = marks@;
        mark_ty(nf, &fdecl.params[j].ty, marks, num, changed);
        proof {
            assert forall|i: int| 0 <= i < marks@.len() && marks@[i] && !pre[i] implies reached(
                pv,
                fs,
                policy,
                init as int,
                i,
            ) by {
                assert(ty_mentions(fdecl@.params[j as int].ty, i - nf));
                assert(fn_mentions_struct(pv.funcs[a as int], i - nf));
                assert(edge(pv, a as int, i));
                lemma_reach_step(pv, fs, policy, init as int, a as int, i);
            }
        }
    }
    let ghost rts = ret_tys(fdecl@.ret);
    match &fdecl.ret {
        RetDecl::Single(t) => {
            proof {
                assert(fn_wf(pv, pv.funcs[a as int]));
                assert(rts[0] == pv.funcs[a as int].ret->Single_0);
                lemma_ty_wf_mentions(pv, rts[0]);
            }
            let ghost pre = marks@;
            mark_ty(nf, t, marks, num, changed);
            proof {
                assert forall|i: int| 0 <= i < marks@.len() && marks@[i] && !pre[i] implies reached(
                    pv,
                    fs,
                    policy,
                    init as int,
                    i,
                ) by {
                    assert(ty_mentions(rts[0], i - nf));
                    assert(fn_mentions_struct(pv.funcs[a as int], i - nf));
                    assert(edge(pv, a as int, i));
                    lemma_reach_step(pv, fs, policy, init as int, a as int, i);
                }
            }
        },
        RetDecl::Tuple(ts) => {
            let ntys = ts.len();
            for j in 0..ntys
                invariant
                    pv == p@,
                    fs == filter@,
                    wf(pv),
                    a < nf,
                    nf == pv.funcs.len(),
                    fdecl == p.funcs@[a as int],
            fdecl@ == pv.funcs[a as int],
            reached(pv, fs, policy, init as int, a as int),
                    fdecl@.ret == RetDeclV::Tuple(ts@),
                    rts == ret_tys(fdecl@.ret),
                    ntys == ts@.len(),
                    marks@.len() == old(marks)@.len() == nn(pv),
                    *num == count_trues(marks@),
                    forall|i: int| 0 <= i < marks@.len() && old(marks)@[i] ==> marks@[i],
                    forall|i: int|
                        0 <= i < marks@.len() && marks@[i] && !old(marks)@[i] ==> reached(
                            pv,
                            fs,
                            policy,
                            init as int,
                            i,
                        ),
                    *old(changed) ==> *changed,
                    !*changed ==> forall|i: int|
                        0 <= i < marks@.len() ==> marks@[i] == old(marks)@[i],
                    *num >= *old(num),
                    (*changed && !*old(changed)) ==> *num > *old(num),
                    forall|k2: int|
                        0 <= k2 < fdecl@.body.len() ==> {
                            &&& (resolve_site(pv, #[trigger] fdecl@.body[k2]) matches Some(_))
                            &&& marks@[spec_target(pv, fdecl@.body[k2]) as int]
                        },
                    forall|j2: int, s: int|
                        0 <= j2 < fdecl@.params.len() && 0 <= nf + s < marks@.len()
                            && #[trigger] ty_mentions(fdecl@.params[j2].ty, s) ==> marks@[nf + s],
                    forall|j2: int, s: int|
                        0 <= j2 < j && 0 <= nf + s < marks@.len() && #[trigger] ty_mentions(rts[j2], s)
                            ==> marks@[nf + s],
            {
                proof {
                    assert(fn_wf(pv, pv.funcs[a as int]));
                    assert(ret_wf(pv, pv.funcs[a as int].ret));
                    assert(rts[j as int] == ts@[j as int]);
                    lemma_ty_wf_mentions(pv, rts[j as int]);
                }
                let ghost pre = marks@;
                mark_ty(nf, &ts[j], marks, num, changed);
                proof {
                    assert forall|i: int|
                        0 <= i < marks@.len() && marks@[i] && !pre[i] implies reached(
                        pv,
                        fs,
                        policy,
                        init as int,
                        i,
                    ) by {
                        assert(ty_mentions(rts[j as int], i - nf));
                        assert(fn_mentions_struct(pv.funcs[a as int], i - nf));
                        assert(edge(pv, a as int, i));
                        lemma_reach_step(pv, fs, policy, init as int, a as int, i);
                    }
                }
            }
        },
    }
    proof {
        assert forall|b: int| edge(pv, a as int, b) implies marks@[b] by {
            if b < nf {
                let k = choose|k: int|
                    0 <= k < pv.funcs[a as int].body.len() && resolve_is(
                        pv,
                        pv.funcs[a as int].body[k],
                        b,
                    );
                assert(marks@[spec_target(pv, fdecl@.body[k]) as int]);
            } else {
                assert(fn_mentions_struct(pv.funcs[a as int], b - nf));
            }
        }
    }
    Ok(())
}

/// Everything a well-formed type mentions is in range.
proof fn lemma_ty_wf_mentions(pv: ProgramV, t: SrcType)
    requires
        ty_wf(pv, t),
    ensures
        forall|s: int| ty_mentions(t, s) ==> pv.funcs.len() + s < nn(pv),
    decreases t,
{
    match t {
        SrcType::Ref(inner, _m, _lt) => {
            lemma_ty_wf_mentions(pv, *inner);
            assert forall|s: int| ty_mentions(t, s) implies pv.funcs.len() + s < nn(pv) by {
                assert(ty_mentions(*inner, s));
            }
        },
        _ => {},
    }
}

/// Scan one marked struct node: mark the structs its fields mention.
fn scan_struct(
    p: &Program,
    filter: &FilterSet,
    policy: FilterPolicy,
    init: usize,
    a: usize,
    marks: &mut Vec<bool>,
    num: &mut usize,
    changed: &mut bool,
)
    requires
        wf(p@),
        p@.funcs.len() <= a < nn(p@),
        old(marks)@.len() == nn(p@),
        *old(num) == count_trues(old(marks)@),
        reached(p@, filter@, policy, init as int, a as int),
    ensures
        final(marks)@.len() == old(marks)@.len(),
        *final(num) == count_trues(final(marks)@),
        forall|i: int| 0 <= i < final(marks)@.len() && old(marks)@[i] ==> final(marks)@[i],
        forall|i: int|
            0 <= i < final(marks)@.len() && final(marks)@[i] && !old(marks)@[i] ==> reached(
                p@,
                filter@,
                policy,
                init as int,
                i,
            ),
        *old(changed) ==> *final(changed),
        !*final(changed) ==> forall|i: int|
            0 <= i < final(marks)@.len() ==> final(marks)@[i] == old(marks)@[i],
        *final(num) >= *old(num),
        (*final(changed) && !*old(changed)) ==> *final(num) > *old(num),
        forall|b: int| edge(p@, a as int, b) ==> final(marks)@[b],
{
    let ghost pv = p@;
    let ghost fs = filter@;
    let nf = p.funcs.len();
    let sidx = a - nf;
    let sdecl = &p.structs[sidx];
    let nfields = sdecl.fields.len();
    for j in 0..nfields
        invariant
            pv == p@,
            fs == filter@,
            wf(pv),
            nf == pv.funcs.len(),
            nf <= a < nn(pv),
            sidx == a - nf,
            sdecl == p.structs@[sidx as int],
            sdecl@ == pv.structs[sidx as int],
            reached(pv, fs, policy, init as int, a as int),
            nfields == sdecl.fields@.len(),
            marks@.len() == old(marks)@.len() == nn(pv),
            *num == count_trues(marks@),
            forall|i: int| 0 <= i < marks@.len() && old(marks)@[i] ==> marks@[i],
            forall|i: int|
                0 <= i < marks@.len() && marks@[i] && !old(marks)@[i] ==> reached(
                    pv,
                    fs,
                    policy,
                    init as int,
                    i,
                ),
            *old(changed) ==> *changed,
            !*changed ==> forall|i: int| 0 <= i < marks@.len() ==> marks@[i] == old(marks)@[i],
            *num >= *old(num),
            (*changed && !*old(changed)) ==> *num > *old(num),
            forall|j2: int, s: int|
                0 <= j2 < j && 0 <= nf + s < marks@.len() && #[trigger] ty_mentions(
                    sdecl@.fields[j2].ty,
                    s,
                ) ==> marks@[nf + s],
    {
        proof {
            assert(sdecl@.fields[j as int].ty == sdecl.fields@[j as int].ty);
            assert(ty_wf(pv, pv.structs[sidx as int].fields[j as int].ty));
            lemma_ty_wf_mentions(pv, sdecl@.fields[j as int].ty);
        }
        let ghost pre = marks@;
        mark_ty(nf, &sdecl.fields[j].ty, marks, num, changed);
        proof {
            assert forall|i: int| 0 <= i < marks@.len() && marks@[i] && !pre[i] implies reached(
                pv,
                fs,
                policy,
                init as int,
                i,
            ) by {
                assert(ty_mentions(sdecl@.fields[j as int].ty, i - nf));
                assert(struct_mentions(pv.structs[sidx as int], i - nf));
                assert(edge(pv, a as int, i));
                lemma_reach_step(pv, fs, policy, init as int, a as int, i);
            }
        }
    }
    proof {
        assert forall|b: int| edge(pv, a as int, b) implies marks@[b] by {
            assert(struct_mentions(pv.structs[sidx as int], b - nf));
        }
    }
}

} // verus!

verus! {

/// Elements of the candidate list: in range, candidates, ascending.
pub(crate) proof fn lemma_cand_idxs_props(pv: ProgramV, n: int)
    ensures
        forall|k: int|
            0 <= k < cand_idxs(pv, n).len() ==> {
                &&& 0 <= #[trigger] cand_idxs(pv, n)[k] < n
                &&& is_candidate(pv.funcs[cand_idxs(pv, n)[k]])
            },
    decreases n,
{
    if n > 0 {
        lemma_cand_idxs_props(pv, n - 1);
        let rest = cand_idxs(pv, n - 1);
        let cur = cand_idxs(pv, n);
        assert forall|k: int| 0 <= k < cur.len() implies (0 <= cur[k] < n && is_candidate(
            pv.funcs[cur[k]],
        )) by {
            if k < rest.len() {
                assert(cur[k] == rest[k]);
            } else {
                assert(cur[k] == n - 1);
            }
        }
    }
}

/// Recognize the designated initializer name.
fn is_init_name(s: &String) -> (r: bool)
    ensures
        r == (s@ == init_name()),
{
    let lit: String = "crust_init".to_owned();
    s.eq(&lit)
}

/// Compute the selection closure: one mark per node of the combined
/// dependency graph, set exactly for the nodes transitively required by the
/// selection roots.
fn select_marks(p: &Program, filter: &FilterSet, policy: FilterPolicy, init: usize) -> (r: Result<
    Vec<bool>,
    TransError,
>)
    requires
        wf(p@),
        init < p@.funcs.len(),
    ensures
        r matches Ok(marks) ==> {
            &&& marks@.len() == nn(p@)
            &&& forall|i: int|
                0 <= i < nn(p@) ==> marks@[i] == reached(p@, filter@, policy, init as int, i)
            &&& resolution_ok(p@, filter@, policy, init as int)
        },
        r matches Err(e) ==> e == TransError::UnresolvedCall && !resolution_ok(
            p@,
            filter@,
            policy,
            init as int,
        ),
{
    let ghost pv = p@;
    let ghost fs = filter@;
    let nf = p.funcs.len();
    let ns = p.structs.len();
    let total = nf + ns;
    let mut marks: Vec<bool> = Vec::new();
    while marks.len() < total
        invariant
            marks@.len() <= total,
            count_trues(marks@) == 0,
            forall|i: int| 0 <= i < marks@.len() ==> !marks@[i],
        decreases total - marks.len(),
    {
        proof {
            assert(marks@.push(false).drop_last() =~= marks@);
        }
        marks.push(false);
    }
    let mut num: usize = 0;
    let mut seeded = false;
    proof {
        assert(reach_n(pv, fs, policy, init as int, init as int, 0));
    }
    mark_node(&mut marks, &mut num, &mut seeded, init);
    for f in 0..nf
        invariant
            pv == p@,
            fs == filter@,
            wf(pv),
            nf == pv.funcs.len(),
            init < nf,
            marks@.len() == nn(pv),
            num == count_trues(marks@),
            forall|i: int|
                0 <= i < nn(pv) && marks@[i] ==> reached(pv, fs, policy, init as int, i),
            marks@[init as int],
            forall|i: int| 0 <= i < f && is_root(pv, fs, policy, init as int, i) ==> marks@[i],
    {
        let pass = filter.passes(policy, &p.funcs[f].name);
        if pass {
            proof {
                assert(pv.funcs[f as int].name == p.funcs@[f as int].name@);
                assert(is_root(pv, fs, policy, init as int, f as int));
                assert(reach_n(pv, fs, policy, init as int, f as int, 0));
            }
            mark_node(&mut marks, &mut num, &mut seeded, f);
        }
    }
    proof {
        lemma_count_trues_le(marks@);
    }
    let mut changed = true;
    while changed
        invariant
            pv == p@,
            fs == filter@,
            wf(pv),
            nf == pv.funcs.len(),
            init < nf,
            total == nn(pv),
            marks@.len() == nn(pv),
            num == count_trues(marks@),
            num <= marks@.len(),
            forall|i: int|
                0 <= i < nn(pv) && marks@[i] ==> reached(pv, fs, policy, init as int, i),
            forall|i: int| is_root(pv, fs, policy, init as int, i) ==> marks@[i],
            !changed ==> forall|a: int|
                0 <= a < nn(pv) && marks@[a] ==> node_done(pv, marks@, a),
        decreases 2 * (marks@.len() - num) + if changed {
            1int
        } else {
            0int
        },
    {
        changed = false;
        let ghost num0: int = num as int;
        let mut a: usize = 0;
        while a < total
            invariant
                pv == p@,
                fs == filter@,
                wf(pv),
                nf == pv.funcs.len(),
                init < nf,
                total == nn(pv),
                a <= total,
                marks@.len() == nn(pv),
                num == count_trues(marks@),
                forall|i: int|
                    0 <= i < nn(pv) && marks@[i] ==> reached(pv, fs, policy, init as int, i),
                forall|i: int| is_root(pv, fs, policy, init as int, i) ==> marks@[i],
                num >= num0,
                changed ==> num >= num0 + 1,
                !changed ==> forall|a2: int|
                    0 <= a2 < a && marks@[a2] ==> node_done(pv, marks@, a2),
            decreases total - a,
        {
            if marks[a] {
                if a < nf {
                    match scan_fn(p, filter, policy, init, a, &mut marks, &mut num, &mut changed) {
                        Ok(_) => {},
                        Err(e) => {
                            return Err(e);
                        },
                    }
                } else {
                    scan_struct(p, filter, policy, init, a, &mut marks, &mut num, &mut changed);
                }
            }
            a = a + 1;
        }
        proof {
            lemma_count_trues_le(marks@);
        }
    }
    proof {
        assert forall|i: int| 0 <= i < nn(pv) implies marks@[i] == reached(
            pv,
            fs,
            policy,
            init as int,
            i,
        ) by {
            if !marks@[i] && reached(pv, fs, policy, init as int, i) {
                let n = choose|n: nat| reach_n(pv, fs, policy, init as int, i, n);
                lemma_reach_n_marked(pv, fs, policy, init as int, marks@, i, n);
            }
        }
        assert forall|f: int|
            0 <= f < pv.funcs.len() && reached(pv, fs, policy, init as int, f) implies
            sites_resolve(pv, #[trigger] pv.funcs[f]) by {
            assert(marks@[f]);
            assert(node_done(pv, marks@, f));
        }
    }
    Ok(marks)
}

/// Lower the body of a function whose call sites all resolve: the sequence
/// of resolved callee indices, in body order.
fn lower_callees(p: &Program, f: usize) -> (r: Vec<u32>)
    requires
        wf(p@),
        f < p@.funcs.len(),
        sites_resolve(p@, p@.funcs[f as int]),
    ensures
        r@ == p@.funcs[f as int].body.map_values(|site: CallSite| spec_target(p@, site)),
{
    let ghost pv = p@;
    let fdecl = &p.funcs[f];
    let nsites = fdecl.body.len();
    let mut callees: Vec<u32> = Vec::new();
    for k in 0..nsites
        invariant
            pv == p@,
            wf(pv),
            f < pv.funcs.len(),
            sites_resolve(pv, pv.funcs[f as int]),
            fdecl == p.funcs@[f as int],
            fdecl@ == pv.funcs[f as int],
            nsites == fdecl.body@.len(),
            callees@ == pv.funcs[f as int].body.take(k as int).map_values(
                |site: CallSite| spec_target(pv, site),
            ),
    {
        let site = fdecl.body[k];
        proof {
            assert(fn_wf(pv, pv.funcs[f as int]));
            assert(resolve_site(pv, pv.funcs[f as int].body[k as int]) matches Some(_));
        }
        let t: u32 = match site {
            CallSite::Direct(c) => c,
            CallSite::Method(m) => {
                match p.methods[m as usize] {
                    Some(tt) => tt,
                    None => {
                        proof {
                            assert(false);
                        }
                        0
                    },
                }
            },
        };
        callees.push(t);
        proof {
            assert(callees@ =~= pv.funcs[f as int].body.take(k + 1 as int).map_values(
                |site: CallSite| spec_target(pv, site),
            ));
        }
    }
    proof {
        assert(pv.funcs[f as int].body.take(nsites as int) =~= pv.funcs[f as int].body);
    }
    callees
}

/// Lower one selected, non-initializer function, or fail on a construct
/// with no lowered form.
fn lower_fn_exec(p: &Program, f: usize) -> (r: Result<FunctionDef, TransError>)
    requires
        wf(p@),
        f < p@.funcs.len(),
        sites_resolve(p@, p@.funcs[f as int]),
    ensures
        r matches Ok(d) ==> d@ == spec_lower_fn(p@, f as int) && fn_sig_supported(
            p@.funcs[f as int],
            false,
        ),
        r matches Err(e) ==> e == TransError::UnsupportedConstruct && !fn_sig_supported(
            p@.funcs[f as int],
            false,
        ),
{
    let ghost pv = p@;
    let fdecl = &p.funcs[f];
    let nparams = fdecl.params.len();
    let mut params: Vec<ParamDef> = Vec::new();
    for j in 0..nparams
        invariant
            pv == p@,
            wf(pv),
            f < pv.funcs.len(),
            fdecl == p.funcs@[f as int],
            fdecl@ == pv.funcs[f as int],
            nparams == fdecl.params@.len(),
            params@.len() == j,
            forall|j2: int|
                0 <= j2 < j ==> (#[trigger] params@[j2])@ == spec_lower_param(
                    pv.funcs[f as int].params[j2],
                ),
            forall|j2: int|
                0 <= j2 < j ==> ty_supported((#[trigger] pv.funcs[f as int].params[j2]).ty),
    {
        if !ty_supported_exec(&fdecl.params[j].ty) {
            proof {
                assert(!ty_supported(pv.funcs[f as int].params[j as int].ty));
                assert(!fn_sig_supported(pv.funcs[f as int], false));
            }
            return Err(TransError::UnsupportedConstruct);
        }
        let q = lower_param(&fdecl.params[j]);
        proof {
            assert(fdecl@.params[j as int] == fdecl.params@[j as int]@);
        }
        params.push(q);
    }
    let ret: crate::model::TypeRef = match &fdecl.ret {
        RetDecl::Single(t) => {
            if !ty_supported_exec(t) {
                proof {
                    assert(!fn_sig_supported(pv.funcs[f as int], false));
                }
                return Err(TransError::UnsupportedConstruct);
            }
            erase(t)
        },
        RetDecl::Tuple(_) => {
            proof {
                assert(!fn_sig_supported(pv.funcs[f as int], false));
            }
            return Err(TransError::UnsupportedConstruct);
        },
    };
    let callees = lower_callees(p, f);
    let d = FunctionDef { id: f as u32, name: fdecl.name.clone(), params, ret, callees };
    proof {
        assert(d@.params =~= spec_lower_fn(pv, f as int).params);
        assert(d@ =~= spec_lower_fn(pv, f as int));
    }
    Ok(d)
}

/// Extract the layout of one reachable struct, or fail on a field with no
/// lowered form.
fn build_sdef(p: &Program, s: usize) -> (r: Result<StructDef, TransError>)
    requires
        wf(p@),
        s < p@.structs.len(),
    ensures
        r matches Ok(d) ==> d@ == spec_sdef(p@, s as int) && struct_supported(
            p@.structs[s as int],
        ),
        r matches Err(e) ==> e == TransError::UnsupportedConstruct && !struct_supported(
            p@.structs[s as int],
        ),
{
    let ghost pv = p@;
    let sdecl = &p.structs[s];
    let nfields = sdecl.fields.len();
    let mut fields: Vec<FieldDef> = Vec::new();
    for j in 0..nfields
        invariant
            pv == p@,
            wf(pv),
            s < pv.structs.len(),
            sdecl == p.structs@[s as int],
            sdecl@ == pv.structs[s as int],
            nfields == sdecl.fields@.len(),
            fields@.len() == j,
            forall|j2: int|
                0 <= j2 < j ==> (#[trigger] fields@[j2])@ == (FieldDefV {
                    name: pv.structs[s as int].fields[j2].name,
                    ty: erase_ty(pv.structs[s as int].fields[j2].ty),
                }),
            forall|j2: int|
                0 <= j2 < j ==> ty_supported((#[trigger] pv.structs[s as int].fields[j2]).ty),
    {
        if !ty_supported_exec(&sdecl.fields[j].ty) {
            proof {
                assert(!ty_supported(pv.structs[s as int].fields[j as int].ty));
                assert(!struct_supported(pv.structs[s as int]));
            }
            return Err(TransError::UnsupportedConstruct);
        }
        let fd = FieldDef { name: sdecl.fields[j].name.clone(), ty: erase(&sdecl.fields[j].ty) };
        proof {
            assert(sdecl@.fields[j as int] == sdecl.fields@[j as int]@);
        }
        fields.push(fd);
    }
    let d = StructDef { id: s as u32, name: sdecl.name.clone(), fields };
    proof {
        assert(d@.fields =~= spec_sdef(pv, s as int).fields);
        assert(d@ =~= spec_sdef(pv, s as int));
    }
    Ok(d)
}

} // verus!

verus! {

/// Clone the struct name table.
fn clone_struct_names(p: &Program) -> (r: Vec<String>)
    ensures
        r@.map_values(|s: String| s@) == p@.structs.map_values(|sd: StructDeclV| sd.name),
{
    let ghost pv = p@;
    let ns = p.structs.len();
    let mut names: Vec<String> = Vec::new();
    for s in 0..ns
        invariant
            pv == p@,
            ns == pv.structs.len(),
            names@.len() == s,
            forall|i: int| 0 <= i < s ==> (#[trigger] names@[i])@ == pv.structs[i].name,
    {
        names.push(p.structs[s].name.clone());
        proof {
            assert(pv.structs[s as int] == p.structs@[s as int]@);
        }
    }
    proof {
        assert(names@.map_values(|s: String| s@) =~= pv.structs.map_values(
            |sd: StructDeclV| sd.name,
        ));
    }
    names
}

/// Clone the function name table.
fn clone_fn_names(p: &Program) -> (r: Vec<String>)
    ensures
        r@.map_values(|s: String| s@) == p@.funcs.map_values(|fd: FunctionDeclV| fd.name),
{
    let ghost pv = p@;
    let nf = p.funcs.len();
    let mut names: Vec<String> = Vec::new();
    for f in 0..nf
        invariant
            pv == p@,
            nf == pv.funcs.len(),
            names@.len() == f,
            forall|i: int| 0 <= i < f ==> (#[trigger] names@[i])@ == pv.funcs[i].name,
    {
        names.push(p.funcs[f].name.clone());
        proof {
            assert(pv.funcs[f as int] == p.funcs@[f as int]@);
        }
    }
    proof {
        assert(names@.map_values(|s: String| s@) =~= pv.funcs.map_values(
            |fd: FunctionDeclV| fd.name,
        ));
    }
    names
}

/// Run the whole translation: discover and validate the initializer, take
/// the filtered closure of the program graph, lower every selected function
/// with lifetimes erased, and extract every reachable struct exactly once.
///
/// On success the result is exactly `spec_unit` of the inputs, so two runs
/// over the same program and filter agree. Each fatal error comes exactly
/// on the stated inputs, checked in this order: initializer candidates,
/// initializer return shape, call resolution, lowerability.
pub fn translate(p: &Program, filter: &FilterSet, policy: FilterPolicy) -> (r: Result<
    TranslationUnit,
    TransError,
>)
    requires
        wf(p@),
    ensures
        r matches Ok(u) ==> u@ == spec_unit(p@, filter@, policy),
        (r matches Ok(_)) <==> translation_ok(p@, filter@, policy),
        r matches Err(TransError::NoInitializer { candidates }) ==> candidates@.map_values(
            |s: String| s@,
        ) == cand_names(p@),
        r matches Err(TransError::MultipleInitializers { candidates }) ==> candidates@.map_values(
            |s: String| s@,
        ) == cand_names(p@),
        (r matches Err(TransError::NoInitializer { .. })) <==> num_candidates(p@) == 0,
        (r matches Err(TransError::MultipleInitializers { .. })) <==> num_candidates(p@) >= 2,
        (r matches Err(TransError::BadInitializerReturn)) <==> (num_candidates(p@) == 1
            && !init_ret_ok(p@.funcs[init_idx(p@)])),
        (r matches Err(TransError::UnresolvedCall)) <==> (num_candidates(p@) == 1 && init_ret_ok(
            p@.funcs[init_idx(p@)],
        ) && !resolution_ok(p@, filter@, policy, init_idx(p@))),
        (r matches Err(TransError::UnsupportedConstruct)) <==> (num_candidates(p@) == 1
            && init_ret_ok(p@.funcs[init_idx(p@)]) && resolution_ok(
            p@,
            filter@,
            policy,
            init_idx(p@),
        ) && !supported_ok(p@, filter@, policy, init_idx(p@))),
{
    let ghost pv = p@;
    let ghost fs = filter@;
    let nf = p.funcs.len();
    let ns = p.structs.len();
    let mut cands: Vec<usize> = Vec::new();
    let mut cnames: Vec<String> = Vec::new();
    for f in 0..nf
        invariant
            pv == p@,
            fs == filter@,
            wf(pv),
            nf == pv.funcs.len(),
            cands@.map_values(|x: usize| x as int) == cand_idxs(pv, f as int),
            cnames@.len() == cand_idxs(pv, f as int).len(),
            forall|k: int|
                0 <= k < cnames@.len() ==> (#[trigger] cnames@[k])@ == pv.funcs[cand_idxs(
                    pv,
                    f as int,
                )[k]].name,
    {
        let cand = p.funcs[f].params.len() == 0 && is_init_name(&p.funcs[f].name);
        proof {
            assert(pv.funcs[f as int] == p.funcs@[f as int]@);
            assert(cand == is_candidate(pv.funcs[f as int]));
        }
        if cand {
            cands.push(f);
            cnames.push(p.funcs[f].name.clone());
            proof {
                assert(cand_idxs(pv, f + 1 as int) == cand_idxs(pv, f as int).push(f as int));
                assert(cands@.map_values(|x: usize| x as int) =~= cand_idxs(pv, f + 1 as int));
            }
        } else {
            proof {
                assert(cand_idxs(pv, f + 1 as int) == cand_idxs(pv, f as int));
            }
        }
    }
    proof {
        assert(cnames@.map_values(|s: String| s@) =~= cand_names(pv));
    }
    if cands.len() == 0 {
        return Err(TransError::NoInitializer { candidates: cnames });
    }
    if cands.len() > 1 {
        return Err(TransError::MultipleInitializers { candidates: cnames });
    }
    let init = cands[0];
    proof {
        assert(cands@.map_values(|x: usize| x as int)[0] == init as int);
        assert(init as int == init_idx(pv));
        lemma_cand_idxs_props(pv, nf as int);
        assert(is_candidate(pv.funcs[init as int]));
    }
    let initf = &p.funcs[init];
    let mut roots: Vec<u32> = Vec::new();
    match &initf.ret {
        RetDecl::Single(_) => {
            proof {
                assert(initf@ == pv.funcs[init as int]);
                assert(!init_ret_ok(pv.funcs[init as int]));
            }
            return Err(TransError::BadInitializerReturn);
        },
        RetDecl::Tuple(ts) => {
            let nts = ts.len();
            for j in 0..nts
                invariant
                    pv == p@,
                    wf(pv),
                    init < nf,
                    nf == pv.funcs.len(),
                    initf == p.funcs@[init as int],
                    initf@ == pv.funcs[init as int],
                    num_candidates(pv) == 1,
                    init as int == init_idx(pv),
                    initf@.ret == RetDeclV::Tuple(ts@),
                    nts == ts@.len(),
                    roots@.len() == j,
                    forall|j2: int|
                        0 <= j2 < j ==> (#[trigger] ts@[j2]) matches SrcType::Struct(_),
                    forall|j2: int|
                        0 <= j2 < j ==> #[trigger] roots@[j2] == spec_roots(
                            pv.funcs[init as int],
                        )[j2],
            {
                match &ts[j] {
                    SrcType::Struct(s) => {
                        roots.push(*s);
                    },
                    _ => {
                        proof {
                            assert(!init_ret_ok(pv.funcs[init as int]));
                        }
                        return Err(TransError::BadInitializerReturn);
                    },
                }
            }
            proof {
                assert(init_ret_ok(pv.funcs[init as int]));
                assert(roots@ =~= spec_roots(pv.funcs[init as int]));
            }
        },
    }
    let marks = match select_marks(p, filter, policy, init) {
        Ok(m) => m,
        Err(e) => {
            return Err(e);
        },
    };
    let ghost iv = init as int;
    let mut functions: Vec<FunctionDef> = Vec::new();
    for f in 0..nf
        invariant
            pv == p@,
            fs == filter@,
            wf(pv),
            nf == pv.funcs.len(),
            ns == pv.structs.len(),
            init < nf,
            iv == init as int,
            iv == init_idx(pv),
            num_candidates(pv) == 1,
            init_ret_ok(pv.funcs[iv]),
            marks@.len() == nn(pv),
            forall|i: int| 0 <= i < nn(pv) ==> marks@[i] == reached(pv, fs, policy, iv, i),
            resolution_ok(pv, fs, policy, iv),
            functions@.len() == marked_fn_ids(marks@, iv, f as int).len(),
            forall|k: int|
                0 <= k < functions@.len() ==> (#[trigger] functions@[k])@ == spec_lower_fn(
                    pv,
                    marked_fn_ids(marks@, iv, f as int)[k],
                ),
            forall|f2: int|
                0 <= f2 < f && marks@[f2] && f2 != iv ==> fn_sig_supported(
                    #[trigger] pv.funcs[f2],
                    false,
                ),
    {
        if f != init && marks[f] {
            proof {
                assert(reached(pv, fs, policy, iv, f as int));
                assert(sites_resolve(pv, pv.funcs[f as int]));
            }
            match lower_fn_exec(p, f) {
                Ok(d) => {
                    functions.push(d);
                    proof {
                        assert(marked_fn_ids(marks@, iv, f + 1 as int) == marked_fn_ids(
                            marks@,
                            iv,
                            f as int,
                        ).push(f as int));
                    }
                },
                Err(e) => {
                    proof {
                        assert(!fn_sig_supported(pv.funcs[f as int], f as int == iv));
                        assert(!supported_ok(pv, fs, policy, iv));
                    }
                    return Err(e);
                },
            }
        } else {
            proof {
                assert(marked_fn_ids(marks@, iv, f + 1 as int) == marked_fn_ids(
                    marks@,
                    iv,
                    f as int,
                ));
            }
        }
    }
    let mut structs: Vec<StructDef> = Vec::new();
    for s in 0..ns
        invariant
            pv == p@,
            fs == filter@,
            wf(pv),
            nf == pv.funcs.len(),
            ns == pv.structs.len(),
            init < nf,
            iv == init as int,
            iv == init_idx(pv),
            num_candidates(pv) == 1,
            init_ret_ok(pv.funcs[iv]),
            resolution_ok(pv, fs, policy, iv),
            marks@.len() == nn(pv),
            forall|i: int| 0 <= i < nn(pv) ==> marks@[i] == reached(pv, fs, policy, iv, i),
            structs@.len() == marked_struct_ids(marks@, nf as int, s as int).len(),
            forall|k: int|
                0 <= k < structs@.len() ==> (#[trigger] structs@[k])@ == spec_sdef(
                    pv,
                    marked_struct_ids(marks@, nf as int, s as int)[k],
                ),
            forall|s2: int|
                0 <= s2 < s && marks@[nf + s2] ==> struct_supported(#[trigger] pv.structs[s2]),
    {
        if marks[nf + s] {
            match build_sdef(p, s) {
                Ok(d) => {
                    structs.push(d);
                    proof {
                        assert(marked_struct_ids(marks@, nf as int, s + 1 as int)
                            == marked_struct_ids(marks@, nf as int, s as int).push(s as int));
                    }
                },
                Err(e) => {
                    proof {
                        assert(reached(pv, fs, policy, iv, nf + s as int));
                        assert(!supported_ok(pv, fs, policy, iv));
                    }
                    return Err(e);
                },
            }
        } else {
            proof {
                assert(marked_struct_ids(marks@, nf as int, s + 1 as int) == marked_struct_ids(
                    marks@,
                    nf as int,
                    s as int,
                ));
            }
        }
    }
    proof {
        assert(functions@.map_values(|d: FunctionDef| d@) =~= marked_fn_ids(
            marks@,
            iv,
            nf as int,
        ).map_values(|ff: int| spec_lower_fn(pv, ff)));
        assert(structs@.map_values(|d: StructDef| d@) =~= marked_struct_ids(
            marks@,
            nf as int,
            ns as int,
        ).map_values(|ss: int| spec_sdef(pv, ss)));
    }
    let struct_names = clone_struct_names(p);
    let fn_names = clone_fn_names(p);
    proof {
        assert(reach_n(pv, fs, policy, iv, iv, 0));
        assert(reached(pv, fs, policy, iv, iv));
        assert(marks@[iv]);
        assert(sites_resolve(pv, pv.funcs[iv]));
    }
    let icallees = lower_callees(p, init);
    let iname = p.funcs[init].name.clone();
    let initd = InitDef { id: init as u32, name: iname, roots, callees: icallees };
    let u = TranslationUnit { struct_names, fn_names, structs, functions, init: initd };
    proof {
        assert(marks@ =~= spec_marks(pv, fs, policy));
        assert(pv.funcs[iv] == p.funcs@[iv]@);
        assert(u@.init =~= spec_unit(pv, fs, policy).init);
        assert(u@ =~= spec_unit(pv, fs, policy));
        assert forall|f: int| 0 <= f < nf && reached(pv, fs, policy, iv, f) implies
            fn_sig_supported(#[trigger] pv.funcs[f], f == iv) by {
            assert(marks@[f]);
            if f == iv {
                assert(pv.funcs[iv].params.len() == 0);
            }
        }
        assert(supported_ok(pv, fs, policy, iv));
        assert(translation_ok(pv, fs, policy));
    }
    Ok(u)
}

} // verus!
