//! Data model of the translator.
//!
//! Input side: a read-only view over the type-checked program supplied by the
//! external front end. Per the interned-key design, every cross-reference is
//! an integer index into one owned table: struct `s` is `structs[s]`,
//! function `f` is `funcs[f]`, and method call site `m` resolves through the
//! dispatch table `methods[m]`. All generic parameters are already
//! substituted: the graph is closed and monomorphic, and each distinct
//! instantiation of a generic struct appears as its own entry.
//!
//! Output side: the lowered forms handed to the emitter. Lifetimes are gone,
//! parameter passing modes are explicit, and method calls are resolved to
//! plain function indices.

use vstd::prelude::*;

verus! {

/// A source-level type as the front end reports it. References carry their
/// declared mutability and an optional lifetime annotation (`None` for an
/// elided lifetime); lifetimes are erased during lowering. `Opaque` stands
/// for any construct the front end could not express in this model (trait
/// objects, raw pointers, ...): reaching one is a fatal resolution error.
pub enum SrcType {
    Int,
    Bool,
    Struct(u32),
    Ref(Box<SrcType>, bool, Option<u32>),
    Opaque,
}

/// A lowered type: as `SrcType`, but with lifetimes erased and no
/// unsupported constructs. The downstream tool has no notion of borrow
/// duration, so a reference keeps only its mutability.
pub enum TypeRef {
    Int,
    Bool,
    Struct(u32),
    Ref(Box<TypeRef>, bool),
}

/// How a parameter (or method receiver) is passed.
#[derive(Clone, Copy, Debug, PartialEq, Eq, Structural)]
pub enum ParamMode {
    ByValue,
    ByImmRef,
    ByMutRef,
}

/// One call in a function body: either a direct call to a function index, or
/// a method invocation that must be resolved through the dispatch table.
#[derive(Clone, Copy, Debug, PartialEq, Eq, Structural)]
pub enum CallSite {
    Direct(u32),
    Method(u32),
}

/// Direction of the name filter: an `Exclude` filter drops the functions it
/// names (unless they stay reachable from the initializer), an `Include`
/// filter names the selection roots besides the initializer.
#[derive(Clone, Copy, PartialEq, Eq, Structural)]
pub enum FilterPolicy {
    Exclude,
    Include,
}

/// A struct field as declared: name and source type.
pub struct FieldDecl {
    pub name: String,
    pub ty: SrcType,
}

#[verifier::ext_equal]
pub struct FieldDeclV {
    pub name: Seq<char>,
    pub ty: SrcType,
}

impl View for FieldDecl {
    type V = FieldDeclV;

    open spec fn view(&self) -> FieldDeclV {
        FieldDeclV { name: self.name@, ty: self.ty }
    }
}

/// A function parameter as declared: name and source type. The passing mode
/// is not declared separately; lowering derives it from the type.
pub struct ParamDecl {
    pub name: String,
    pub ty: SrcType,
}

#[verifier::ext_equal]
pub struct ParamDeclV {
    pub name: Seq<char>,
    pub ty: SrcType,
}

impl View for ParamDecl {
    type V = ParamDeclV;

    open spec fn view(&self) -> ParamDeclV {
        ParamDeclV { name: self.name@, ty: self.ty }
    }
}

/// A declared return shape. Ordinary functions return a single type; the
/// designated initializer returns a fixed-arity tuple of struct values.
pub enum RetDecl {
    Single(SrcType),
    Tuple(Vec<SrcType>),
}

#[verifier::ext_equal]
pub enum RetDeclV {
    Single(SrcType),
    Tuple(Seq<SrcType>),
}

impl View for RetDecl {
    type V = RetDeclV;

    open spec fn view(&self) -> RetDeclV {
        match self {
            RetDecl::Single(t) => RetDeclV::Single(*t),
            RetDecl::Tuple(ts) => RetDeclV::Tuple(ts@),
        }
    }
}

/// A struct declaration: name and fields in declaration order. Field order
/// is significant: the downstream tool relies on positional correspondence
/// with any constructor that builds the struct.
pub struct StructDecl {
    pub name: String,
    pub fields: Vec<FieldDecl>,
}

#[verifier::ext_equal]
pub struct StructDeclV {
    pub name: Seq<char>,
    pub fields: Seq<FieldDeclV>,
}

impl View for StructDecl {
    type V = StructDeclV;

    open spec fn view(&self) -> StructDeclV {
        StructDeclV {
            name: self.name@,
            fields: self.fields@.map_values(|f: FieldDecl| f@),
        }
    }
}

/// A function or method declaration. Methods are ordinary functions whose
/// first parameter is the receiver; names of methods on different types may
/// therefore repeat. The body is opaque to the translator beyond the call
/// sites it contains.
pub struct FunctionDecl {
    pub name: String,
    pub params: Vec<ParamDecl>,
    pub ret: RetDecl,
    pub body: Vec<CallSite>,
}

#[verifier::ext_equal]
pub struct FunctionDeclV {
    pub name: Seq<char>,
    pub params: Seq<ParamDeclV>,
    pub ret: RetDeclV,
    pub body: Seq<CallSite>,
}

impl View for FunctionDecl {
    type V = FunctionDeclV;

    open spec fn view(&self) -> FunctionDeclV {
        FunctionDeclV {
            name: self.name@,
            params: self.params@.map_values(|p: ParamDecl| p@),
            ret: self.ret@,
            body: self.body@,
        }
    }
}

/// The whole type-checked program graph, as one owned, index-based store.
/// `methods[m]` is the static resolution of method call site id `m`: `None`
/// means the front end found no static target (would-be dynamic dispatch),
/// which is fatal if reached.
pub struct Program {
    pub structs: Vec<StructDecl>,
    pub funcs: Vec<FunctionDecl>,
    pub methods: Vec<Option<u32>>,
}

#[verifier::ext_equal]
pub struct ProgramV {
    pub structs: Seq<StructDeclV>,
    pub funcs: Seq<FunctionDeclV>,
    pub methods: Seq<Option<u32>>,
}

impl View for Program {
    type V = ProgramV;

    open spec fn view(&self) -> ProgramV {
        ProgramV {
            structs: self.structs@.map_values(|s: StructDecl| s@),
            funcs: self.funcs@.map_values(|f: FunctionDecl| f@),
            methods: self.methods@,
        }
    }
}

/// A source type is index-closed when every struct it mentions is a real
/// entry of the store.
pub open spec fn ty_wf(pv: ProgramV, t: SrcType) -> bool
    decreases t,
{
    match t {
        SrcType::Struct(s) => s < pv.structs.len(),
        SrcType::Ref(inner, _m, _lt) => ty_wf(pv, *inner),
        _ => true,
    }
}

pub open spec fn ret_wf(pv: ProgramV, r: RetDeclV) -> bool {
    match r {
        RetDeclV::Single(t) => ty_wf(pv, t),
        RetDeclV::Tuple(ts) => forall|j: int| 0 <= j < ts.len() ==> ty_wf(pv, #[trigger] ts[j]),
    }
}

pub open spec fn fn_wf(pv: ProgramV, f: FunctionDeclV) -> bool {
    &&& forall|j: int| 0 <= j < f.params.len() ==> ty_wf(pv, (#[trigger] f.params[j]).ty)
    &&& ret_wf(pv, f.ret)
    &&& forall|k: int|
        0 <= k < f.body.len() ==> match #[trigger] f.body[k] {
            CallSite::Direct(c) => c < pv.funcs.len(),
            CallSite::Method(m) => m < pv.methods.len(),
        }
}

/// Integrity of the program graph: every index stored anywhere is in range,
/// struct names are distinct (each instantiation has its own interned name),
/// and the node count fits the machine. The front end guarantees all of
/// this; the translator requires it and never re-checks it.
pub open spec fn wf(pv: ProgramV) -> bool {
    &&& forall|s: int|
        0 <= s < pv.structs.len() ==> {
            let fs = (#[trigger] pv.structs[s]).fields;
            forall|j: int| 0 <= j < fs.len() ==> ty_wf(pv, (#[trigger] fs[j]).ty)
        }
    &&& forall|f: int| 0 <= f < pv.funcs.len() ==> fn_wf(pv, #[trigger] pv.funcs[f])
    &&& forall|m: int|
        0 <= m < pv.methods.len() ==> match #[trigger] pv.methods[m] {
            Option::Some(t) => t < pv.funcs.len(),
            Option::None => true,
        }
    &&& forall|i: int, j: int|
        0 <= i < j < pv.structs.len() ==> pv.structs[i].name != pv.structs[j].name
    &&& pv.funcs.len() <= u32::MAX
    &&& pv.structs.len() <= u32::MAX
    &&& pv.funcs.len() + pv.structs.len() <= usize::MAX
}

} // verus!

verus! {

/// Check one type's indices against the store.
pub fn ty_wf_exec(p: &Program, t: &SrcType) -> (r: bool)
    ensures
        r == ty_wf(p@, *t),
    decreases *t,
{
    match t {
        SrcType::Struct(s) => (*s as usize) < p.structs.len(),
        SrcType::Ref(inner, _m, _lt) => ty_wf_exec(p, inner),
        _ => true,
    }
}

/// Check a declared return shape.
fn ret_wf_exec(p: &Program, r0: &RetDecl) -> (r: bool)
    ensures
        r == ret_wf(p@, r0@),
{
    match r0 {
        RetDecl::Single(t) => ty_wf_exec(p, t),
        RetDecl::Tuple(ts) => {
            let n = ts.len();
            for j in 0..n
                invariant
                    n == ts@.len(),
                    r0@ == RetDeclV::Tuple(ts@),
                    forall|j2: int| 0 <= j2 < j ==> ty_wf(p@, #[trigger] ts@[j2]),
            {
                if !ty_wf_exec(p, &ts[j]) {
                    proof {
                        assert(r0@ == RetDeclV::Tuple(ts@));
                        if ret_wf(p@, r0@) {
                            assert(r0@->Tuple_0 == ts@);
                            assert(ty_wf(p@, (r0@->Tuple_0)[j as int]));
                        }
                    }
                    return false;
                }
            }
            proof {
                assert(r0@ == RetDeclV::Tuple(ts@));
            }
            true
        },
    }
}

/// Check one function declaration's indices.
fn fn_wf_exec(p: &Program, fd: &FunctionDecl) -> (r: bool)
    ensures
        r == fn_wf(p@, fd@),
{
    let np = fd.params.len();
    for j in 0..np
        invariant
            np == fd.params@.len(),
            forall|j2: int| 0 <= j2 < j ==> ty_wf(p@, (#[trigger] fd@.params[j2]).ty),
    {
        proof {
            assert(fd@.params[j as int].ty == fd.params@[j as int].ty);
        }
        if !ty_wf_exec(p, &fd.params[j].ty) {
            return false;
        }
    }
    if !ret_wf_exec(p, &fd.ret) {
        return false;
    }
    let nb = fd.body.len();
    for k in 0..nb
        invariant
            nb == fd.body@.len(),
            forall|j2: int| 0 <= j2 < fd@.params.len() ==> ty_wf(p@, (#[trigger] fd@.params[j2]).ty),
            ret_wf(p@, fd@.ret),
            forall|k2: int|
                0 <= k2 < k ==> match #[trigger] fd@.body[k2] {
                    CallSite::Direct(c) => c < p@.funcs.len(),
                    CallSite::Method(m) => m < p@.methods.len(),
                },
    {
        let ok = match fd.body[k] {
            CallSite::Direct(c) => (c as usize) < p.funcs.len(),
            CallSite::Method(m) => (m as usize) < p.methods.len(),
        };
        if !ok {
            return false;
        }
    }
    true
}

/// Check one struct declaration's field types.
fn struct_wf_exec(p: &Program, sd: &StructDecl) -> (r: bool)
    ensures
        r == (forall|j: int|
            0 <= j < sd@.fields.len() ==> ty_wf(p@, (#[trigger] sd@.fields[j]).ty)),
{
    let n = sd.fields.len();
    for j in 0..n
        invariant
            n == sd.fields@.len(),
            forall|j2: int| 0 <= j2 < j ==> ty_wf(p@, (#[trigger] sd@.fields[j2]).ty),
    {
        proof {
            assert(sd@.fields[j as int].ty == sd.fields@[j as int].ty);
        }
        if !ty_wf_exec(p, &sd.fields[j].ty) {
            return false;
        }
    }
    true
}

/// Decide graph integrity at run time, so that an unverified caller (the
/// driver around the front end) can establish the translator's
/// precondition before invoking it.
pub fn check_wf(p: &Program) -> (r: bool)
    ensures
        r == wf(p@),
{
    let ghost pv = p@;
    let ns = p.structs.len();
    let nf = p.funcs.len();
    let nm = p.methods.len();
    if nf > u32::MAX as usize || ns > u32::MAX as usize {
        return false;
    }
    if ns > usize::MAX - nf {
        return false;
    }
    for s in 0..ns
        invariant
            pv == p@,
            ns == pv.structs.len(),
            forall|s2: int|
                0 <= s2 < s ==> {
                    let fs = (#[trigger] pv.structs[s2]).fields;
                    forall|j: int| 0 <= j < fs.len() ==> ty_wf(pv, (#[trigger] fs[j]).ty)
                },
    {
        proof {
            assert(pv.structs[s as int] == p.structs@[s as int]@);
        }
        if !struct_wf_exec(p, &p.structs[s]) {
            return false;
        }
    }
    for f in 0..nf
        invariant
            pv == p@,
            nf == pv.funcs.len(),
            forall|f2: int| 0 <= f2 < f ==> fn_wf(pv, #[trigger] pv.funcs[f2]),
    {
        proof {
            assert(pv.funcs[f as int] == p.funcs@[f as int]@);
        }
        if !fn_wf_exec(p, &p.funcs[f]) {
            return false;
        }
    }
    for m in 0..nm
        invariant
            pv == p@,
            nm == pv.methods.len(),
            nf == pv.funcs.len(),
            forall|m2: int|
                0 <= m2 < m ==> match #[trigger] pv.methods[m2] {
                    Some(t) => t < pv.funcs.len(),
                    None => true,
                },
    {
        let ok = match p.methods[m] {
            Some(t) => (t as usize) < nf,
            None => true,
        };
        if !ok {
            return false;
        }
    }
    for i in 0..ns
        invariant
            pv == p@,
            ns == pv.structs.len(),
            forall|i2: int, j2: int|
                0 <= i2 < i && i2 < j2 < ns ==> (#[trigger] pv.structs[i2]).name != (
                #[trigger] pv.structs[j2]).name,
    {
        let upper = ns;
        for j in (i + 1)..upper
            invariant
                pv == p@,
                ns == pv.structs.len(),
                upper == ns,
                i < ns,
                forall|i2: int, j2: int|
                    0 <= i2 < i && i2 < j2 < ns ==> (#[trigger] pv.structs[i2]).name != (
                    #[trigger] pv.structs[j2]).name,
                forall|j2: int|
                    i < j2 < j ==> pv.structs[i as int].name != (#[trigger] pv.structs[j2]).name,
        {
            proof {
                assert(pv.structs[i as int].name == p.structs@[i as int].name@);
                assert(pv.structs[j as int].name == p.structs@[j as int].name@);
            }
            if p.structs[i].name.eq(&p.structs[j].name) {
                return false;
            }
        }
    }
    true
}

} // verus!
