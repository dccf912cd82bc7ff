//! Lowered output forms, lifetime erasure, and parameter-mode derivation.
//!
//! Lowering a type erases every lifetime annotation: the downstream tool has
//! no notion of borrow duration, so two programs differing only in lifetime
//! annotations lower identically. A parameter's passing mode is derived from
//! its declared type: a reference passes its pointee by reference, with the
//! declared mutability; anything else is passed by value.

use vstd::prelude::*;
use crate::model::{ParamDecl, ParamDeclV, ParamMode, SrcType, TypeRef};

verus! {

/// A lowered struct field.
pub struct FieldDef {
    pub name: String,
    pub ty: TypeRef,
}

#[verifier::ext_equal]
pub struct FieldDefV {
    pub name: Seq<char>,
    pub ty: TypeRef,
}

impl View for FieldDef {
    type V = FieldDefV;

    open spec fn view(&self) -> FieldDefV {
        FieldDefV { name: self.name@, ty: self.ty }
    }
}

/// A lowered parameter: name, lowered type, and passing mode. For a
/// reference parameter `ty` is the lowered pointee.
pub struct ParamDef {
    pub name: String,
    pub ty: TypeRef,
    pub mode: ParamMode,
}

#[verifier::ext_equal]
pub struct ParamDefV {
    pub name: Seq<char>,
    pub ty: TypeRef,
    pub mode: ParamMode,
}

impl View for ParamDef {
    type V = ParamDefV;

    open spec fn view(&self) -> ParamDefV {
        ParamDefV { name: self.name@, ty: self.ty, mode: self.mode }
    }
}

/// A lowered struct: its interned key in the program graph, its name, and
/// its fields in declaration order. Each distinct instantiation is emitted
/// at most once, so `id` is unique across a translation unit.
pub struct StructDef {
    pub id: u32,
    pub name: String,
    pub fields: Vec<FieldDef>,
}

#[verifier::ext_equal]
pub struct StructDefV {
    pub id: u32,
    pub name: Seq<char>,
    pub fields: Seq<FieldDefV>,
}

impl View for StructDef {
    type V = StructDefV;

    open spec fn view(&self) -> StructDefV {
        StructDefV {
            id: self.id,
            name: self.name@,
            fields: self.fields@.map_values(|f: FieldDef| f@),
        }
    }
}

/// A lowered function: its index in the program graph, normalized
/// signature, and body calls resolved to plain function indices, in body
/// order.
pub struct FunctionDef {
    pub id: u32,
    pub name: String,
    pub params: Vec<ParamDef>,
    pub ret: TypeRef,
    pub callees: Vec<u32>,
}

#[verifier::ext_equal]
pub struct FunctionDefV {
    pub id: u32,
    pub name: Seq<char>,
    pub params: Seq<ParamDefV>,
    pub ret: TypeRef,
    pub callees: Seq<u32>,
}

impl View for FunctionDef {
    type V = FunctionDefV;

    open spec fn view(&self) -> FunctionDefV {
        FunctionDefV {
            id: self.id,
            name: self.name@,
            params: self.params@.map_values(|p: ParamDef| p@),
            ret: self.ret,
            callees: self.callees@,
        }
    }
}

/// The designated initializer, lowered: it has no parameters, and its
/// return tuple's elements become the root structs of the initial harness
/// state, in tuple order.
pub struct InitDef {
    pub id: u32,
    pub name: String,
    pub roots: Vec<u32>,
    pub callees: Vec<u32>,
}

#[verifier::ext_equal]
pub struct InitDefV {
    pub id: u32,
    pub name: Seq<char>,
    pub roots: Seq<u32>,
    pub callees: Seq<u32>,
}

impl View for InitDef {
    type V = InitDefV;

    open spec fn view(&self) -> InitDefV {
        InitDefV {
            id: self.id,
            name: self.name@,
            roots: self.roots@,
            callees: self.callees@,
        }
    }
}

/// Whether a source type survives lowering: everything but an opaque
/// construct does.
pub open spec fn ty_supported(t: SrcType) -> bool
    decreases t,
{
    match t {
        SrcType::Opaque => false,
        SrcType::Ref(inner, _m, _lt) => ty_supported(*inner),
        _ => true,
    }
}

/// Lifetime erasure on one type. Total for convenience; only supported
/// types are ever lowered, so the image of `Opaque` never reaches output.
pub open spec fn erase_ty(t: SrcType) -> TypeRef
    decreases t,
{
    match t {
        SrcType::Int => TypeRef::Int,
        SrcType::Bool => TypeRef::Bool,
        SrcType::Struct(s) => TypeRef::Struct(s),
        SrcType::Ref(inner, m, _lt) => TypeRef::Ref(Box::new(erase_ty(*inner)), m),
        SrcType::Opaque => TypeRef::Int,
    }
}

/// The passing mode a declared parameter type induces.
pub open spec fn mode_of(t: SrcType) -> ParamMode {
    match t {
        SrcType::Ref(_inner, m, _lt) => if m {
            ParamMode::ByMutRef
        } else {
            ParamMode::ByImmRef
        },
        _ => ParamMode::ByValue,
    }
}

/// The lowered type a declared parameter type induces: the pointee for a
/// reference, the type itself otherwise.
pub open spec fn param_ty_of(t: SrcType) -> TypeRef {
    match t {
        SrcType::Ref(inner, _m, _lt) => erase_ty(*inner),
        _ => erase_ty(t),
    }
}

/// One lowered parameter.
pub open spec fn spec_lower_param(p: ParamDeclV) -> ParamDefV {
    ParamDefV { name: p.name, ty: param_ty_of(p.ty), mode: mode_of(p.ty) }
}

/// Does the lowered type `t` mention struct `s`?
pub open spec fn ty_mentions(t: SrcType, s: int) -> bool
    decreases t,
{
    match t {
        SrcType::Struct(id) => id == s,
        SrcType::Ref(inner, _m, _lt) => ty_mentions(*inner, s),
        _ => false,
    }
}

/// Check that a type survives lowering.
pub fn ty_supported_exec(t: &SrcType) -> (r: bool)
    ensures
        r == ty_supported(*t),
    decreases *t,
{
    match t {
        SrcType::Opaque => false,
        SrcType::Ref(inner, _m, _lt) => ty_supported_exec(inner),
        _ => true,
    }
}

/// Erase the lifetimes of a supported type.
pub fn erase(t: &SrcType) -> (r: TypeRef)
    ensures
        r == erase_ty(*t),
    decreases *t,
{
    match t {
        SrcType::Int => TypeRef::Int,
        SrcType::Bool => TypeRef::Bool,
        SrcType::Struct(s) => TypeRef::Struct(*s),
        SrcType::Ref(inner, m, _lt) => TypeRef::Ref(Box::new(erase(inner)), *m),
        SrcType::Opaque => TypeRef::Int,
    }
}

/// Lower one declared parameter: derive its passing mode and erase its
/// type.
pub fn lower_param(p: &ParamDecl) -> (r: ParamDef)
    ensures
        r@ == spec_lower_param(p@),
{
    let name = p.name.clone();
    match &p.ty {
        SrcType::Ref(inner, m, _lt) => ParamDef {
            name,
            ty: erase(inner),
            mode: if *m {
                ParamMode::ByMutRef
            } else {
                ParamMode::ByImmRef
            },
        },
        _ => ParamDef { name, ty: erase(&p.ty), mode: ParamMode::ByValue },
    }
}

} // verus!
