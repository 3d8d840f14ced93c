//! How Bolt types are written in the generated C code.
use vstd::prelude::*;
use crate::ast::{group_ast_models, type_model, types_model, SpecType, Type};
use crate::text::{owned, seq_join, strings_model};
use super::monomorphization::{spec_mangled_name, MonomorphicType};

verus! {

broadcast use group_ast_models;

/// Names of a list of types, as used inside mangled names.
pub open spec fn simple_names(ts: Seq<SpecType>) -> Seq<Seq<char>>
    decreases ts, 0nat,
{
    if ts.len() == 0 {
        Seq::empty()
    } else {
        simple_names(ts.subrange(0, ts.len() - 1)).push(spec_simple_name(ts[ts.len() - 1]))
    }
}

/// The name of a type inside a mangled name: `Integer`, `Ptr_String`,
/// `Array_Bool`, `Result_String_Integer`, ...
pub open spec fn spec_simple_name(t: SpecType) -> Seq<char>
    decreases t, 1nat,
{
    match t {
        SpecType::Integer => "Integer"@,
        SpecType::String => "String"@,
        SpecType::Bool => "Bool"@,
        SpecType::Custom(n) => n,
        SpecType::Generic { name, type_params } => spec_mangled_name(
            name,
            simple_names(type_params),
        ),
        SpecType::Pointer(inner) => "Ptr_"@ + spec_simple_name(*inner),
        SpecType::TypeParameter(p) => p,
        SpecType::Array(inner) => "Array_"@ + spec_simple_name(*inner),
    }
}

/// The C spelling of a type.
pub open spec fn spec_c_type(t: SpecType) -> Seq<char>
    decreases t,
{
    match t {
        SpecType::Integer => "int"@,
        SpecType::String => "char*"@,
        SpecType::Bool => "int"@,
        SpecType::Pointer(inner) => spec_c_type(*inner) + "*"@,
        SpecType::Custom(n) => n,
        SpecType::Generic { name, type_params } => spec_mangled_name(
            name,
            simple_names(type_params),
        ),
        SpecType::TypeParameter(p) => p,
        SpecType::Array(inner) => spec_c_type(*inner) + "*"@,
    }
}

/// The C default value of a type.
pub open spec fn spec_c_default(t: SpecType) -> Seq<char> {
    match t {
        SpecType::Integer | SpecType::Bool => "0"@,
        SpecType::String => "\"\""@,
        SpecType::Pointer(_) => "NULL"@,
        SpecType::Custom(_) | SpecType::Generic { .. } => "{}"@,
        SpecType::TypeParameter(_) => "0"@,
        SpecType::Array(_) => "NULL"@,
    }
}

pub broadcast proof fn lemma_simple_names(ts: Seq<SpecType>)
    ensures
        (#[trigger] simple_names(ts)).len() == ts.len(),
        forall|i: int|
            0 <= i < ts.len() ==> simple_names(ts)[i] == spec_simple_name(#[trigger] ts[i]),
    decreases ts.len(),
{
    if ts.len() > 0 {
        let pre = ts.subrange(0, ts.len() - 1);
        lemma_simple_names(pre);
        assert forall|i: int| 0 <= i < ts.len() - 1 implies #[trigger] ts[i] == pre[i] by {}
    }
}

/// Simple names of each type of `ts`.
fn simple_names_of(ts: &Vec<Type>) -> (res: Vec<String>)
    ensures
        strings_model(res@) == simple_names(types_model(ts@)),
    decreases ts@, 0nat,
{
    broadcast use lemma_simple_names;

    let mut res: Vec<String> = Vec::new();
    let mut i: usize = 0;
    while i < ts.len()
        invariant
            i <= ts.len(),
            res@.len() == i,
            forall|j: int| 0 <= j < i ==> (#[trigger] res@[j])@ == spec_simple_name(ts@[j]@),
        decreases ts.len() - i,
    {
        proof {
            assert(decreases_to!(ts@ => ts@[i as int]));
        }
        let n = type_to_simple_name(&ts[i]);
        res.push(n);
        i = i + 1;
    }
    assert(strings_model(res@) =~= simple_names(types_model(ts@)));
    res
}

/// Convert an AST type to its C spelling.
pub fn type_to_c_string(t: &Type) -> (res: String)
    ensures
        res@ == spec_c_type(t@),
    decreases t,
{
    match t {
        Type::Integer => owned("int"),
        Type::String => owned("char*"),
        Type::Bool => owned("int"),
        Type::Pointer(inner) => {
            let mut s = type_to_c_string(&**inner);
            s.append("*");
            s
        },
        Type::Custom(name) => name.clone(),
        Type::Generic { name, type_params } => {
            let names = simple_names_of(type_params);
            MonomorphicType::new(name.clone(), names).mangled_name()
        },
        Type::TypeParameter(param) => param.clone(),
        Type::Array(inner) => {
            let mut s = type_to_c_string(&**inner);
            s.append("*");
            s
        },
    }
}

/// Convert a type to the name used for it inside mangled names.
pub fn type_to_simple_name(t: &Type) -> (res: String)
    ensures
        res@ == spec_simple_name(t@),
    decreases t, 1nat,
{
    match t {
        Type::Integer => owned("Integer"),
        Type::String => owned("String"),
        Type::Bool => owned("Bool"),
        Type::Custom(n) => n.clone(),
        Type::Generic { name, type_params } => {
            let names = simple_names_of(type_params);
            MonomorphicType::new(name.clone(), names).mangled_name()
        },
        Type::Pointer(inner) => {
            let mut s = owned("Ptr_");
            let n = type_to_simple_name(&**inner);
            s.append(n.as_str());
            s
        },
        Type::TypeParameter(param) => param.clone(),
        Type::Array(inner) => {
            let mut s = owned("Array_");
            let n = type_to_simple_name(&**inner);
            s.append(n.as_str());
            s
        },
    }
}

/// The default value of a C type.
pub fn get_c_type_default(t: &Type) -> (res: String)
    ensures
        res@ == spec_c_default(t@),
{
    match t {
        Type::Integer | Type::Bool => owned("0"),
        Type::String => owned("\"\""),
        Type::Pointer(_) => owned("NULL"),
        Type::Custom(_) | Type::Generic { .. } => owned("{}"),
        Type::TypeParameter(_) => owned("0"),
        Type::Array(_) => owned("NULL"),
    }
}

} // verus!
