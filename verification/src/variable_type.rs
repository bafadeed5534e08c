//! Types of variables.

use vstd::prelude::*;

verus! {

#[derive(Debug, Clone, Copy, PartialEq, Eq, Structural)]
pub enum Primitive {
    Text,
    Number,
    Bool,
}

#[derive(Debug)]
pub enum VariableType {
    Any,
    Primitive(Primitive),
    ListOf(Box<VariableType>),
    SetOf(Box<VariableType>),
    MapOf(Box<VariableType>),
    Tuple(Vec<VariableType>),
    /// The fields, no name twice, each with its type and how that is written.
    Object(Vec<(String, InferredType)>),
}

/// A type and how it is written in a configuration.
#[derive(Debug)]
pub struct InferredType {
    pub ty: VariableType,
    pub text: String,
}

/// The type is concrete enough to be written into a configuration: not `any`,
/// and not the shape of an empty list or an empty object.
pub open spec fn actionable(ty: VariableType) -> bool {
    match ty {
        VariableType::Any => false,
        VariableType::Tuple(items) => items@.len() > 0,
        VariableType::Object(fields) => fields@.len() > 0,
        _ => true,
    }
}

pub fn is_actionable_inference(ty: &VariableType) -> (r: bool)
    ensures
        r == actionable(*ty),
{
    match ty {
        VariableType::Any => false,
        VariableType::Tuple(items) => items.len() > 0,
        VariableType::Object(fields) => fields.len() > 0,
        _ => true,
    }
}

} // verus!
