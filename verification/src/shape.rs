//! The structural description of a declared type.

use vstd::prelude::*;

verus! {

/// How a struct body or an enum variant holds its fields: named fields,
/// unnamed (tuple) fields of which only the count matters, or none at all.
pub enum VariantData {
    /// Named fields, by name, in declaration order.
    Struct(Vec<String>),
    /// Unnamed fields; the generator only needs how many there are.
    Tuple(usize),
    /// No fields.
    Unit,
}

/// One variant of a tagged union: its name and the shape of its fields.
pub struct Variant {
    pub ident: String,
    pub data: VariantData,
}

/// The body of a type declaration: a lone struct body, or a list of variants.
pub enum Body {
    Struct(VariantData),
    Enum(Vec<Variant>),
}

/// The structural shape of a declared type: its name and its body.
pub struct TypeShape {
    pub ident: String,
    pub body: Body,
}

/// A shape the generator accepts. An enum must declare at least one variant:
/// the generated code draws a selector modulo the variant count and falls
/// back to the first variant, neither of which exists for an empty enum.
pub open spec fn shape_wf(s: TypeShape) -> bool {
    match s.body {
        Body::Struct(_) => true,
        Body::Enum(vs) => vs@.len() >= 1,
    }
}

} // verus!
