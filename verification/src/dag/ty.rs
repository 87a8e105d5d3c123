use vstd::prelude::*;

verus! {

#[derive(Debug, Copy, Clone, PartialEq, Eq, Structural)]
pub enum SamplerType {
    Sampler2d,
}

#[derive(Debug, Copy, Clone, PartialEq, Eq, Structural)]
pub enum BuiltInType {
    F32,
    I32,
    U32,
    Bool,
    Vec2,
    IVec2,
    UVec2,
    BVec2,
    Vec3,
    IVec3,
    UVec3,
    BVec3,
    Vec4,
    IVec4,
    UVec4,
    BVec4,
    Mat2,
    Mat3,
    Mat4,
    Sampler(SamplerType),
}

impl BuiltInType {
    pub open spec fn spec_is_mat(self) -> bool {
        self is Mat2 || self is Mat3 || self is Mat4
    }

    /// Whether the type is one of the matrix types.
    pub fn is_mat(&self) -> (r: bool)
        ensures
            r == self.spec_is_mat(),
    {
        match self {
            BuiltInType::Mat2 => true,
            BuiltInType::Mat3 => true,
            BuiltInType::Mat4 => true,
            _ => false,
        }
    }

    /// Whether values of the type can be stored and copied freely (all but
    /// samplers).
    pub fn is_transparent(&self) -> (r: bool)
        ensures
            r == !(self is Sampler),
    {
        match self {
            BuiltInType::Sampler(_) => false,
            _ => true,
        }
    }
}

/// A user-defined struct. Its fields' struct types are given by their index
/// in the graph that holds the struct.
#[derive(Debug)]
pub struct StructType {
    pub name: String,
    pub fields: Vec<(String, Type)>,
}

/// A type of the shading language. A struct type is given by its index among
/// the struct definitions of an expression graph, which is its identity.
#[derive(Debug)]
pub enum Type {
    BuiltIn(BuiltInType),
    Struct(usize),
    Array(Box<Type>, usize),
}

/// Every struct index inside `ty` is below `n`.
pub open spec fn type_refs_below(ty: Type, n: int) -> bool
    decreases ty,
{
    match ty {
        Type::BuiltIn(_) => true,
        Type::Struct(id) => id < n,
        Type::Array(elem, _) => type_refs_below(*elem, n),
    }
}

/// Whether `ty` is transparent: built-in types other than samplers, structs,
/// and arrays of transparent types.
pub open spec fn spec_is_transparent(ty: Type) -> bool
    decreases ty,
{
    match ty {
        Type::BuiltIn(b) => !(b is Sampler),
        Type::Struct(_) => true,
        Type::Array(elem, _) => spec_is_transparent(*elem),
    }
}

impl Clone for Type {
    fn clone(&self) -> (r: Self)
        ensures
            r == *self,
        decreases self,
    {
        match self {
            Type::BuiltIn(b) => Type::BuiltIn(*b),
            Type::Struct(id) => Type::Struct(*id),
            Type::Array(elem, n) => Type::Array(Box::new((**elem).clone()), *n),
        }
    }
}

impl PartialEq for Type {
    fn eq(&self, other: &Type) -> (r: bool) {
        self.same_as(other)
    }
}

impl vstd::std_specs::cmp::PartialEqSpecImpl for Type {
    open spec fn obeys_eq_spec() -> bool {
        true
    }

    open spec fn eq_spec(&self, other: &Type) -> bool {
        *self == *other
    }
}

impl Eq for Type {

}

impl Type {
    /// Whether values of the type can be stored and copied freely.
    pub fn is_transparent(&self) -> (r: bool)
        ensures
            r == spec_is_transparent(*self),
        decreases self,
    {
        match self {
            Type::BuiltIn(ty) => ty.is_transparent(),
            Type::Struct(_) => true,
            Type::Array(ty, _) => ty.is_transparent(),
        }
    }

    /// The built-in type, if this is one.
    pub fn built_in_type(&self) -> (r: Option<BuiltInType>)
        ensures
            r == (match *self {
                Type::BuiltIn(b) => Some(b),
                _ => None,
            }),
    {
        match self {
            Type::BuiltIn(ty) => Some(*ty),
            _ => None,
        }
    }

    /// Structural equality; two struct types are equal when they are the same
    /// definition.
    pub fn same_as(&self, other: &Type) -> (r: bool)
        ensures
            r == (*self == *other),
        decreases self,
    {
        match (self, other) {
            (Type::BuiltIn(a), Type::BuiltIn(b)) => *a == *b,
            (Type::Struct(a), Type::Struct(b)) => *a == *b,
            (Type::Array(a, n), Type::Array(b, m)) => *n == *m && (**a).same_as(&**b),
            _ => false,
        }
    }
}

} // verus!
