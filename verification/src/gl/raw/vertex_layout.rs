use vstd::prelude::*;

use crate::dag::BuiltInType;

verus! {

/// The type of the components of a vertex attribute.
#[derive(Debug, Copy, Clone, PartialEq, Eq, Structural)]
pub enum VertexAttributeType {
    F32,
    I32,
    U32,
}

impl VertexAttributeType {
    /// The size of one component in bytes: each of the three types has four.
    pub fn size(self) -> (r: usize)
        ensures
            r == 4,
    {
        match self {
            VertexAttributeType::F32 => 4,
            VertexAttributeType::I32 => 4,
            VertexAttributeType::U32 => 4,
        }
    }
}

/// How a vertex attribute is laid out: the type of its components, how many
/// components one location holds, and how many locations it takes.
pub struct VertexAttributeLayout {
    pub ty: VertexAttributeType,
    pub components: usize,
    pub locations: usize,
}

/// The layout of an attribute of type `ty`, if it can be one: `(type,
/// components, locations)`. Booleans are passed as unsigned integers, a
/// matrix takes one location per column, and boolean vectors and samplers
/// cannot be attributes.
pub open spec fn attribute_layout(ty: BuiltInType) -> Option<(VertexAttributeType, nat, nat)> {
    match ty {
        BuiltInType::F32 => Some((VertexAttributeType::F32, 1, 1)),
        BuiltInType::I32 => Some((VertexAttributeType::I32, 1, 1)),
        BuiltInType::U32 => Some((VertexAttributeType::U32, 1, 1)),
        BuiltInType::Bool => Some((VertexAttributeType::U32, 1, 1)),
        BuiltInType::Vec2 => Some((VertexAttributeType::F32, 2, 1)),
        BuiltInType::IVec2 => Some((VertexAttributeType::I32, 2, 1)),
        BuiltInType::UVec2 => Some((VertexAttributeType::U32, 2, 1)),
        BuiltInType::Vec3 => Some((VertexAttributeType::F32, 3, 1)),
        BuiltInType::IVec3 => Some((VertexAttributeType::I32, 3, 1)),
        BuiltInType::UVec3 => Some((VertexAttributeType::U32, 3, 1)),
        BuiltInType::Vec4 => Some((VertexAttributeType::F32, 4, 1)),
        BuiltInType::IVec4 => Some((VertexAttributeType::I32, 4, 1)),
        BuiltInType::UVec4 => Some((VertexAttributeType::U32, 4, 1)),
        BuiltInType::Mat2 => Some((VertexAttributeType::F32, 2, 2)),
        BuiltInType::Mat3 => Some((VertexAttributeType::F32, 3, 3)),
        BuiltInType::Mat4 => Some((VertexAttributeType::F32, 4, 4)),
        _ => None,
    }
}

/// An attribute's components have the scalar kind of its type: signed
/// integer scalars and vectors are read as `I32`, unsigned ones and booleans
/// as `U32`, float scalars, vectors and matrices as `F32`. A scalar or a
/// vector takes one location with as many components as it has; an `N`×`N`
/// matrix takes `N` locations of `N` components, one per column.
pub proof fn lemma_layout_matches_type(ty: BuiltInType)
    ensures
        (ty is I32 || ty is IVec2 || ty is IVec3 || ty is IVec4) ==> (attribute_layout(ty) matches Some((t, _, _))
            && t == VertexAttributeType::I32),
        (ty is U32 || ty is Bool || ty is UVec2 || ty is UVec3 || ty is UVec4) ==> (attribute_layout(ty) matches Some(
            (t, _, _),
        ) && t == VertexAttributeType::U32),
        (ty is F32 || ty is Vec2 || ty is Vec3 || ty is Vec4 || ty is Mat2 || ty is Mat3 || ty is Mat4) ==> (
        attribute_layout(ty) matches Some((t, _, _)) && t == VertexAttributeType::F32),
        (ty is F32 || ty is I32 || ty is U32 || ty is Bool) ==> (attribute_layout(ty) matches Some((_, c, l)) && c
            == 1 && l == 1),
        (ty is Vec2 || ty is IVec2 || ty is UVec2) ==> (attribute_layout(ty) matches Some((_, c, l)) && c == 2 && l
            == 1),
        (ty is Vec3 || ty is IVec3 || ty is UVec3) ==> (attribute_layout(ty) matches Some((_, c, l)) && c == 3 && l
            == 1),
        (ty is Vec4 || ty is IVec4 || ty is UVec4) ==> (attribute_layout(ty) matches Some((_, c, l)) && c == 4 && l
            == 1),
        ty is Mat2 ==> (attribute_layout(ty) matches Some((_, c, l)) && c == 2 && l == 2),
        ty is Mat3 ==> (attribute_layout(ty) matches Some((_, c, l)) && c == 3 && l == 3),
        ty is Mat4 ==> (attribute_layout(ty) matches Some((_, c, l)) && c == 4 && l == 4),
        (ty is BVec2 || ty is BVec3 || ty is BVec4 || ty is Sampler) <==> attribute_layout(ty) is None,
{
}

impl VertexAttributeLayout {
    /// The layout of an attribute of type `ty`; an error for boolean vectors
    /// and samplers.
    pub fn new(ty: BuiltInType) -> (r: Result<Self, String>)
        ensures
            match attribute_layout(ty) {
                Some((t, c, l)) => r matches Ok(lay) && lay.ty == t && lay.components == c && lay.locations == l,
                None => r is Err,
            },
            (ty is BVec2 || ty is BVec3 || ty is BVec4) ==> (r matches Err(e) && e@
                == "boolean vectors are not supported"@),
            ty is Sampler ==> (r matches Err(e) && e@ == "sampler types are not supported"@),
    {
        let (t, components, locations): (VertexAttributeType, usize, usize) = match ty {
            BuiltInType::F32 => (VertexAttributeType::F32, 1, 1),
            BuiltInType::I32 => (VertexAttributeType::I32, 1, 1),
            BuiltInType::U32 => (VertexAttributeType::U32, 1, 1),
            BuiltInType::Bool => (VertexAttributeType::U32, 1, 1),
            BuiltInType::Vec2 => (VertexAttributeType::F32, 2, 1),
            BuiltInType::IVec2 => (VertexAttributeType::I32, 2, 1),
            BuiltInType::UVec2 => (VertexAttributeType::U32, 2, 1),
            BuiltInType::Vec3 => (VertexAttributeType::F32, 3, 1),
            BuiltInType::IVec3 => (VertexAttributeType::I32, 3, 1),
            BuiltInType::UVec3 => (VertexAttributeType::U32, 3, 1),
            BuiltInType::Vec4 => (VertexAttributeType::F32, 4, 1),
            BuiltInType::IVec4 => (VertexAttributeType::I32, 4, 1),
            BuiltInType::UVec4 => (VertexAttributeType::U32, 4, 1),
            BuiltInType::Mat2 => (VertexAttributeType::F32, 2, 2),
            BuiltInType::Mat3 => (VertexAttributeType::F32, 3, 3),
            BuiltInType::Mat4 => (VertexAttributeType::F32, 4, 4),
            BuiltInType::BVec2 | BuiltInType::BVec3 | BuiltInType::BVec4 => {
                return Err(String::from_str("boolean vectors are not supported"));
            },
            BuiltInType::Sampler(_) => {
                return Err(String::from_str("sampler types are not supported"));
            },
        };
        Ok(VertexAttributeLayout { ty: t, components, locations })
    }

    /// The number of bytes that one location of the attribute takes.
    pub fn location_size(&self) -> (r: usize)
        requires
            self.components * 4 <= usize::MAX,
        ensures
            r == self.components * 4,
    {
        self.components * self.ty.size()
    }
}

} // verus!
