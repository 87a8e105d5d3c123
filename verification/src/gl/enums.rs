use vstd::prelude::*;

verus! {

/// How a buffer's data is used.
#[derive(Debug, Clone, Copy, PartialEq, Eq, PartialOrd, Ord, Hash, Structural)]
pub enum BufferUsage {
    StreamDraw,
    StreamRead,
    StaticDraw,
    StaticRead,
    DynamicDraw,
    DynamicRead,
}

/// The type of the indices in an element buffer.
#[derive(Debug, Copy, Clone, PartialEq, Eq, Structural)]
pub enum ElementType {
    U16,
    U32,
}

impl ElementType {
    /// The size of one index in bytes.
    pub open spec fn spec_size(self) -> nat {
        match self {
            ElementType::U16 => 2,
            ElementType::U32 => 4,
        }
    }

    /// The size of one index in bytes.
    pub fn size(self) -> (r: usize)
        ensures
            r == self.spec_size(),
    {
        match self {
            ElementType::U16 => 2,
            ElementType::U32 => 4,
        }
    }
}

/// The kind of primitives that vertices make up.
#[derive(Debug, Copy, Clone, PartialEq, Eq, PartialOrd, Ord, Hash, Structural)]
pub enum GeometryType {
    Points,
    Lines,
    LineStrip,
    LineLoop,
    Triangles,
    TriangleStrip,
    TriangleFan,
}

} // verus!
