use vstd::prelude::*;

use super::enums::ElementType;
use super::raw::buffer::Buffer;

verus! {

/// A buffer of indices of one element type.
pub struct ElementBuffer {
    raw: Buffer,
    ty: ElementType,
}

/// A range of the indices of an element buffer, as a draw reads them.
#[derive(Debug, Clone, Copy, PartialEq, Eq)]
pub struct ElementBufferBinding {
    pub buffer_id: u32,
    pub ty: ElementType,
    pub range: (usize, usize),
}

impl ElementBuffer {
    /// An element buffer of type `ty` over the bytes of `raw`, which hold a
    /// whole number of indices.
    pub fn from_raw(raw: Buffer, ty: ElementType) -> (r: Self)
        requires
            raw.len_view() as nat % ty.spec_size() == 0,
        ensures
            r.raw_view() == raw,
            r.ty_view() == ty,
    {
        ElementBuffer { raw, ty }
    }

    pub closed spec fn raw_view(&self) -> Buffer {
        self.raw
    }

    pub closed spec fn ty_view(&self) -> ElementType {
        self.ty
    }

    /// The number of indices.
    pub open spec fn spec_len(&self) -> nat {
        self.raw_view().len_view() as nat / self.ty_view().spec_size()
    }

    /// The number of indices.
    pub fn len(&self) -> (r: usize)
        requires
            self.raw_view().len_view() as nat % self.ty_view().spec_size() == 0,
        ensures
            r == self.spec_len(),
    {
        self.raw.len() / self.ty.size()
    }

    /// Whether the buffer holds no index.
    pub fn is_empty(&self) -> (r: bool)
        requires
            self.raw_view().len_view() as nat % self.ty_view().spec_size() == 0,
        ensures
            r == (self.spec_len() == 0),
    {
        self.len() == 0
    }

    /// Replaces the indices with those in the bytes `data`.
    pub fn set(&mut self, data: &[u8])
        requires
            data@.len() % old(self).ty_view().spec_size() == 0,
        ensures
            final(self).raw_view().len_view() == data@.len(),
            final(self).raw_view().id_view() == old(self).raw_view().id_view(),
            final(self).ty_view() == old(self).ty_view(),
    {
        self.raw.set(data);
    }

    /// All indices of the buffer.
    pub fn as_binding(&self) -> (r: ElementBufferBinding)
        requires
            self.raw_view().len_view() as nat % self.ty_view().spec_size() == 0,
        ensures
            r.buffer_id == self.raw_view().id_view(),
            r.ty == self.ty_view(),
            r.range == (0usize, self.spec_len() as usize),
    {
        ElementBufferBinding { buffer_id: self.raw.id(), ty: self.ty, range: (0, self.len()) }
    }
}

impl ElementBufferBinding {
    /// The type of the indices.
    pub fn ty(&self) -> (r: ElementType)
        ensures
            r == self.ty,
    {
        self.ty
    }

    /// The range of indices.
    pub fn range(&self) -> (r: (usize, usize))
        ensures
            r == self.range,
    {
        self.range
    }

    /// The same indices, restricted to the range `range`.
    pub fn with_range(self, range: (usize, usize)) -> (r: Self)
        ensures
            r == (ElementBufferBinding { range, ..self }),
    {
        ElementBufferBinding { range, ..self }
    }
}

} // verus!
