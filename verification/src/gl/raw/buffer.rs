use vstd::prelude::*;

use crate::gl::enums::BufferUsage;

verus! {

/// A buffer object: its id, its binding target, its usage and the number of
/// bytes that it holds.
pub struct Buffer {
    id: u32,
    target: u32,
    usage: BufferUsage,
    len: usize,
}

impl Buffer {
    /// The buffer object `id`, for target `target` and usage `usage`, with
    /// the bytes `data`.
    pub fn new(id: u32, data: &[u8], target: u32, usage: BufferUsage) -> (r: Self)
        ensures
            r.id_view() == id,
            r.target_view() == target,
            r.usage_view() == usage,
            r.len_view() == data@.len(),
    {
        Buffer { id, target, usage, len: data.len() }
    }

    pub closed spec fn id_view(&self) -> u32 {
        self.id
    }

    pub closed spec fn target_view(&self) -> u32 {
        self.target
    }

    pub closed spec fn usage_view(&self) -> BufferUsage {
        self.usage
    }

    pub closed spec fn len_view(&self) -> usize {
        self.len
    }

    /// The object id.
    pub fn id(&self) -> (r: u32)
        ensures
            r == self.id_view(),
    {
        self.id
    }

    /// The binding target.
    pub fn target(&self) -> (r: u32)
        ensures
            r == self.target_view(),
    {
        self.target
    }

    /// The usage.
    pub fn usage(&self) -> (r: BufferUsage)
        ensures
            r == self.usage_view(),
    {
        self.usage
    }

    /// The number of bytes that the buffer holds.
    pub fn len(&self) -> (r: usize)
        ensures
            r == self.len_view(),
    {
        self.len
    }

    /// Whether the buffer holds any bytes: it answers `true` for a buffer
    /// that is not empty.
    pub fn is_empty(&self) -> (r: bool)
        ensures
            r == (self.len_view() != 0),
    {
        self.len() != 0
    }

    /// Replaces the bytes of the buffer with `data`.
    pub fn set(&mut self, data: &[u8])
        ensures
            final(self).len_view() == data@.len(),
            final(self).id_view() == old(self).id_view(),
            final(self).target_view() == old(self).target_view(),
            final(self).usage_view() == old(self).usage_view(),
    {
        self.len = data.len();
    }
}

} // verus!
