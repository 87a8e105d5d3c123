use vstd::prelude::*;

use super::enums::BufferUsage;
use super::raw::buffer::Buffer;

verus! {

/// The alignment to which the data of a uniform buffer is padded.
pub const MIN_ALIGNMENT: usize = 16;

/// `bytes` padded with zeros to a multiple of the minimum alignment.
pub open spec fn padded_bytes(bytes: Seq<u8>) -> Seq<u8> {
    if bytes.len() % 16 == 0 {
        bytes
    } else {
        bytes + Seq::new((16 - bytes.len() % 16) as nat, |i: int| 0u8)
    }
}

/// The bytes to upload for a uniform block whose layout takes `bytes`:
/// padded with zeros to a multiple of the minimum alignment.
pub fn to_bytes(bytes: &[u8]) -> (r: Vec<u8>)
    requires
        bytes@.len() + 16 <= usize::MAX,
    ensures
        r@ == padded_bytes(bytes@),
        r@.len() % 16 == 0,
{
    let mut buffer: Vec<u8> = Vec::new();
    let mut i: usize = 0;
    while i < bytes.len()
        invariant
            i <= bytes.len(),
            buffer@ == bytes@.take(i as int),
        decreases bytes.len() - i,
    {
        buffer.push(bytes[i]);
        assert(bytes@.take(i + 1) == bytes@.take(i as int).push(bytes@[i as int]));
        i = i + 1;
    }
    assert(bytes@.take(i as int) == bytes@);
    let rem = bytes.len() % MIN_ALIGNMENT;
    if rem == 0 {
        return buffer;
    }
    let padded_len = bytes.len() + MIN_ALIGNMENT - rem;
    let ghost base = buffer@;
    while buffer.len() < padded_len
        invariant
            bytes.len() <= buffer.len() <= padded_len,
            padded_len == bytes.len() + 16 - rem,
            buffer@ == base + Seq::new((buffer.len() - bytes.len()) as nat, |k: int| 0u8),
            base == bytes@,
        decreases padded_len - buffer.len(),
    {
        buffer.push(0u8);
        assert(buffer@ == base + Seq::new((buffer.len() - bytes.len()) as nat, |k: int| 0u8));
    }
    assert((bytes.len() + 16 - rem) % 16 == 0);
    buffer
}

/// A buffer that holds the data of a uniform block.
pub struct UniformBuffer {
    raw: Buffer,
}

/// A uniform buffer as a draw binds it.
#[derive(Debug, Clone, Copy, PartialEq, Eq)]
pub struct UniformBufferBinding {
    pub buffer_id: u32,
}

impl UniformBuffer {
    /// The uniform buffer over `raw`.
    pub fn from_raw(raw: Buffer) -> (r: Self)
        ensures
            r.raw_view() == raw,
    {
        UniformBuffer { raw }
    }

    pub closed spec fn raw_view(&self) -> Buffer {
        self.raw
    }

    /// The usage of the buffer.
    pub fn usage(&self) -> (r: BufferUsage)
        ensures
            r == self.raw_view().usage_view(),
    {
        self.raw.usage()
    }

    /// Replaces the data with the block that takes `bytes`; gives the padded
    /// bytes to upload.
    pub fn set(&mut self, bytes: &[u8]) -> (r: Vec<u8>)
        requires
            bytes@.len() + 16 <= usize::MAX,
        ensures
            r@ == padded_bytes(bytes@),
            final(self).raw_view().len_view() == r@.len(),
            final(self).raw_view().id_view() == old(self).raw_view().id_view(),
            final(self).raw_view().usage_view() == old(self).raw_view().usage_view(),
    {
        let padded = to_bytes(bytes);
        self.raw.set(padded.as_slice());
        padded
    }

    /// The buffer as a draw binds it.
    pub fn as_binding(&self) -> (r: UniformBufferBinding)
        ensures
            r.buffer_id == self.raw_view().id_view(),
    {
        UniformBufferBinding { buffer_id: self.raw.id() }
    }
}

} // verus!
