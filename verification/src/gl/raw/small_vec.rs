//! The small vectors that hold the color attachments of a framebuffer and
//! the vertex buffers of a draw, with what the logic needs of them.

use smallvec::SmallVec;

use vstd::prelude::*;

use super::framebuffer::Attachment;
use super::vertex_spec::VertexBufferBinding;

verus! {

/// The color attachments of a framebuffer, in a `smallvec::SmallVec`. Its
/// contents are reached only through the functions below, which state them
/// as `attachment_items`.
#[derive(Debug)]
#[verifier::external_body]
pub struct AttachmentVec {
    items: SmallVec<[Attachment; 8]>,
}

/// The vertex buffers of a draw, in a `smallvec::SmallVec`. Its contents
/// are reached only through the functions below, which state them as
/// `binding_items`.
#[derive(Debug)]
#[verifier::external_body]
pub struct VertexBufferBindingVec {
    items: SmallVec<[VertexBufferBinding; 8]>,
}

/// The attachments that the small vector holds, in order.
pub uninterp spec fn attachment_items(v: AttachmentVec) -> Seq<Attachment>;

/// The vertex buffers that the small vector holds, in order.
pub uninterp spec fn binding_items(v: VertexBufferBindingVec) -> Seq<VertexBufferBinding>;

/// Calls `SmallVec::from_vec`. Claimed: the small vector holds the items
/// of `v`, in order, as its documentation shows.
#[verifier::external_body]
fn attachments_from_vec(v: Vec<Attachment>) -> (r: AttachmentVec)
    ensures
        attachment_items(r) == v@,
{
    AttachmentVec { items: SmallVec::from_vec(v) }
}

/// Calls `SmallVec::as_slice`. Claimed: the slice holds the items of `v`,
/// in order.
#[verifier::external_body]
fn attachments_as_slice(v: &AttachmentVec) -> (r: &[Attachment])
    ensures
        r@ == attachment_items(*v),
{
    v.items.as_slice()
}

/// Calls `SmallVec::from_vec`. Claimed: the small vector holds the items
/// of `v`, in order, as its documentation shows.
#[verifier::external_body]
fn bindings_from_vec(v: Vec<VertexBufferBinding>) -> (r: VertexBufferBindingVec)
    ensures
        binding_items(r) == v@,
{
    VertexBufferBindingVec { items: SmallVec::from_vec(v) }
}

/// Calls `SmallVec::as_slice`. Claimed: the slice holds the items of `v`,
/// in order.
#[verifier::external_body]
fn bindings_as_slice(v: &VertexBufferBindingVec) -> (r: &[VertexBufferBinding])
    ensures
        r@ == binding_items(*v),
{
    v.items.as_slice()
}

impl AttachmentVec {
    /// The attachments `items`, in order.
    pub fn from_vec(items: Vec<Attachment>) -> (r: Self)
        ensures
            attachment_items(r) == items@,
    {
        attachments_from_vec(items)
    }

    /// The attachments, in order.
    pub fn as_slice(&self) -> (r: &[Attachment])
        ensures
            r@ == attachment_items(*self),
    {
        attachments_as_slice(self)
    }
}

impl VertexBufferBindingVec {
    /// The vertex buffers `items`, in order.
    pub fn from_vec(items: Vec<VertexBufferBinding>) -> (r: Self)
        ensures
            binding_items(r) == items@,
    {
        bindings_from_vec(items)
    }

    /// The vertex buffers, in order.
    pub fn as_slice(&self) -> (r: &[VertexBufferBinding])
        ensures
            r@ == binding_items(*self),
    {
        bindings_as_slice(self)
    }
}

} // verus!
