//! Buffers and where they come from.

use vstd::prelude::*;

verus! {

/// `drm_fourcc::DrmFourcc`, a pixel format. Nothing is known of its
/// values; they are handed on as they come.
#[verifier::external_type_specification]
#[verifier::external_body]
pub struct ExDrmFourcc(drm_fourcc::DrmFourcc);

/// `drm_fourcc::DrmModifier`, a memory layout. Nothing is known of its
/// values; they are handed on as they come.
#[verifier::external_type_specification]
#[verifier::external_body]
pub struct ExDrmModifier(drm_fourcc::DrmModifier);

/// `drm_fourcc::DrmFormat`, a pixel format with a memory layout. Nothing is
/// known of its values; they are handed on as they come.
#[verifier::external_type_specification]
#[verifier::external_body]
pub struct ExDrmFormat(drm_fourcc::DrmFormat);

/// Size of a buffer in pixels.
#[derive(Clone, Copy, Debug, PartialEq, Eq, Hash, Structural)]
pub struct BufferSize {
    pub w: i32,
    pub h: i32,
}

/// What most kinds of buffers have in common. The library holds buffers of
/// any type that has these; what is proved of `width` and `height` holds for
/// a type whose `size` returns what `size_spec` says.
pub trait Buffer {
    /// The size this buffer reports.
    spec fn size_spec(&self) -> BufferSize;

    /// Width of the buffer: the width of its size, reinterpreted as
    /// unsigned.
    fn width(&self) -> (w: u32)
        ensures
            w == self.size_spec().w as u32,
    {
        #[verifier::truncate]
        (self.size().w as u32)
    }

    /// Height of the buffer: the height of its size, reinterpreted as
    /// unsigned.
    fn height(&self) -> (h: u32)
        ensures
            h == self.size_spec().h as u32,
    {
        #[verifier::truncate]
        (self.size().h as u32)
    }

    /// Size of the buffer.
    fn size(&self) -> (s: BufferSize)
        ensures
            s == self.size_spec(),
    ;

    /// Pixel format of the buffer.
    fn format(&self) -> drm_fourcc::DrmFormat;
}

/// Something that makes buffers. Nothing is assumed of what an
/// implementation returns: an implementation says itself, with `allocates`,
/// which answers it may give.
pub trait Allocator<B: Buffer> {
    /// Why an allocation failed.
    type Error;

    /// Whether this allocator may answer a request for a buffer of the given
    /// size and pixel format, with one of the given layout modifiers, with
    /// `result`, and be `after` when it has answered. An implementation
    /// that says nothing of its answers allows them all.
    open spec fn allocates(
        &self,
        after: &Self,
        width: u32,
        height: u32,
        fourcc: drm_fourcc::DrmFourcc,
        modifiers: Seq<drm_fourcc::DrmModifier>,
        result: Result<B, Self::Error>,
    ) -> bool {
        true
    }

    /// Tries to make a buffer of the given size and pixel format, with
    /// one of the given layout modifiers.
    fn create_buffer(
        &mut self,
        width: u32,
        height: u32,
        fourcc: drm_fourcc::DrmFourcc,
        modifiers: &[drm_fourcc::DrmModifier],
    ) -> (result: Result<B, Self::Error>)
        ensures
            old(self).allocates(final(self), width, height, fourcc, modifiers@, result),
    ;
}

/// A boxed allocator allocates as the allocator in the box does.
impl<A: Allocator<B>, B: Buffer> Allocator<B> for Box<A> {
    type Error = A::Error;

    /// A boxed allocator may give the answers that the allocator in the box
    /// may give.
    open spec fn allocates(
        &self,
        after: &Self,
        width: u32,
        height: u32,
        fourcc: drm_fourcc::DrmFourcc,
        modifiers: Seq<drm_fourcc::DrmModifier>,
        result: Result<B, Self::Error>,
    ) -> bool {
        (**self).allocates(&**after, width, height, fourcc, modifiers, result)
    }

    fn create_buffer(
        &mut self,
        width: u32,
        height: u32,
        fourcc: drm_fourcc::DrmFourcc,
        modifiers: &[drm_fourcc::DrmModifier],
    ) -> (result: Result<B, Self::Error>) {
        (**self).create_buffer(width, height, fourcc, modifiers)
    }
}

} // verus!
