use vstd::prelude::*;

use super::raw::params::DrawParams;

verus! {

/// The first step of a draw with a program: its settings.
pub struct DrawBuilder {
    pub program_id: u32,
    pub settings: DrawParams,
}

/// A draw with a program, its settings and its uniforms.
pub struct DrawBuilderWithUniforms<U> {
    pub inner: DrawBuilder,
    pub uniforms: U,
}

impl DrawBuilder {
    /// A draw with program `program_id` and the default settings.
    pub fn new(program_id: u32) -> (r: Self)
        ensures
            r.program_id == program_id,
            r.settings == crate::gl::raw::params::default_draw_params(),
    {
        DrawBuilder { program_id, settings: DrawParams::default() }
    }

    /// The same draw with settings `settings`.
    pub fn with_settings(self, settings: DrawParams) -> (r: Self)
        ensures
            r.program_id == self.program_id,
            r.settings == settings,
    {
        DrawBuilder { settings, ..self }
    }

    /// The same draw with uniforms `uniforms`.
    pub fn with_uniforms<U>(self, uniforms: U) -> (r: DrawBuilderWithUniforms<U>)
        ensures
            r.inner.program_id == self.program_id,
            r.inner.settings == self.settings,
            r.uniforms == uniforms,
    {
        DrawBuilderWithUniforms { inner: self, uniforms }
    }
}

impl<U> DrawBuilderWithUniforms<U> {
    /// The same draw with settings `settings`.
    pub fn with_settings(self, settings: DrawParams) -> (r: Self)
        ensures
            r.inner.program_id == self.inner.program_id,
            r.inner.settings == settings,
            r.uniforms == self.uniforms,
    {
        DrawBuilderWithUniforms { inner: self.inner.with_settings(settings), uniforms: self.uniforms }
    }

    /// The same draw with uniforms `uniforms`.
    pub fn with_uniforms(self, uniforms: U) -> (r: Self)
        ensures
            r.inner.program_id == self.inner.program_id,
            r.inner.settings == self.inner.settings,
            r.uniforms == uniforms,
    {
        DrawBuilderWithUniforms { inner: self.inner, uniforms }
    }
}

} // verus!
