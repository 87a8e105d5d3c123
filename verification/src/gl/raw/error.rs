use vstd::prelude::*;

verus! {

/// An error that occurred while creating a context.
#[derive(Debug, Clone)]
pub enum ContextError {
    ObjectCreation(String),
    Unexpected(String),
}

/// An error that occurred while creating a buffer.
#[derive(Debug, Clone)]
pub enum BufferError {
    ObjectCreation(String),
    Unexpected(String),
}

/// An error that occurred while creating a texture.
#[derive(Debug, Clone)]
pub enum TextureError {
    ObjectCreation(String),
    Empty,
    Oversized { requested: u32, max: u32 },
    DataSizeMismatch { expected: usize, got: usize },
    Unexpected(String),
}

/// An error that occurred while creating a vertex array.
#[derive(Debug, Clone)]
pub enum VertexArrayError {
    ObjectCreation(String),
    InvalidVertexAttribute(String),
    Unexpected(String),
}

/// An error that was detected by framebuffer completeness checks.
#[derive(Debug, Clone)]
pub enum FramebufferIncompleteError {
    Undefined,
    IncompleteAttachment,
    IncompleteMissingAttachment,
    Unsupported,
    IncompleteMultisample,
    Error(String),
    Unknown(u32),
}

/// An error that occurred while creating a framebuffer.
#[derive(Debug, Clone)]
pub enum FramebufferError {
    ObjectCreation(String),
    LevelTooLarge { requested: u32, max: u32 },
    TooManyColorAttachments { requested: u32, max: u32 },
    TooManyDrawBuffers { requested: u32, max: u32 },
    TooManyDepthAttachments { requested: u32 },
    TooManyStencilAttachments { requested: u32 },
    Incomplete(FramebufferIncompleteError),
    Unexpected(String),
}

/// An error that was found while validating a program.
#[derive(Debug, Clone)]
pub enum ProgramValidationError {
    DuplicateSampler(String),
    DuplicateSamplerTextureUnit(usize),
    DuplicateUniformBlock(String),
    DuplicateUniformBlockLocation(usize),
}

/// An error that occurred while creating a program.
#[derive(Debug, Clone)]
pub enum ProgramError {
    Validation(ProgramValidationError),
    ShaderCreation(String),
    ProgramCreation(String),
    Compiler { vertex_shader_info: String, fragment_shader_info: String, program_info: String },
    InvalidVertexAttribute(String),
    Unexpected(String),
}

/// An error that occurred while creating an object.
#[derive(Debug, Clone)]
pub enum Error {
    Buffer(BufferError),
    Program(ProgramError),
    Texture(TextureError),
    Framebuffer(FramebufferError),
    VertexArray(VertexArrayError),
}

impl From<ProgramValidationError> for ProgramError {
    fn from(e: ProgramValidationError) -> (r: Self) {
        ProgramError::Validation(e)
    }
}

impl vstd::std_specs::convert::FromSpecImpl<ProgramValidationError> for ProgramError {
    open spec fn obeys_from_spec() -> bool {
        true
    }

    open spec fn from_spec(e: ProgramValidationError) -> Self {
        ProgramError::Validation(e)
    }
}

impl From<BufferError> for Error {
    fn from(e: BufferError) -> (r: Self) {
        Error::Buffer(e)
    }
}

impl vstd::std_specs::convert::FromSpecImpl<BufferError> for Error {
    open spec fn obeys_from_spec() -> bool {
        true
    }

    open spec fn from_spec(e: BufferError) -> Self {
        Error::Buffer(e)
    }
}

impl From<ProgramError> for Error {
    fn from(e: ProgramError) -> (r: Self) {
        Error::Program(e)
    }
}

impl vstd::std_specs::convert::FromSpecImpl<ProgramError> for Error {
    open spec fn obeys_from_spec() -> bool {
        true
    }

    open spec fn from_spec(e: ProgramError) -> Self {
        Error::Program(e)
    }
}

impl From<TextureError> for Error {
    fn from(e: TextureError) -> (r: Self) {
        Error::Texture(e)
    }
}

impl vstd::std_specs::convert::FromSpecImpl<TextureError> for Error {
    open spec fn obeys_from_spec() -> bool {
        true
    }

    open spec fn from_spec(e: TextureError) -> Self {
        Error::Texture(e)
    }
}

impl From<FramebufferError> for Error {
    fn from(e: FramebufferError) -> (r: Self) {
        Error::Framebuffer(e)
    }
}

impl vstd::std_specs::convert::FromSpecImpl<FramebufferError> for Error {
    open spec fn obeys_from_spec() -> bool {
        true
    }

    open spec fn from_spec(e: FramebufferError) -> Self {
        Error::Framebuffer(e)
    }
}

impl From<VertexArrayError> for Error {
    fn from(e: VertexArrayError) -> (r: Self) {
        Error::VertexArray(e)
    }
}

impl vstd::std_specs::convert::FromSpecImpl<VertexArrayError> for Error {
    open spec fn obeys_from_spec() -> bool {
        true
    }

    open spec fn from_spec(e: VertexArrayError) -> Self {
        Error::VertexArray(e)
    }
}

} // verus!
