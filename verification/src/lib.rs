//! Scoped, cached and composable state guards for an immediate-mode graphics
//! context.
//!
//! A [`Setting`](settings::Settings) describes the state wanted for a span of
//! work. Applying it compares each aspect with what the cache records, makes
//! only the calls that change something, runs the work, and puts back what it
//! changed, last entered first.
//!
//! The context itself stays outside: every call meant for it is recorded, in
//! order, on [`Context`](gl::Context), and whoever owns the real context
//! performs the recorded calls.

// The settings come first: their `==` is verified before the modules that
// rely on it.
pub mod settings;
pub mod call;
pub mod data_buffer;
pub mod gl;
pub mod laws;
pub mod texture;

pub use crate::call::{Capability, FilterParameter, GlCall};
pub use crate::data_buffer::{ArrayBuffer, ArrayBufferData, BufferUsage};
pub use crate::gl::{Gl, ResourceError};
pub use crate::settings::Settings;
pub use crate::texture::{Texture, TextureContent, TextureFilter, TextureFormat, TextureType};
