//! Persistence backend of a terrain editor: an RGBA pixel codec over PNG,
//! per-project document rules and a bounded list of recently opened projects.

pub mod pixels;
pub mod png_codec;
pub mod text64;
pub mod recent;
pub mod project;
