//! Injects a Lua module that exposes a mod's root directory: when the host is
//! about to load a given file, a template with the directory put in is
//! compiled and run, and its value is installed in `package.preload` under the
//! module's name.
//!
//! The logic is a session that asks for one Lua stack call at a time
//! (`session`), started from a patch (`patch`), over a renderer for the
//! template (`template`); `model` states what a session does to a Lua state.

pub mod model;
pub mod patch;
pub mod session;
pub mod template;
