//! Core of a binding between extension code and a game engine's object
//! system: opaque value storage, the class hierarchy, the engine's object
//! table with typed handles, and conversions to and from dynamic values.
//!
//! The engine itself lives on the far side of a C ABI. Everything here is
//! stated over plain values, so that the rules of identity, ownership and
//! conversion can be proved once and for all.

pub mod opaque;
pub mod class;
pub mod object;
pub mod handle;
pub mod variant;
pub mod convert;
pub mod display;
pub mod init;
pub mod payload;
