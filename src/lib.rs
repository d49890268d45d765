//! Discovery, integrity checking and supervision of agent bundles.
//!
//! Everything that decides or computes lives here and is verified; reading
//! directories, spawning processes and talking HTTP are left to the caller,
//! which hands plain values in and takes plain values back.

pub mod executor;
pub mod models;
pub mod registry;
pub mod scanner;
pub mod text;
