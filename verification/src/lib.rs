//! Verified core of a viewer for Morrowind NIF meshes packed in archives.

pub mod text;
pub mod paths;
pub mod shared;
pub mod files;
pub mod keys;
pub mod recent;
pub mod view;
pub mod state;
pub mod nif;
pub mod assets;
pub mod query;
pub mod archive;
pub mod textures;
pub mod export;
pub mod cookies;
