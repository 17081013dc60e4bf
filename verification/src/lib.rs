pub mod text;
pub mod hash;
pub mod blob;
pub mod ids;
pub mod sources;
pub mod features;
pub mod metadata;
pub mod store;
pub mod part21;
pub mod assembly;
pub mod document;
