//! Data of the studio: segment states and the catalogue of speech models.
pub mod registry;
pub mod segment;
