//! Directory entries: what is known of each, how it is classified and
//! ordered, and how its name and metadata are rendered.

pub mod formating;
pub mod metadata;
pub mod names;
pub mod types;
