//! Front end to a tree composer: the manifest schema with its two dialects, the
//! argument rewriting, the staging plan and the driver's decisions.
pub mod args;
pub mod decode;
pub mod dialect;
pub mod document;
pub mod driver;
pub mod encode;
pub mod error;
pub mod json;
pub mod laws;
pub mod normalize;
pub mod schema;
pub mod staging;
pub mod text;
pub mod treefile;
pub mod values;
pub mod yaml;
