pub mod errors;
pub mod feature;
pub mod feature_collection;
pub mod geojson;
pub mod geometry;
pub mod json;
pub mod laws;
pub mod position;
pub mod text;
