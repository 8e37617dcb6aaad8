pub mod error;
pub mod floats;
pub mod laws;
pub mod lowerer;
pub mod rules;
