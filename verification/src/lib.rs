pub mod aggregate;
pub mod area;
pub mod cli;
pub mod decimal;
pub mod laws;
pub mod model;
pub mod parse;
pub mod pretty;
pub mod render;
pub mod repo;
pub mod summarizer;
pub mod text;
