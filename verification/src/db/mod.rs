pub mod library;
pub mod types;
