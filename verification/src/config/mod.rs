pub mod data;
pub mod files;
pub mod library;
pub mod paths;
