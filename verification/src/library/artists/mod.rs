pub mod model;
pub mod repository;
