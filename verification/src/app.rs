pub mod handler;
pub mod repository;
