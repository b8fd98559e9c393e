pub mod app;
pub mod domain;
pub mod errors;
