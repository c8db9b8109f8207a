pub mod error;
pub mod service;
pub mod settings;
