pub mod args;
pub mod chars;
pub mod config;
pub mod docx;
pub mod laws;
pub mod layout;
pub mod markup;
pub mod model;
pub mod numbers;
pub mod properties;
