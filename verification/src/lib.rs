pub mod cli;
pub mod error;
pub mod files;
pub mod gateway;
pub mod json;
pub mod number;
pub mod path;
pub mod speech;
pub mod text;
pub mod transcribe;
