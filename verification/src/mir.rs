pub mod argument;
pub mod definition;
pub mod types;
