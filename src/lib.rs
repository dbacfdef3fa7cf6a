pub mod common;
pub mod request;
