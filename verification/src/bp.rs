pub mod builder;
pub mod serial;
