pub mod text;
pub mod args;
pub mod sysroot;
pub mod driver;
pub mod utils;
pub mod config;
pub mod use_order;
