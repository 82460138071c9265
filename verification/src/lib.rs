pub mod builder;
pub mod cache;
pub mod config;
pub mod errors;
pub mod pipeline;
pub mod qemu;
pub mod ssh;
pub mod strutil;
