//! A character device that hands a fixed message to each reader once per open.
pub mod buffer;
pub mod driver;
pub mod lemmas;
pub mod payload;
pub mod registry;
pub mod session;
pub mod shared;
