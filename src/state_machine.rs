pub mod common;
pub mod sender;
pub mod receiver;
pub mod exchange;
