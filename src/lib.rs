pub mod arena;
pub mod config;
pub mod dispatch;
pub mod lifecycle;
pub mod payload;
pub mod requests;
pub mod signature;
mod text;
pub mod textcall;
