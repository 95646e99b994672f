pub mod client;
pub mod errors;
pub mod handlers;
pub mod json;
pub mod order;
pub mod parser;
pub mod session;
pub mod text;
pub mod tree;
pub mod watch;

pub use client::ConsulXClient;
pub use errors::ConsulXError;
pub use parser::{parse, Command};
