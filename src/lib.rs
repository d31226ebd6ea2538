pub mod codec;
pub mod color;
pub mod favicon;
pub mod legacy;
pub mod server;
pub mod text;
pub mod types;
pub mod webhook;
