pub mod stream;
pub mod client;
pub mod parse;
