pub mod agent;
pub mod app;
pub mod autocomplete;
pub mod bootstrap;
pub mod config;
pub mod headless;
pub mod input;
pub mod json;
pub mod keys;
pub mod markdown;
pub mod mcp;
pub mod memory;
pub mod ollama;
pub mod prompts;
pub mod script;
pub mod session;
pub mod text;
pub mod types;
pub mod tools;
