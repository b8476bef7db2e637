pub mod env;
pub mod index;
pub mod store;
pub mod canary;
pub mod paths;
pub mod binding;
pub mod prompt;
