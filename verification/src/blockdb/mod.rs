//! Block store layout and provider.
pub mod file_path;
pub mod provider;
