//! Verified core of the push-to-talk desktop companion.
pub mod capture;
pub mod errors;
pub mod listen;
pub mod monitors;
pub mod settings;
pub mod shell;
pub mod speech;
pub mod text;
