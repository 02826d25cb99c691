//! PDF conversion through the Gemini API: configuration, response handling,
//! the integer part of the accuracy assessment, and the escalation route.
pub mod assess;
pub mod config;
pub mod failure;
pub mod request;
pub mod response;
pub mod route;

pub use config::{GeminiConfig, ModelTier};
pub use response::GeminiResponse;
