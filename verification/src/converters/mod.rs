//! One converter per supported format.
pub mod docx;
pub mod ooxml;
pub mod pptx;
pub mod csv;
pub mod html;
pub mod json;
pub mod text;
pub mod xml;
pub mod epub;
pub mod xlsx;
pub mod pdf;
