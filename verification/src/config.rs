//! Engine-level configuration, resolved once by the caller and handed to
//! the registry.
use vstd::prelude::*;

use crate::bindings::view_option;
use crate::gemini::config::{nonempty, settings_config, spec_nonempty, GeminiSettings};
use crate::gemini::GeminiConfig;

verus! {

/// Runtime configuration of the conversion engine.
#[derive(Debug, Clone)]
pub struct EngineConfig {
    /// Gemini PDF-conversion settings; `None` means PDFs use local
    /// extraction.
    pub gemini: Option<GeminiConfig>,
}

impl Default for EngineConfig {
    fn default() -> (r: Self)
        ensures
            r.gemini is None,
    {
        EngineConfig { gemini: None }
    }
}

impl EngineConfig {
    /// The configuration for the given API key and Gemini settings: the
    /// Gemini route is enabled exactly when the key, trimmed, is not empty,
    /// and then uses the trimmed key and the settings as
    /// [`GeminiConfig::with_settings`] reads them.
    pub fn with_settings(api_key: Option<&str>, settings: &GeminiSettings) -> (r: Self)
        ensures
            view_option(r.gemini) == match spec_nonempty(view_option(api_key)) {
                Some(key) => Some(
                    settings_config(
                        key,
                        view_option(settings.base_url),
                        view_option(settings.inline_max_bytes),
                        view_option(settings.timeout_secs),
                    ),
                ),
                None => None,
            },
    {
        match nonempty(api_key) {
            Some(key) => EngineConfig { gemini: Some(GeminiConfig::with_settings(key, settings)) },
            None => EngineConfig { gemini: None },
        }
    }
}

} // verus!
