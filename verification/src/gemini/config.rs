//! Gemini conversion settings. The accuracy thresholds of the escalation
//! heuristic are floating-point values and stay with the caller that
//! assesses responses.
use vstd::prelude::*;

use crate::bindings::view_option;
use crate::gemini::route::Tier;
use crate::number::{parse_unsigned, spec_parse_unsigned};
use crate::text::{chars_of, string_of, trim, trim_chars};

verus! {

/// Default Gemini API base URL.
pub const DEFAULT_BASE_URL: &'static str = "https://generativelanguage.googleapis.com";

/// Model id of both tiers (the `-latest` alias follows Google's current
/// model, so the id does not retire).
pub const PRIMARY_MODEL: &'static str = "gemini-flash-lite-latest";

/// Model id of the escalation tier.
pub const ESCALATION_MODEL: &'static str = "gemini-flash-lite-latest";

/// Per-tier model settings.
#[derive(Debug, Clone)]
pub struct ModelTier {
    /// Model id placed in the `models/{model}:generateContent` path.
    pub model: String,
    /// The `thinkingConfig.thinkingLevel` value.
    pub thinking_level: String,
}

/// The plain value of a [`ModelTier`].
pub struct TierView {
    pub model: Seq<char>,
    pub thinking_level: Seq<char>,
}

impl View for ModelTier {
    type V = TierView;

    open spec fn view(&self) -> TierView {
        TierView { model: self.model@, thinking_level: self.thinking_level@ }
    }
}

impl ModelTier {
    /// A copy with the same model and thinking level.
    pub fn duplicate(&self) -> (r: Self)
        ensures
            r@ == self@,
    {
        ModelTier { model: self.model.clone(), thinking_level: self.thinking_level.clone() }
    }
}

/// Settings for converting PDFs through the Gemini API.
#[derive(Debug, Clone)]
pub struct GeminiConfig {
    /// API key (trimmed, non-empty); sent as the `x-goog-api-key` header.
    pub api_key: String,
    /// API base URL.
    pub base_url: String,
    /// Primary conversion tier (thinking level low).
    pub primary: ModelTier,
    /// Escalation conversion tier (thinking level high).
    pub escalation: ModelTier,
    /// Largest PDF sent inline; larger inputs are rejected.
    pub inline_max_bytes: usize,
    /// HTTP timeout in seconds.
    pub timeout_secs: u64,
}

/// The plain value of a [`GeminiConfig`].
pub struct GeminiView {
    pub api_key: Seq<char>,
    pub base_url: Seq<char>,
    pub primary: TierView,
    pub escalation: TierView,
    pub inline_max_bytes: nat,
    pub timeout_secs: nat,
}

impl View for GeminiConfig {
    type V = GeminiView;

    open spec fn view(&self) -> GeminiView {
        GeminiView {
            api_key: self.api_key@,
            base_url: self.base_url@,
            primary: self.primary@,
            escalation: self.escalation@,
            inline_max_bytes: self.inline_max_bytes as nat,
            timeout_secs: self.timeout_secs as nat,
        }
    }
}

impl GeminiConfig {
    /// A copy with the same settings.
    pub fn duplicate(&self) -> (r: Self)
        ensures
            r@ == self@,
    {
        GeminiConfig {
            api_key: self.api_key.clone(),
            base_url: self.base_url.clone(),
            primary: self.primary.duplicate(),
            escalation: self.escalation.duplicate(),
            inline_max_bytes: self.inline_max_bytes,
            timeout_secs: self.timeout_secs,
        }
    }

    /// A configuration for `api_key` with the default base URL, models,
    /// inline limit (20 MiB) and timeout (120 s).
    pub fn new(api_key: String) -> (r: Self)
        ensures
            r.api_key@ == api_key@,
            r.base_url@ == DEFAULT_BASE_URL@,
            r.primary.model@ == PRIMARY_MODEL@,
            r.primary.thinking_level@ == "LOW"@,
            r.escalation.model@ == ESCALATION_MODEL@,
            r.escalation.thinking_level@ == "HIGH"@,
            r.inline_max_bytes == 20 * 1024 * 1024,
            r.timeout_secs == 120,
    {
        GeminiConfig {
            api_key,
            base_url: String::from_str(DEFAULT_BASE_URL),
            primary: ModelTier {
                model: String::from_str(PRIMARY_MODEL),
                thinking_level: String::from_str("LOW"),
            },
            escalation: ModelTier {
                model: String::from_str(ESCALATION_MODEL),
                thinking_level: String::from_str("HIGH"),
            },
            inline_max_bytes: 20 * 1024 * 1024,
            timeout_secs: 120,
        }
    }
}

/// The settings of a tier of the route.
pub open spec fn tier_settings(cfg: GeminiView, tier: Tier) -> TierView {
    match tier {
        Tier::Primary => cfg.primary,
        Tier::Escalation => cfg.escalation,
    }
}

impl GeminiConfig {
    /// The settings of a tier of the route.
    pub fn tier(&self, tier: Tier) -> (r: &ModelTier)
        ensures
            r@ == tier_settings(self@, tier),
    {
        match tier {
            Tier::Primary => &self.primary,
            Tier::Escalation => &self.escalation,
        }
    }
}

/// A setting's value when it is present and not blank: trimmed.
pub open spec fn spec_nonempty(value: Option<Seq<char>>) -> Option<Seq<char>> {
    match value {
        Some(v) => if trim(v).len() > 0 {
            Some(trim(v))
        } else {
            None
        },
        None => None,
    }
}

/// Trims a setting's value and treats a blank one as absent.
pub fn nonempty(value: Option<&str>) -> (r: Option<String>)
    ensures
        view_option(r) == spec_nonempty(view_option(value)),
{
    match value {
        Some(v) => {
            let c = chars_of(v);
            let t = trim_chars(c.as_slice());
            if t.len() > 0 {
                Some(string_of(t.as_slice()))
            } else {
                None
            }
        },
        None => None,
    }
}

/// A numeric setting: its trimmed value parsed as an unsigned number no
/// larger than `max`, or `default` when it is absent, blank or does not
/// parse.
pub open spec fn spec_env_parse(value: Option<Seq<char>>, default: nat, max: nat) -> nat {
    match spec_nonempty(value) {
        Some(t) => match spec_parse_unsigned(t, max) {
            Some(v) => v,
            None => default,
        },
        None => default,
    }
}

/// Reads a numeric setting, falling back to `default` when it is absent,
/// blank or not a number no larger than `max`.
pub fn env_parse(value: Option<&str>, default: u64, max: u64) -> (r: u64)
    requires
        default <= max,
    ensures
        r == spec_env_parse(view_option(value), default as nat, max as nat),
{
    match nonempty(value) {
        Some(t) => {
            let c = chars_of(t.as_str());
            match parse_unsigned(c.as_slice(), max) {
                Some(v) => v,
                None => default,
            }
        },
        None => default,
    }
}

/// The settings read from the environment, as text: the base URL, the
/// inline limit and the timeout (each `None` when unset).
pub struct GeminiSettings<'a> {
    pub base_url: Option<&'a str>,
    pub inline_max_bytes: Option<&'a str>,
    pub timeout_secs: Option<&'a str>,
}

/// The configuration for `api_key` and the settings given as text: the
/// base URL when set and not blank (trimmed) else the default, the fixed
/// tiers, and the inline limit and timeout parsed from their settings, with
/// their defaults (20 MiB, 120 s) when absent, blank or not numbers.
pub open spec fn settings_config(
    api_key: Seq<char>,
    base_url: Option<Seq<char>>,
    inline_max_bytes: Option<Seq<char>>,
    timeout_secs: Option<Seq<char>>,
) -> GeminiView {
    GeminiView {
        api_key,
        base_url: match spec_nonempty(base_url) {
            Some(u) => u,
            None => DEFAULT_BASE_URL@,
        },
        primary: TierView { model: PRIMARY_MODEL@, thinking_level: "LOW"@ },
        escalation: TierView { model: ESCALATION_MODEL@, thinking_level: "HIGH"@ },
        inline_max_bytes: spec_env_parse(inline_max_bytes, 20 * 1024 * 1024, usize::MAX as nat),
        timeout_secs: spec_env_parse(timeout_secs, 120, u64::MAX as nat),
    }
}

impl GeminiConfig {
    /// A configuration for `api_key` with the defaults of [`GeminiConfig::new`]
    /// overridden by the settings that are present: a non-blank base URL
    /// (trimmed), and an inline limit and a timeout that parse as numbers.
    pub fn with_settings(api_key: String, settings: &GeminiSettings) -> (r: Self)
        ensures
            r.api_key@ == api_key@,
            r.base_url@ == match spec_nonempty(view_option(settings.base_url)) {
                Some(u) => u,
                None => DEFAULT_BASE_URL@,
            },
            r.primary@ == (TierView { model: PRIMARY_MODEL@, thinking_level: "LOW"@ }),
            r.escalation@ == (TierView { model: ESCALATION_MODEL@, thinking_level: "HIGH"@ }),
            r.inline_max_bytes as nat == spec_env_parse(
                view_option(settings.inline_max_bytes),
                20 * 1024 * 1024,
                usize::MAX as nat,
            ),
            r.timeout_secs as nat == spec_env_parse(
                view_option(settings.timeout_secs),
                120,
                u64::MAX as nat,
            ),
            r@ == settings_config(
                api_key@,
                view_option(settings.base_url),
                view_option(settings.inline_max_bytes),
                view_option(settings.timeout_secs),
            ),
    {
        let mut cfg = GeminiConfig::new(api_key);
        if let Some(url) = nonempty(settings.base_url) {
            cfg.base_url = url;
        }
        let limit = env_parse(settings.inline_max_bytes, cfg.inline_max_bytes as u64, usize::MAX as u64);
        cfg.inline_max_bytes = limit as usize;
        cfg.timeout_secs = env_parse(settings.timeout_secs, cfg.timeout_secs, u64::MAX);
        cfg
    }
}

} // verus!
