//! The configuration of the model service, resolved from settings that the
//! caller has read.

use crate::text::{is_blank_str, is_set};
use vstd::prelude::*;

verus! {

/// Where the model is reached, and how.
pub struct Config {
    pub endpoint: String,
    pub model: String,
    pub apikey: Option<String>,
    pub verbose: bool,
}

/// A configuration over mathematical text.
pub struct ConfigView {
    pub endpoint: Seq<char>,
    pub model: Seq<char>,
    pub apikey: Option<Seq<char>>,
    pub verbose: bool,
}

impl View for Config {
    type V = ConfigView;

    open spec fn view(&self) -> ConfigView {
        ConfigView {
            endpoint: self.endpoint@,
            model: self.model@,
            apikey: match self.apikey {
                Some(k) => Some(k@),
                None => None,
            },
            verbose: self.verbose,
        }
    }
}

/// The endpoint that is used where none is configured.
pub open spec fn default_endpoint() -> Seq<char> {
    "https://codestral.mistral.ai/v1/chat/completions"@
}

/// The model that is used where none is configured.
pub open spec fn default_model() -> Seq<char> {
    "codestral-latest"@
}

/// `value` where it counts, else nothing. A value counts as it stands, with
/// the whitespace around it.
pub open spec fn kept(value: Option<Seq<char>>) -> Option<Seq<char>> {
    if is_set(value) {
        value
    } else {
        None
    }
}

/// The configuration that the settings make. Endpoint and model are
/// configured together, with a key of their own, or not at all, and then the
/// defaults hold with the key of the default service. With one of the two
/// alone there is no configuration.
pub open spec fn config_of(
    url: Option<Seq<char>>,
    model: Option<Seq<char>>,
    key: Option<Seq<char>>,
    default_key: Option<Seq<char>>,
    verbose: bool,
) -> Option<ConfigView> {
    if is_set(url) && is_set(model) {
        Some(ConfigView { endpoint: url->0, model: model->0, apikey: kept(key), verbose })
    } else if !is_set(url) && !is_set(model) {
        Some(
            ConfigView {
                endpoint: default_endpoint(),
                model: default_model(),
                apikey: kept(default_key),
                verbose,
            },
        )
    } else {
        None
    }
}

/// The view of an optional owned text.
pub open spec fn owned_view(value: Option<String>) -> Option<Seq<char>> {
    match value {
        Some(v) => Some(v@),
        None => None,
    }
}

/// `value` where it counts, else nothing.
fn keep(value: Option<String>) -> (r: Option<String>)
    ensures
        owned_view(r) == kept(owned_view(value)),
{
    match value {
        Some(v) => if is_blank_str(v.as_str()) {
            None
        } else {
            Some(v)
        },
        None => None,
    }
}

impl Config {
    /// Resolves the configuration from the settings for endpoint, model and
    /// key, and the key of the default service.
    pub fn from_values(
        url: Option<String>,
        model: Option<String>,
        key: Option<String>,
        default_key: Option<String>,
        verbose: bool,
    ) -> (r: Option<Config>)
        ensures
            match r {
                Some(c) => config_of(
                    owned_view(url),
                    owned_view(model),
                    owned_view(key),
                    owned_view(default_key),
                    verbose,
                ) == Some(c@),
                None => config_of(
                    owned_view(url),
                    owned_view(model),
                    owned_view(key),
                    owned_view(default_key),
                    verbose,
                ) is None,
            },
    {
        match (keep(url), keep(model)) {
            (Some(endpoint), Some(name)) => Some(
                Config { endpoint, model: name, apikey: keep(key), verbose },
            ),
            (None, None) => Some(
                Config {
                    endpoint: "https://codestral.mistral.ai/v1/chat/completions".to_owned(),
                    model: "codestral-latest".to_owned(),
                    apikey: keep(default_key),
                    verbose,
                },
            ),
            _ => None,
        }
    }
}

} // verus!
