//! The AI settings that an account may save or try out.

use vstd::prelude::*;

use crate::server::custom_ai::AiMode;
use crate::server::errors::{api_error, invalid_argument, refused, ApiError};
use crate::text::{byte_len, is_blank, opt_view, str_byte_len, str_eq, trim, trimmed, views};

verus! {

/// The longest model name, in bytes.
pub const MAX_MODEL_BYTES: usize = 256;

#[derive(Debug)]
pub struct AiSettingsBody {
    pub provider: Option<String>,
    pub base_url: Option<String>,
    pub model: Option<String>,
    pub api_key: Option<String>,
}

/// The settings that go to the store.
#[derive(Debug)]
pub struct PutAiSettings {
    pub mode: AiMode,
    pub provider: Option<String>,
    pub base_url: Option<String>,
    pub model: Option<String>,
    pub api_key: Option<String>,
}

impl PutAiSettings {
    /// A mode that needs no settings of its own.
    pub open spec fn is_bare(self, mode: AiMode) -> bool {
        &&& self.mode == mode
        &&& self.provider is None
        &&& self.base_url is None
        &&& self.model is None
        &&& self.api_key is None
    }

    pub open spec fn is_custom(
        self,
        base_url: Seq<char>,
        model: Seq<char>,
        api_key: Option<Seq<char>>,
    ) -> bool {
        &&& self.mode is Custom
        &&& opt_view(self.provider) == Some("openai_compat"@)
        &&& opt_view(self.base_url) == Some(base_url)
        &&& opt_view(self.model) == Some(model)
        &&& opt_view(self.api_key) == api_key
    }
}

/// A text that says something, without the white space around it.
pub open spec fn said(text: Option<Seq<char>>) -> Option<Seq<char>> {
    match text {
        Some(t) => if trimmed(t).len() > 0 {
            Some(trimmed(t))
        } else {
            None
        },
        None => None,
    }
}

fn said_text(text: &Option<String>) -> (r: Option<String>)
    ensures
        opt_view(r) == said(opt_view(*text)),
{
    match text {
        Some(t) => {
            let inner = trim(t.as_str());
            if inner.as_str().is_empty() {
                None
            } else {
                Some(inner)
            }
        },
        None => None,
    }
}

/// Custom settings whose endpoint is still to be looked at.
#[derive(Debug)]
pub struct SettingsDraft {
    pub base_url: String,
    pub model: String,
    pub api_key: Option<String>,
}

/// What happens next with settings that were sent in.
#[derive(Debug)]
pub enum SettingsStep {
    /// They are accepted.
    Accept(PutAiSettings),
    /// The endpoint has to be resolved to an allowed address.
    ResolveEndpoint(SettingsDraft),
    /// The connection has to be tried with these settings.
    TryConnection(PutAiSettings),
}

/// What is wrong with custom settings, before the endpoint is looked at.
pub open spec fn settings_fault(body: AiSettingsBody, test_connection: bool) -> Option<Seq<char>> {
    let model = said(opt_view(body.model));
    if opt_view(body.provider) != Some("openai_compat"@) {
        Some("custom provider must be openai_compat"@)
    } else if body.base_url is None {
        Some("base_url is required for custom AI"@)
    } else if model is None {
        Some("model is required for custom AI"@)
    } else if byte_len(model->0) > MAX_MODEL_BYTES {
        Some("model is too long"@)
    } else if !test_connection && said(opt_view(body.api_key)) is Some {
        Some("custom AI API keys must remain in device-local storage"@)
    } else {
        None
    }
}

/// The first step. `mode` is the mode that was asked for, when it is one.
pub fn prepare_ai_settings(mode: Option<AiMode>, body: &AiSettingsBody, test_connection: bool) -> (r:
    Result<SettingsStep, ApiError>)
    ensures
        match mode {
            None => refused(r, "mode must be builtin, custom, or off"@),
            Some(AiMode::Custom) => match settings_fault(*body, test_connection) {
                Some(message) => refused(r, message),
                None => r matches Ok(SettingsStep::ResolveEndpoint(draft)) && draft.base_url@
                    == body.base_url->0@ && said(opt_view(body.model)) == Some(draft.model@)
                    && opt_view(draft.api_key) == said(opt_view(body.api_key)),
            },
            Some(other) => r matches Ok(SettingsStep::Accept(settings)) && settings.is_bare(other),
        },
{
    let mode = match mode {
        Some(mode) => mode,
        None => return Err(invalid_argument("mode must be builtin, custom, or off")),
    };
    if mode != AiMode::Custom {
        return Ok(
            SettingsStep::Accept(
                PutAiSettings { mode, provider: None, base_url: None, model: None, api_key: None },
            ),
        );
    }
    let compatible = match &body.provider {
        Some(provider) => str_eq(provider.as_str(), "openai_compat"),
        None => false,
    };
    if !compatible {
        return Err(invalid_argument("custom provider must be openai_compat"));
    }
    let base_url = match &body.base_url {
        Some(url) => url.clone(),
        None => return Err(invalid_argument("base_url is required for custom AI")),
    };
    let model = match said_text(&body.model) {
        Some(model) => model,
        None => return Err(invalid_argument("model is required for custom AI")),
    };
    if str_byte_len(model.as_str()) > MAX_MODEL_BYTES {
        return Err(invalid_argument("model is too long"));
    }
    let api_key = said_text(&body.api_key);
    if !test_connection && api_key.is_some() {
        return Err(invalid_argument("custom AI API keys must remain in device-local storage"));
    }
    Ok(SettingsStep::ResolveEndpoint(SettingsDraft { base_url, model, api_key }))
}

/// The step after the endpoint was looked at: `base_url` is its normal form, when it is
/// allowed.
pub fn endpoint_resolved(draft: SettingsDraft, base_url: Option<String>, test_connection: bool) -> (r:
    Result<SettingsStep, ApiError>)
    ensures
        match base_url {
            None => refused(r, "custom AI endpoint is not allowed"@),
            Some(url) => if test_connection {
                if draft.api_key is None {
                    refused(r, "api_key is required for a connection test"@)
                } else {
                    r matches Ok(SettingsStep::TryConnection(settings)) && settings.is_custom(
                        url@,
                        draft.model@,
                        opt_view(draft.api_key),
                    )
                }
            } else {
                r matches Ok(SettingsStep::Accept(settings)) && settings.is_custom(
                    url@,
                    draft.model@,
                    opt_view(draft.api_key),
                )
            },
        },
{
    let base_url = match base_url {
        Some(url) => url,
        None => return Err(invalid_argument("custom AI endpoint is not allowed")),
    };
    if test_connection && draft.api_key.is_none() {
        return Err(invalid_argument("api_key is required for a connection test"));
    }
    let settings = PutAiSettings {
        mode: AiMode::Custom,
        provider: Some("openai_compat".to_owned()),
        base_url: Some(base_url),
        model: Some(draft.model),
        api_key: draft.api_key,
    };
    if test_connection {
        Ok(SettingsStep::TryConnection(settings))
    } else {
        Ok(SettingsStep::Accept(settings))
    }
}

/// The step after the connection was tried.
pub fn connection_tried(settings: PutAiSettings, succeeded: bool) -> (r: Result<
    SettingsStep,
    ApiError,
>)
    ensures
        succeeded ==> r == Ok::<SettingsStep, ApiError>(SettingsStep::Accept(settings)),
        !succeeded ==> (r matches Err(e) && e.is(
            502,
            "ai_connection_failed"@,
            "custom AI connection test failed"@,
        )),
{
    if succeeded {
        Ok(SettingsStep::Accept(settings))
    } else {
        Err(api_error(502, "ai_connection_failed", "custom AI connection test failed"))
    }
}

/// No credential of a device is ever saved: settings that are accepted without a
/// connection test hold no key.
pub proof fn lemma_saved_settings_hold_no_key(
    body: AiSettingsBody,
    draft: SettingsDraft,
    settings: PutAiSettings,
    base_url: Seq<char>,
)
    requires
        settings_fault(body, false) is None,
        opt_view(draft.api_key) == said(opt_view(body.api_key)),
        settings.is_custom(base_url, draft.model@, opt_view(draft.api_key)),
    ensures
        settings.api_key is None,
{
}

/// What came of asking an endpoint for its models.
#[derive(Debug)]
pub enum Discovery {
    EndpointRefused,
    ConfigurationInvalid,
    ListFailed,
    Listed(Vec<String>),
}

/// A discovery needs a key.
pub fn check_discovery(api_key: &str) -> (r: Result<(), ApiError>)
    ensures
        trimmed(api_key@).len() == 0 ==> refused(r, "api_key is required"@),
        trimmed(api_key@).len() > 0 ==> r is Ok,
{
    if is_blank(api_key) {
        Err(invalid_argument("api_key is required"))
    } else {
        Ok(())
    }
}

/// The answer to a discovery: the models that the endpoint offers, or why there are none.
pub fn discover_custom_models(outcome: Discovery) -> (r: Result<Vec<String>, ApiError>)
    ensures
        match outcome {
            Discovery::EndpointRefused => refused(r, "custom AI endpoint is not allowed"@),
            Discovery::ConfigurationInvalid => refused(r, "custom AI configuration is invalid"@),
            Discovery::ListFailed => r matches Err(e) && e.is(
                502,
                "ai_connection_failed"@,
                "could not list models from the custom endpoint"@,
            ),
            Discovery::Listed(models) => r matches Ok(listed) && views(listed@) == views(models@),
        },
{
    match outcome {
        Discovery::EndpointRefused => Err(invalid_argument("custom AI endpoint is not allowed")),
        Discovery::ConfigurationInvalid => Err(
            invalid_argument("custom AI configuration is invalid"),
        ),
        Discovery::ListFailed => Err(
            api_error(
                502,
                "ai_connection_failed",
                "could not list models from the custom endpoint",
            ),
        ),
        Discovery::Listed(models) => Ok(models),
    }
}

/// What is left of the daily budget, when the use of the day is known.
pub fn daily_remaining(daily_budget: u32, used: Option<u32>) -> (r: Option<u32>)
    ensures
        r is Some <==> used is Some,
        used is Some ==> r->0 == (if used->0 >= daily_budget {
            0
        } else {
            daily_budget - used->0
        }),
{
    match used {
        Some(used) => Some(daily_budget.saturating_sub(used)),
        None => None,
    }
}

} // verus!
