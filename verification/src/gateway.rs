//! LLM gateway providers and routes: the stored encodings of provider kinds
//! and reliability modes, the rows that create them, and how updates apply.

use vstd::prelude::*;
use crate::error::{StorageError, is_internal, internal_with};
use crate::text::same_text;

verus! {

/// Whether a route retries and falls back.
#[derive(Debug, Clone, Copy, PartialEq, Eq, Structural)]
pub enum GatewayReliabilityMode {
    /// No retries or fallbacks (stored as `none`).
    Direct,
    Standard,
}

/// The API a provider connection speaks.
#[derive(Debug, Clone, Copy, PartialEq, Eq, Structural)]
pub enum GatewayProviderKind {
    OpenaiCompatible,
    Anthropic,
    PaymentHttp,
}

/// The stored text of a reliability mode.
pub fn reliability_mode_text(value: GatewayReliabilityMode) -> (r: &'static str)
    ensures
        r@ == match value {
            GatewayReliabilityMode::Direct => "none"@,
            GatewayReliabilityMode::Standard => "standard"@,
        },
{
    match value {
        GatewayReliabilityMode::Direct => "none",
        GatewayReliabilityMode::Standard => "standard",
    }
}

/// The reliability mode stored as `s`, if any.
pub open spec fn reliability_from_spec(s: Seq<char>) -> Option<GatewayReliabilityMode> {
    if s == "none"@ {
        Some(GatewayReliabilityMode::Direct)
    } else if s == "standard"@ {
        Some(GatewayReliabilityMode::Standard)
    } else {
        None
    }
}

/// Parses a stored reliability mode.
pub fn parse_reliability_mode(value: &str) -> (r: Result<GatewayReliabilityMode, StorageError>)
    ensures
        match reliability_from_spec(value@) {
            Some(m) => r == Ok::<GatewayReliabilityMode, StorageError>(m),
            None => r matches Err(e) && is_internal(e, "unknown gateway reliability mode: "@ + value@),
        },
{
    if same_text(value, "none") {
        Ok(GatewayReliabilityMode::Direct)
    } else if same_text(value, "standard") {
        Ok(GatewayReliabilityMode::Standard)
    } else {
        Err(internal_with("unknown gateway reliability mode: ", value))
    }
}

/// The stored text of a provider kind.
pub open spec fn provider_kind_spec(kind: GatewayProviderKind) -> Seq<char> {
    match kind {
        GatewayProviderKind::OpenaiCompatible => "openai_compatible"@,
        GatewayProviderKind::Anthropic => "anthropic"@,
        GatewayProviderKind::PaymentHttp => "payment_http"@,
    }
}

/// The provider kind stored as `s`, if any.
pub open spec fn provider_kind_from_spec(s: Seq<char>) -> Option<GatewayProviderKind> {
    if s == "openai_compatible"@ {
        Some(GatewayProviderKind::OpenaiCompatible)
    } else if s == "anthropic"@ {
        Some(GatewayProviderKind::Anthropic)
    } else if s == "payment_http"@ {
        Some(GatewayProviderKind::PaymentHttp)
    } else {
        None
    }
}

/// The stored text of a provider kind.
pub fn provider_kind_text(kind: GatewayProviderKind) -> (r: &'static str)
    ensures
        r@ == provider_kind_spec(kind),
{
    match kind {
        GatewayProviderKind::OpenaiCompatible => "openai_compatible",
        GatewayProviderKind::Anthropic => "anthropic",
        GatewayProviderKind::PaymentHttp => "payment_http",
    }
}

/// Parses a stored provider kind.
pub fn parse_provider_kind(value: &str) -> (r: Result<GatewayProviderKind, StorageError>)
    ensures
        match provider_kind_from_spec(value@) {
            Some(k) => r == Ok::<GatewayProviderKind, StorageError>(k),
            None => r matches Err(e) && is_internal(e, "unknown provider kind: "@ + value@),
        },
{
    if same_text(value, "openai_compatible") {
        Ok(GatewayProviderKind::OpenaiCompatible)
    } else if same_text(value, "anthropic") {
        Ok(GatewayProviderKind::Anthropic)
    } else if same_text(value, "payment_http") {
        Ok(GatewayProviderKind::PaymentHttp)
    } else {
        Err(internal_with("unknown provider kind: ", value))
    }
}

/// Every provider kind and reliability mode reads back from its text.
pub proof fn law_gateway_roundtrip(kind: GatewayProviderKind)
    ensures
        provider_kind_from_spec(provider_kind_spec(kind)) == Some(kind),
        reliability_from_spec("none"@) == Some(GatewayReliabilityMode::Direct),
        reliability_from_spec("standard"@) == Some(GatewayReliabilityMode::Standard),
{
    reveal_strlit("openai_compatible");
    reveal_strlit("anthropic");
    reveal_strlit("payment_http");
    reveal_strlit("none");
    reveal_strlit("standard");
    assert("openai_compatible"@[0] == 'o');
    assert("anthropic"@[0] == 'a');
    assert("payment_http"@[0] == 'p');
    assert("none"@[0] == 'n');
    assert("standard"@[0] == 's');
}

/// A provider connection row to insert.
#[derive(Debug, Clone, PartialEq, Eq)]
pub struct NewGatewayProviderConnection {
    pub workspace_id: String,
    pub id: String,
    pub display_name: String,
    pub kind: String,
    pub base_url: Option<String>,
    pub default_model: String,
    pub encrypted_api_key: String,
}

/// A route row to insert.
#[derive(Debug, Clone, PartialEq, Eq)]
pub struct NewGatewayRoute {
    pub workspace_id: String,
    pub id: String,
    pub display_name: String,
    pub provider_connection_id: String,
    pub agent_id: String,
}

/// The editable fields of a provider connection.
#[derive(Debug, Clone, PartialEq, Eq)]
pub struct ProviderConnectionFields {
    pub display_name: String,
    pub base_url: Option<String>,
    pub default_model: String,
    pub encrypted_api_key: String,
}

/// A provider connection after an update: each given value replaces the
/// stored one; a given base URL may also clear it.
pub open spec fn provider_updated(
    current: ProviderConnectionFields,
    display_name: Option<String>,
    base_url: Option<Option<String>>,
    default_model: Option<String>,
    encrypted_api_key: Option<String>,
) -> ProviderConnectionFields {
    ProviderConnectionFields {
        display_name: match display_name {
            Some(v) => v,
            None => current.display_name,
        },
        base_url: match base_url {
            Some(v) => v,
            None => current.base_url,
        },
        default_model: match default_model {
            Some(v) => v,
            None => current.default_model,
        },
        encrypted_api_key: match encrypted_api_key {
            Some(v) => v,
            None => current.encrypted_api_key,
        },
    }
}

/// Applies an update to a provider connection.
pub fn update_provider_fields(
    current: ProviderConnectionFields,
    display_name: Option<String>,
    base_url: Option<Option<String>>,
    default_model: Option<String>,
    encrypted_api_key: Option<String>,
) -> (r: ProviderConnectionFields)
    ensures
        r == provider_updated(current, display_name, base_url, default_model, encrypted_api_key),
{
    let mut next = current;
    if let Some(v) = display_name {
        next.display_name = v;
    }
    if let Some(v) = base_url {
        next.base_url = v;
    }
    if let Some(v) = default_model {
        next.default_model = v;
    }
    if let Some(v) = encrypted_api_key {
        next.encrypted_api_key = v;
    }
    next
}

/// The editable fields of a route.
#[derive(Debug, Clone, PartialEq, Eq)]
pub struct RouteFields {
    pub display_name: String,
    pub provider_connection_id: String,
    pub agent_id: String,
    pub reliability_mode: GatewayReliabilityMode,
    pub fallback_provider_connection_ids: Vec<String>,
}

/// A partial update of a route.
#[derive(Debug, Clone, PartialEq, Eq)]
pub struct GatewayRoutePatch {
    pub display_name: Option<String>,
    pub provider_connection_id: Option<String>,
    pub agent_id: Option<String>,
    pub reliability_mode: Option<GatewayReliabilityMode>,
    pub fallback_provider_connection_ids: Option<Vec<String>>,
}

/// A route after a patch: each given value replaces the stored one.
pub open spec fn route_patched(current: RouteFields, patch: GatewayRoutePatch) -> RouteFields {
    RouteFields {
        display_name: match patch.display_name {
            Some(v) => v,
            None => current.display_name,
        },
        provider_connection_id: match patch.provider_connection_id {
            Some(v) => v,
            None => current.provider_connection_id,
        },
        agent_id: match patch.agent_id {
            Some(v) => v,
            None => current.agent_id,
        },
        reliability_mode: match patch.reliability_mode {
            Some(v) => v,
            None => current.reliability_mode,
        },
        fallback_provider_connection_ids: match patch.fallback_provider_connection_ids {
            Some(v) => v,
            None => current.fallback_provider_connection_ids,
        },
    }
}

/// Applies a patch to a route.
pub fn apply_route_patch(current: RouteFields, patch: GatewayRoutePatch) -> (r: RouteFields)
    ensures
        r == route_patched(current, patch),
{
    let mut next = current;
    if let Some(v) = patch.display_name {
        next.display_name = v;
    }
    if let Some(v) = patch.provider_connection_id {
        next.provider_connection_id = v;
    }
    if let Some(v) = patch.agent_id {
        next.agent_id = v;
    }
    if let Some(v) = patch.reliability_mode {
        next.reliability_mode = v;
    }
    if let Some(v) = patch.fallback_provider_connection_ids {
        next.fallback_provider_connection_ids = v;
    }
    next
}

/// Patching a route twice with the same patch is patching it once.
pub proof fn law_route_patch_idempotent(current: RouteFields, patch: GatewayRoutePatch)
    ensures
        route_patched(route_patched(current, patch), patch) == route_patched(current, patch),
{
}

} // verus!
