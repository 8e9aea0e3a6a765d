//! MCP gateway connections, tools and assignments: the encodings of auth
//! kinds and catalog states, how a connection patch applies, how a catalog
//! sync replaces a connection's tools, the sets of users an assignment
//! replacement keeps, adds and removes, and the bound on registered OAuth
//! clients. User ids are UUIDs taken as 128-bit integers, which order as
//! UUIDs do.

use vstd::prelude::*;
use crate::error::{StorageError, is_internal, internal_with};
use crate::text::same_text;
use crate::json::JsonValue;
use std::collections::BTreeSet;
use vstd::std_specs::btree::spec_btree_keys_iter;

verus! {

/// How the gateway authenticates to an MCP server.
#[derive(Debug, Clone, Copy, PartialEq, Eq, Structural)]
pub enum McpGatewayAuthKind {
    NoAuth,
    StaticBearer,
}

/// Whether a connection has the credential its auth kind needs.
#[derive(Debug, Clone, Copy, PartialEq, Eq, Structural)]
pub enum McpGatewayCredentialStatus {
    NotRequired,
    Configured,
    Missing,
}

/// The outcome of the last catalog sync.
#[derive(Debug, Clone, Copy, PartialEq, Eq, Structural)]
pub enum McpGatewaySyncStatus {
    Never,
    Succeeded,
    Failed,
}

/// Where a tool stands in the catalog.
#[derive(Debug, Clone, Copy, PartialEq, Eq, Structural)]
pub enum McpGatewayCatalogStatus {
    Active,
    SchemaChanged,
    Missing,
}

/// The stored text of an auth kind.
pub open spec fn auth_kind_spec(kind: McpGatewayAuthKind) -> Seq<char> {
    match kind {
        McpGatewayAuthKind::NoAuth => "none"@,
        McpGatewayAuthKind::StaticBearer => "static_bearer"@,
    }
}

/// The stored text of an auth kind.
pub fn auth_kind_text(kind: McpGatewayAuthKind) -> (r: &'static str)
    ensures
        r@ == auth_kind_spec(kind),
{
    match kind {
        McpGatewayAuthKind::NoAuth => "none",
        McpGatewayAuthKind::StaticBearer => "static_bearer",
    }
}

/// Parses a stored auth kind.
pub fn parse_auth_kind(value: &str) -> (r: Result<McpGatewayAuthKind, StorageError>)
    ensures
        value@ == "none"@ ==> r == Ok::<McpGatewayAuthKind, StorageError>(McpGatewayAuthKind::NoAuth),
        value@ != "none"@ && value@ == "static_bearer"@ ==> r == Ok::<
            McpGatewayAuthKind,
            StorageError,
        >(McpGatewayAuthKind::StaticBearer),
        value@ != "none"@ && value@ != "static_bearer"@ ==> (r matches Err(e) && is_internal(
            e,
            "invalid MCP auth kind: "@ + value@,
        )),
{
    if same_text(value, "none") {
        Ok(McpGatewayAuthKind::NoAuth)
    } else if same_text(value, "static_bearer") {
        Ok(McpGatewayAuthKind::StaticBearer)
    } else {
        Err(internal_with("invalid MCP auth kind: ", value))
    }
}

/// The credential status a connection shows.
pub fn credential_status(kind: McpGatewayAuthKind, has_credential: bool) -> (r:
    McpGatewayCredentialStatus)
    ensures
        r == match kind {
            McpGatewayAuthKind::NoAuth => McpGatewayCredentialStatus::NotRequired,
            McpGatewayAuthKind::StaticBearer => if has_credential {
                McpGatewayCredentialStatus::Configured
            } else {
                McpGatewayCredentialStatus::Missing
            },
        },
{
    match kind {
        McpGatewayAuthKind::NoAuth => McpGatewayCredentialStatus::NotRequired,
        McpGatewayAuthKind::StaticBearer => if has_credential {
            McpGatewayCredentialStatus::Configured
        } else {
            McpGatewayCredentialStatus::Missing
        },
    }
}

/// Parses a stored sync status.
pub fn parse_sync_status(value: &str) -> (r: Result<McpGatewaySyncStatus, StorageError>)
    ensures
        value@ == "never"@ ==> r == Ok::<McpGatewaySyncStatus, StorageError>(
            McpGatewaySyncStatus::Never,
        ),
        value@ != "never"@ && value@ == "succeeded"@ ==> r == Ok::<
            McpGatewaySyncStatus,
            StorageError,
        >(McpGatewaySyncStatus::Succeeded),
        value@ != "never"@ && value@ != "succeeded"@ && value@ == "failed"@ ==> r == Ok::<
            McpGatewaySyncStatus,
            StorageError,
        >(McpGatewaySyncStatus::Failed),
        value@ != "never"@ && value@ != "succeeded"@ && value@ != "failed"@ ==> (r matches Err(e)
            && is_internal(e, "invalid MCP sync status: "@ + value@)),
{
    if same_text(value, "never") {
        Ok(McpGatewaySyncStatus::Never)
    } else if same_text(value, "succeeded") {
        Ok(McpGatewaySyncStatus::Succeeded)
    } else if same_text(value, "failed") {
        Ok(McpGatewaySyncStatus::Failed)
    } else {
        Err(internal_with("invalid MCP sync status: ", value))
    }
}

/// Parses a stored catalog status.
pub fn parse_catalog_status(value: &str) -> (r: Result<McpGatewayCatalogStatus, StorageError>)
    ensures
        value@ == "active"@ ==> r == Ok::<McpGatewayCatalogStatus, StorageError>(
            McpGatewayCatalogStatus::Active,
        ),
        value@ != "active"@ && value@ == "schema_changed"@ ==> r == Ok::<
            McpGatewayCatalogStatus,
            StorageError,
        >(McpGatewayCatalogStatus::SchemaChanged),
        value@ != "active"@ && value@ != "schema_changed"@ && value@ == "missing"@ ==> r == Ok::<
            McpGatewayCatalogStatus,
            StorageError,
        >(McpGatewayCatalogStatus::Missing),
        value@ != "active"@ && value@ != "schema_changed"@ && value@ != "missing"@ ==> (r matches Err(
            e,
        ) && is_internal(e, "invalid MCP catalog status: "@ + value@)),
{
    if same_text(value, "active") {
        Ok(McpGatewayCatalogStatus::Active)
    } else if same_text(value, "schema_changed") {
        Ok(McpGatewayCatalogStatus::SchemaChanged)
    } else if same_text(value, "missing") {
        Ok(McpGatewayCatalogStatus::Missing)
    } else {
        Err(internal_with("invalid MCP catalog status: ", value))
    }
}

// ---------------------------------------------------------------------------
// Connection patches
// ---------------------------------------------------------------------------

/// What a patch does to a connection's stored credential.
#[derive(Debug, Clone, PartialEq, Eq)]
pub enum CredentialPatch {
    Preserve,
    Clear,
    Replace(String),
}

impl Default for CredentialPatch {
    fn default() -> (r: Self)
        ensures
            r == CredentialPatch::Preserve,
    {
        CredentialPatch::Preserve
    }
}

/// A partial update of a connection.
#[derive(Debug, Clone, PartialEq, Eq)]
pub struct McpConnectionPatch {
    pub display_name: Option<String>,
    pub endpoint_url: Option<String>,
    pub auth_kind: Option<McpGatewayAuthKind>,
    pub credential: CredentialPatch,
    pub enabled: Option<bool>,
    pub invalidate_catalog: bool,
}

/// The fields of a connection a patch can change. Instants are plain
/// integers on one clock.
#[derive(Debug, Clone, PartialEq, Eq)]
pub struct McpConnectionState {
    pub display_name: String,
    pub endpoint_url: String,
    pub auth_kind: McpGatewayAuthKind,
    pub encrypted_credential: Option<String>,
    pub enabled: bool,
    pub last_sync_status: McpGatewaySyncStatus,
    pub last_sync_error: Option<String>,
    pub last_synced_at: Option<i64>,
}

/// A connection after a patch: given fields replace stored ones; the
/// credential is kept, cleared or replaced, and dropped whenever the auth
/// kind needs none; invalidating the catalog resets the sync record.
pub open spec fn patched(current: McpConnectionState, patch: McpConnectionPatch) -> McpConnectionState {
    let auth = match patch.auth_kind {
        Some(k) => k,
        None => current.auth_kind,
    };
    let credential = match patch.credential {
        CredentialPatch::Preserve => current.encrypted_credential,
        CredentialPatch::Clear => None,
        CredentialPatch::Replace(v) => Some(v),
    };
    McpConnectionState {
        display_name: match patch.display_name {
            Some(v) => v,
            None => current.display_name,
        },
        endpoint_url: match patch.endpoint_url {
            Some(v) => v,
            None => current.endpoint_url,
        },
        auth_kind: auth,
        encrypted_credential: if auth == McpGatewayAuthKind::NoAuth {
            None
        } else {
            credential
        },
        enabled: match patch.enabled {
            Some(v) => v,
            None => current.enabled,
        },
        last_sync_status: if patch.invalidate_catalog {
            McpGatewaySyncStatus::Never
        } else {
            current.last_sync_status
        },
        last_sync_error: if patch.invalidate_catalog {
            None
        } else {
            current.last_sync_error
        },
        last_synced_at: if patch.invalidate_catalog {
            None
        } else {
            current.last_synced_at
        },
    }
}

/// Applies a patch to a connection.
pub fn apply_connection_patch(current: McpConnectionState, patch: McpConnectionPatch) -> (r:
    McpConnectionState)
    ensures
        r == patched(current, patch),
{
    let mut next = current;
    if let Some(display_name) = patch.display_name {
        next.display_name = display_name;
    }
    if let Some(endpoint_url) = patch.endpoint_url {
        next.endpoint_url = endpoint_url;
    }
    if let Some(auth_kind) = patch.auth_kind {
        next.auth_kind = auth_kind;
    }
    match patch.credential {
        CredentialPatch::Preserve => {},
        CredentialPatch::Clear => next.encrypted_credential = None,
        CredentialPatch::Replace(value) => next.encrypted_credential = Some(value),
    }
    if next.auth_kind == McpGatewayAuthKind::NoAuth {
        next.encrypted_credential = None;
    }
    if let Some(enabled) = patch.enabled {
        next.enabled = enabled;
    }
    if patch.invalidate_catalog {
        next.last_sync_status = McpGatewaySyncStatus::Never;
        next.last_sync_error = None;
        next.last_synced_at = None;
    }
    next
}

/// A patched connection without auth never holds a credential, and
/// applying the same patch again changes nothing more.
pub proof fn law_connection_patch(current: McpConnectionState, patch: McpConnectionPatch)
    ensures
        patched(current, patch).auth_kind == McpGatewayAuthKind::NoAuth ==> patched(
            current,
            patch,
        ).encrypted_credential is None,
        patched(patched(current, patch), patch) == patched(current, patch),
{
}

// ---------------------------------------------------------------------------
// Tool assignments
// ---------------------------------------------------------------------------

/// At most this many users can be assigned to one agent's tool.
pub const MAX_ASSIGNED_USERS: usize = 500;

/// Strictly increasing.
pub open spec fn strictly_increasing(s: Seq<u128>) -> bool {
    forall|i: int, j: int| 0 <= i < j < s.len() ==> s[i] < s[j]
}

/// User ids are totally ordered as integers, which the ordered set relies on.
proof fn lemma_user_ids_totally_ordered()
    ensures
        vstd::laws_cmp::obeys_cmp::<u128>(),
{
    broadcast use vstd::laws_cmp::group_laws_cmp;

}

/// Ids read from an ordered set in increasing order are strictly ascending.
proof fn lemma_increasing_ids<'a>(keys: Seq<&'a u128>)
    requires
        vstd::std_specs::btree::increasing_seq(keys),
    ensures
        forall|a: int, b: int| 0 <= a < b < keys.len() ==> *keys[a] < *keys[b],
{
    broadcast use vstd::laws_cmp::group_laws_cmp;
    broadcast use vstd::std_specs::btree::group_btree_axioms;

    assert(vstd::laws_cmp::obeys_cmp::<u128>());
    assert(vstd::laws_cmp::obeys_cmp::<&'a u128>());
    assert forall|a: int, b: int| 0 <= a < b < keys.len() implies *keys[a] < *keys[b] by {
        assert(vstd::std_specs::cmp::OrdSpec::cmp_spec(&keys[a], &keys[b]) is Less);
    }
}

/// The distinct user ids of a request, in ascending order: the ids are
/// collected into a `BTreeSet` and read back in its order.
pub fn distinct_user_ids(ids: &Vec<u128>) -> (r: Vec<u128>)
    ensures
        strictly_increasing(r@),
        forall|x: u128| r@.contains(x) <==> ids@.contains(x),
{
    broadcast use vstd::std_specs::btree::group_btree_axioms;

    proof {
        lemma_user_ids_totally_ordered();
    }
    let mut set: BTreeSet<u128> = BTreeSet::new();
    let mut i: usize = 0;
    while i < ids.len()
        invariant
            i <= ids.len(),
            forall|x: u128| set@.contains(x) <==> ids@.take(i as int).contains(x),
        decreases ids.len() - i,
    {
        let ghost t0 = ids@.take(i as int);
        let ghost t1 = ids@.take(i + 1);
        let x = ids[i];
        assert(t1 =~= t0.push(x));
        proof {
            lemma_user_ids_totally_ordered();
        }
        set.insert(x);
        proof {
            assert forall|y: u128| t1.contains(y) <==> t0.contains(y) || y == x by {
                if t1.contains(y) && y != x {
                    let m = choose|m: int| 0 <= m < t1.len() && t1[m] == y;
                    assert(t0[m] == y);
                }
                if t0.contains(y) {
                    let m = choose|m: int| 0 <= m < t0.len() && t0[m] == y;
                    assert(t1[m] == y);
                }
                if y == x {
                    assert(t1[t1.len() - 1] == x);
                }
            }
        }
        i = i + 1;
    }
    assert(ids@.take(ids.len() as int) =~= ids@);
    let mut out: Vec<u128> = Vec::new();
    for x in it: set.iter()
        invariant
            out@.len() == it.index(),
            forall|k: int| 0 <= k < it.index() ==> out@[k] == *it.seq()[k],
    {
        out.push(*x);
    }
    proof {
        lemma_user_ids_totally_ordered();
        let keys = vstd::std_specs::iter::IteratorSpec::remaining(&spec_btree_keys_iter(&set));
        assert(out@ =~= keys.unref());
        lemma_increasing_ids(keys);
        assert forall|a: int, b: int| 0 <= a < b < out@.len() implies out@[a] < out@[b] by {
            assert(*keys[a] == out@[a] && *keys[b] == out@[b]);
        }
        assert forall|x: u128| out@.contains(x) <==> set@.contains(x) by {
            assert(keys.unref().to_set().contains(x) <==> keys.unref().contains(x));
        }
    }
    out
}

/// The users an agent's tool is assigned to after a replacement: the
/// distinct requested users, in ascending order, at most 500 of them.
pub fn replacement_user_ids(user_ids: &Vec<u128>) -> (r: Result<Vec<u128>, StorageError>)
    ensures
        r matches Ok(v) ==> strictly_increasing(v@) && v@.len() <= 500 && forall|x: u128|
            v@.contains(x) <==> user_ids@.contains(x),
        r is Err ==> r == Err::<Vec<u128>, StorageError>(StorageError::Conflict),
        r is Err <==> user_ids@.to_set().len() > 500,
{
    let unique = distinct_user_ids(user_ids);
    proof {
        assert(unique@.to_set() =~= user_ids@.to_set());
        assert(unique@.no_duplicates()) by {
            assert forall|a: int, b: int|
                0 <= a < unique@.len() && 0 <= b < unique@.len() && a != b implies unique@[a]
                != unique@[b] by {
                if a < b {
                } else {
                }
            }
        }
        unique@.unique_seq_to_set();
    }
    if unique.len() > MAX_ASSIGNED_USERS {
        return Err(StorageError::Conflict);
    }
    Ok(unique)
}

/// Every requested user must be a workspace member: the member count of
/// the distinct users must equal their number.
pub fn check_members(member_count: i64, distinct_users: usize) -> (r: Result<(), StorageError>)
    ensures
        r is Ok <==> member_count == distinct_users,
        r is Err ==> r == Err::<(), StorageError>(StorageError::Conflict),
{
    if member_count < 0 || member_count as u128 != distinct_users as u128 {
        Err(StorageError::Conflict)
    } else {
        Ok(())
    }
}

/// The elements of `a` that `b` lacks, in order.
pub open spec fn without(a: Seq<u128>, b: Seq<u128>) -> Seq<u128>
    decreases a.len(),
{
    if a.len() == 0 {
        Seq::empty()
    } else {
        let rest = without(a.drop_last(), b);
        if b.contains(a.last()) {
            rest
        } else {
            rest.push(a.last())
        }
    }
}

fn contains_id(v: &Vec<u128>, x: u128) -> (r: bool)
    ensures
        r == v@.contains(x),
{
    let mut i: usize = 0;
    while i < v.len()
        invariant
            i <= v.len(),
            forall|k: int| 0 <= k < i ==> v@[k] != x,
        decreases v.len() - i,
    {
        if v[i] == x {
            return true;
        }
        i = i + 1;
    }
    false
}

/// The ids of `a` that are not in `b`, in order: the users a replacement
/// unassigns, or the legacy assignments no agent binds.
pub fn ids_not_in(a: &Vec<u128>, b: &Vec<u128>) -> (r: Vec<u128>)
    ensures
        r@ == without(a@, b@),
{
    let mut out: Vec<u128> = Vec::new();
    let mut i: usize = 0;
    while i < a.len()
        invariant
            i <= a.len(),
            out@ == without(a@.take(i as int), b@),
        decreases a.len() - i,
    {
        assert(a@.take(i + 1).drop_last() =~= a@.take(i as int));
        assert(a@.take(i + 1).last() == a@[i as int]);
        if !contains_id(b, a[i]) {
            out.push(a[i]);
        }
        i = i + 1;
    }
    assert(a@.take(a.len() as int) =~= a@);
    out
}

/// A dynamically registered OAuth client is admitted only while fewer
/// than `max_clients` are registered.
pub fn check_client_capacity(registered: i64, max_clients: i64) -> (r: Result<(), StorageError>)
    ensures
        registered < max_clients ==> r is Ok,
        registered >= max_clients ==> r == Err::<(), StorageError>(StorageError::Conflict),
{
    if registered >= max_clients {
        Err(StorageError::Conflict)
    } else {
        Ok(())
    }
}

// ---------------------------------------------------------------------------
// Catalog snapshots
// ---------------------------------------------------------------------------

/// A tool as a catalog sync reports it.
#[derive(Debug, PartialEq)]
pub struct CatalogToolInput {
    pub upstream_name: String,
    pub public_name: String,
    pub title: Option<String>,
    pub description: Option<String>,
    pub input_schema: JsonValue,
    pub output_schema: Option<JsonValue>,
    pub annotations: JsonValue,
    pub schema_hash: String,
}

/// A tool of a connection's catalog as stored.
#[derive(Debug, PartialEq)]
pub struct CatalogTool {
    pub id: u128,
    pub upstream_name: String,
    pub public_name: String,
    pub title: Option<String>,
    pub description: Option<String>,
    pub input_schema: JsonValue,
    pub output_schema: Option<JsonValue>,
    pub annotations: JsonValue,
    pub schema_hash: String,
    pub side_effect: String,
    pub catalog_status: McpGatewayCatalogStatus,
}

/// A stored tool with its texts taken as character sequences.
pub struct ToolView {
    pub id: u128,
    pub upstream_name: Seq<char>,
    pub public_name: Seq<char>,
    pub title: Option<Seq<char>>,
    pub description: Option<Seq<char>>,
    pub input_schema: JsonValue,
    pub output_schema: Option<JsonValue>,
    pub annotations: JsonValue,
    pub schema_hash: Seq<char>,
    pub side_effect: Seq<char>,
    pub catalog_status: McpGatewayCatalogStatus,
}

/// An optional text as an optional character sequence.
pub open spec fn opt_text(o: Option<String>) -> Option<Seq<char>> {
    match o {
        Some(s) => Some(s@),
        None => None,
    }
}

/// The view of a stored tool.
pub open spec fn tool_view(t: CatalogTool) -> ToolView {
    ToolView {
        id: t.id,
        upstream_name: t.upstream_name@,
        public_name: t.public_name@,
        title: opt_text(t.title),
        description: opt_text(t.description),
        input_schema: t.input_schema,
        output_schema: t.output_schema,
        annotations: t.annotations,
        schema_hash: t.schema_hash@,
        side_effect: t.side_effect@,
        catalog_status: t.catalog_status,
    }
}

/// The views of stored tools.
pub open spec fn tool_views(tools: Seq<CatalogTool>) -> Seq<ToolView> {
    tools.map_values(|t: CatalogTool| tool_view(t))
}

/// A reported tool stored as active under `id` with side effect `side_effect`.
pub open spec fn reported_tool(i: CatalogToolInput, id: u128, side_effect: Seq<char>) -> ToolView {
    ToolView {
        id,
        upstream_name: i.upstream_name@,
        public_name: i.public_name@,
        title: opt_text(i.title),
        description: opt_text(i.description),
        input_schema: i.input_schema,
        output_schema: i.output_schema,
        annotations: i.annotations,
        schema_hash: i.schema_hash@,
        side_effect,
        catalog_status: McpGatewayCatalogStatus::Active,
    }
}

/// The position of the stored tool with upstream name `name` (the last,
/// should there be several).
pub open spec fn tool_position(tools: Seq<ToolView>, name: Seq<char>) -> Option<int>
    decreases tools.len(),
{
    if tools.len() == 0 {
        None
    } else if tools.last().upstream_name == name {
        Some(tools.len() - 1)
    } else {
        tool_position(tools.drop_last(), name)
    }
}

/// Stores a reported tool: a tool with its upstream name is overwritten
/// with the report and made active, keeping its id and side effect; a new
/// one is added under `id`, classed as an API mutation.
pub open spec fn upsert_tool(tools: Seq<ToolView>, i: CatalogToolInput, id: u128) -> Seq<ToolView> {
    match tool_position(tools, i.upstream_name@) {
        Some(j) => tools.update(j, reported_tool(i, tools[j].id, tools[j].side_effect)),
        None => tools.push(reported_tool(i, id, "api_mutation"@)),
    }
}

/// The catalog after the reported tools are stored in order, the `k`-th
/// new one under `ids[k]`.
pub open spec fn catalog_after(tools: Seq<ToolView>, reported: Seq<CatalogToolInput>, ids: Seq<u128>) -> Seq<
    ToolView,
>
    decreases reported.len(),
{
    if reported.len() == 0 {
        tools
    } else {
        upsert_tool(
            catalog_after(tools, reported.drop_last(), ids),
            reported.last(),
            ids[reported.len() - 1],
        )
    }
}

/// The stored tools, each marked missing.
pub open spec fn all_missing(tools: Seq<CatalogTool>) -> Seq<ToolView> {
    tools.map_values(
        |t: CatalogTool|
            ToolView { catalog_status: McpGatewayCatalogStatus::Missing, ..tool_view(t) },
    )
}

proof fn lemma_tool_position_bounds(tools: Seq<ToolView>, name: Seq<char>)
    ensures
        tool_position(tools, name) matches Some(j) ==> 0 <= j < tools.len() && tools[j].upstream_name
            == name,
    decreases tools.len(),
{
    if tools.len() > 0 {
        lemma_tool_position_bounds(tools.drop_last(), name);
    }
}

fn find_tool(tools: &Vec<CatalogTool>, name: &String) -> (r: Option<usize>)
    ensures
        match r {
            Some(j) => tool_position(tool_views(tools@), name@) == Some(
                j as int,
            ),
            None => tool_position(tool_views(tools@), name@) is None,
        },
{
    let ghost views = tool_views(tools@);
    let mut found: Option<usize> = None;
    let mut i: usize = 0;
    while i < tools.len()
        invariant
            i <= tools.len(),
            views == tool_views(tools@),
            match found {
                Some(j) => tool_position(views.take(i as int), name@) == Some(j as int),
                None => tool_position(views.take(i as int), name@) is None,
            },
        decreases tools.len() - i,
    {
        proof {
            assert(views.take(i + 1).drop_last() =~= views.take(i as int));
            assert(views.take(i + 1).last() == tool_view(tools@[i as int]));
        }
        if tools[i].upstream_name == *name {
            found = Some(i);
        }
        i = i + 1;
    }
    proof {
        assert(views.take(tools.len() as int) =~= views);
    }
    found
}

/// Replaces a connection's catalog with a sync's report: every stored tool
/// is first marked missing, then each reported tool is stored in order, the
/// `k`-th reported tool taking `new_ids[k]` should it be new.
pub fn replace_catalog(existing: Vec<CatalogTool>, reported: Vec<CatalogToolInput>, new_ids: &Vec<u128>) -> (r:
    Vec<CatalogTool>)
    requires
        new_ids.len() == reported.len(),
    ensures
        tool_views(r@) == catalog_after(
            all_missing(existing@),
            reported@,
            new_ids@,
        ),
{
    let ghost start = existing@;
    let mut tools: Vec<CatalogTool> = Vec::new();
    for t in it: existing.into_iter()
        invariant
            it.seq() == start,
            tools.len() == it.index(),
            tool_views(tools@) == all_missing(
                start.take(it.index() as int),
            ),
    {
        let ghost before = tools@;
        let n = tools.len();
        proof {
            assert(t == start[n as int]);
        }
        let ghost tv = tool_view(t);
        tools.push(
            CatalogTool {
                id: t.id,
                upstream_name: t.upstream_name,
                public_name: t.public_name,
                title: t.title,
                description: t.description,
                input_schema: t.input_schema,
                output_schema: t.output_schema,
                annotations: t.annotations,
                schema_hash: t.schema_hash,
                side_effect: t.side_effect,
                catalog_status: McpGatewayCatalogStatus::Missing,
            },
        );
        proof {
            assert(start.take(n + 1) =~= start.take(n as int).push(start[n as int]));
            assert(tool_view(tools@[n as int]) == ToolView {
                catalog_status: McpGatewayCatalogStatus::Missing,
                ..tv
            });
            assert forall|i: int| 0 <= i < n + 1 implies (#[trigger] tool_views(tools@)[i]) == all_missing(start.take(n + 1))[i] by {
                if i < n {
                    assert(tools@[i] == before[i]);
                    assert(tool_views(before)[i] == all_missing(
                        start.take(n as int),
                    )[i]);
                }
            }
            assert(tool_views(tools@) =~= all_missing(
                start.take(n + 1),
            ));
        }
    }
    proof {
        assert(start.take(start.len() as int) =~= start);
    }
    let ghost missing = tool_views(tools@);
    let ghost rep = reported@;
    let mut k: usize = 0;
    for input in it: reported.into_iter()
        invariant
            it.seq() == rep,
            k == it.index(),
            new_ids.len() == rep.len(),
            missing == all_missing(start),
            tool_views(tools@) == catalog_after(
                missing,
                rep.take(k as int),
                new_ids@,
            ),
    {
        let ghost before = tool_views(tools@);
        proof {
            assert(rep.take(k + 1).drop_last() =~= rep.take(k as int));
            assert(rep.take(k + 1).last() == input);
            lemma_tool_position_bounds(before, input.upstream_name@);
        }
        match find_tool(&tools, &input.upstream_name) {
            Some(j) => {
                let id = tools[j].id;
                let side_effect = tools[j].side_effect.clone();
                let updated = CatalogTool {
                    id,
                    upstream_name: input.upstream_name,
                    public_name: input.public_name,
                    title: input.title,
                    description: input.description,
                    input_schema: input.input_schema,
                    output_schema: input.output_schema,
                    annotations: input.annotations,
                    schema_hash: input.schema_hash,
                    side_effect,
                    catalog_status: McpGatewayCatalogStatus::Active,
                };
                let ghost uv = tool_view(updated);
                tools.set(j, updated);
                proof {
                    assert(tool_views(tools@) =~= before.update(
                        j as int,
                        uv,
                    ));
                }
            },
            None => {
                let added = CatalogTool {
                    id: new_ids[k],
                    upstream_name: input.upstream_name,
                    public_name: input.public_name,
                    title: input.title,
                    description: input.description,
                    input_schema: input.input_schema,
                    output_schema: input.output_schema,
                    annotations: input.annotations,
                    schema_hash: input.schema_hash,
                    side_effect: "api_mutation".to_owned(),
                    catalog_status: McpGatewayCatalogStatus::Active,
                };
                let ghost av = tool_view(added);
                tools.push(added);
                proof {
                    assert(tool_views(tools@) =~= before.push(av));
                }
            },
        }
        k = k + 1;
    }
    proof {
        assert(rep.take(rep.len() as int) =~= rep);
    }
    tools
}

/// No two tools share an upstream name.
pub open spec fn names_distinct(tools: Seq<ToolView>) -> bool {
    forall|a: int, b: int|
        #![trigger tools[a], tools[b]]
        0 <= a < b < tools.len() ==> tools[a].upstream_name != tools[b].upstream_name
}

/// Some reported tool has upstream name `name`.
pub open spec fn reported_name(reported: Seq<CatalogToolInput>, name: Seq<char>) -> bool {
    exists|k: int| 0 <= k < reported.len() && (#[trigger] reported[k]).upstream_name@ == name
}

proof fn lemma_tool_position_none(tools: Seq<ToolView>, name: Seq<char>)
    requires
        tool_position(tools, name) is None,
    ensures
        forall|j: int| 0 <= j < tools.len() ==> (#[trigger] tools[j]).upstream_name != name,
    decreases tools.len(),
{
    if tools.len() > 0 {
        lemma_tool_position_none(tools.drop_last(), name);
        assert forall|j: int| 0 <= j < tools.len() implies (#[trigger] tools[j]).upstream_name != name by {
            if j < tools.len() - 1 {
                assert(tools.drop_last()[j] == tools[j]);
            }
        }
    }
}

proof fn lemma_catalog_step(
    existing: Seq<CatalogTool>,
    reported: Seq<CatalogToolInput>,
    ids: Seq<u128>,
)
    requires
        ids.len() == reported.len(),
        names_distinct(tool_views(existing)),
    ensures
        ({
            let r = catalog_after(all_missing(existing), reported, ids);
            &&& r.len() >= existing.len()
            &&& forall|j: int|
                0 <= j < existing.len() ==> (#[trigger] r[j]).id == existing[j].id
                    && r[j].upstream_name == existing[j].upstream_name@ && r[j].side_effect
                    == existing[j].side_effect@
            &&& names_distinct(r)
            &&& forall|j: int|
                0 <= j < r.len() ==> ((#[trigger] r[j]).catalog_status
                    == McpGatewayCatalogStatus::Active) == reported_name(reported, r[j].upstream_name)
        }),
    decreases reported.len(),
{
    let m = all_missing(existing);
    if reported.len() == 0 {
        assert forall|a: int, b: int| #![trigger m[a], m[b]] 0 <= a < b < m.len() implies m[a].upstream_name
            != m[b].upstream_name by {
            assert(tool_views(existing)[a].upstream_name == m[a].upstream_name);
            assert(tool_views(existing)[b].upstream_name == m[b].upstream_name);
        }
    } else {
        let prev_rep = reported.drop_last();
        let i = reported.last();
        lemma_catalog_step(existing, prev_rep, ids.subrange(0, prev_rep.len() as int));
        let ids_prefix = ids.subrange(0, prev_rep.len() as int);
        lemma_catalog_ids(m, prev_rep, ids, ids_prefix);
        let t = catalog_after(m, prev_rep, ids);
        let r = catalog_after(m, reported, ids);
        assert(r == upsert_tool(t, i, ids[reported.len() - 1]));
        lemma_tool_position_bounds(t, i.upstream_name@);
        assert forall|name: Seq<char>| #[trigger] reported_name(reported, name) == (reported_name(
            prev_rep,
            name,
        ) || i.upstream_name@ == name) by {
            if reported_name(prev_rep, name) {
                let k = choose|k: int| 0 <= k < prev_rep.len() && (#[trigger] prev_rep[k]).upstream_name@ == name;
                assert(reported[k] == prev_rep[k]);
            }
            if i.upstream_name@ == name {
                assert(reported[reported.len() - 1] == i);
            }
            if reported_name(reported, name) {
                let k = choose|k: int| 0 <= k < reported.len() && (#[trigger] reported[k]).upstream_name@ == name;
                if k < reported.len() - 1 {
                    assert(prev_rep[k] == reported[k]);
                }
            }
        }
        match tool_position(t, i.upstream_name@) {
            Some(p) => {
                assert forall|j: int| 0 <= j < r.len() implies ((#[trigger] r[j]).catalog_status
                    == McpGatewayCatalogStatus::Active) == reported_name(reported, r[j].upstream_name) by {
                    if j != p {
                        assert(r[j] == t[j]);
                        if j < p {
                            assert(t[j].upstream_name != t[p].upstream_name);
                        } else {
                            assert(t[p].upstream_name != t[j].upstream_name);
                        }
                    }
                    assert(reported_name(prev_rep, t[j].upstream_name) == (t[j].catalog_status
                        == McpGatewayCatalogStatus::Active));
                }
                assert forall|a: int, b: int| #![trigger r[a], r[b]] 0 <= a < b < r.len() implies r[a].upstream_name
                    != r[b].upstream_name by {
                    assert(t[a].upstream_name != t[b].upstream_name);
                }
            },
            None => {
                lemma_tool_position_none(t, i.upstream_name@);
                assert forall|j: int| 0 <= j < r.len() implies ((#[trigger] r[j]).catalog_status
                    == McpGatewayCatalogStatus::Active) == reported_name(reported, r[j].upstream_name) by {
                    if j < t.len() {
                        assert(r[j] == t[j]);
                        assert(reported_name(prev_rep, t[j].upstream_name) == (t[j].catalog_status
                            == McpGatewayCatalogStatus::Active));
                    }
                }
                assert forall|a: int, b: int| #![trigger r[a], r[b]] 0 <= a < b < r.len() implies r[a].upstream_name
                    != r[b].upstream_name by {
                    if b < t.len() {
                        assert(t[a].upstream_name != t[b].upstream_name);
                    } else {
                        assert(r[a] == t[a]);
                    }
                }
            },
        }
    }
}

proof fn lemma_catalog_ids(
    tools: Seq<ToolView>,
    reported: Seq<CatalogToolInput>,
    ids: Seq<u128>,
    prefix: Seq<u128>,
)
    requires
        prefix.len() <= ids.len(),
        reported.len() <= prefix.len(),
        forall|k: int| 0 <= k < prefix.len() ==> prefix[k] == ids[k],
    ensures
        catalog_after(tools, reported, ids) == catalog_after(tools, reported, prefix),
    decreases reported.len(),
{
    if reported.len() > 0 {
        lemma_catalog_ids(tools, reported.drop_last(), ids, prefix);
    }
}

/// Replacing a catalog whose tools have distinct upstream names loses no
/// tool, keeps each stored tool's id, upstream name and side effect in
/// place, keeps the names distinct, and leaves a tool active exactly when
/// the sync reported it.
pub proof fn law_catalog_replacement(
    existing: Seq<CatalogTool>,
    reported: Seq<CatalogToolInput>,
    ids: Seq<u128>,
)
    requires
        ids.len() == reported.len(),
        names_distinct(tool_views(existing)),
    ensures
        catalog_after(all_missing(existing), reported, ids).len() >= existing.len(),
        forall|j: int|
            0 <= j < existing.len() ==> (#[trigger] catalog_after(all_missing(existing), reported, ids)[j]).id
                == existing[j].id && catalog_after(all_missing(existing), reported, ids)[j].upstream_name
                == existing[j].upstream_name@ && catalog_after(all_missing(existing), reported, ids)[j].side_effect
                == existing[j].side_effect@,
        names_distinct(catalog_after(all_missing(existing), reported, ids)),
        forall|j: int|
            0 <= j < catalog_after(all_missing(existing), reported, ids).len() ==> ((#[trigger] catalog_after(
                all_missing(existing),
                reported,
                ids,
            )[j]).catalog_status == McpGatewayCatalogStatus::Active) == reported_name(
                reported,
                catalog_after(all_missing(existing), reported, ids)[j].upstream_name,
            ),
{
    lemma_catalog_step(existing, reported, ids);
}

} // verus!
