//! Workspace environments: the rows that create them and the guards that
//! keep exactly one default environment and protect referenced ones.

use vstd::prelude::*;
use crate::error::{StorageError, is_internal, internal};
use crate::text::same_text;

verus! {

/// The id and slug of the environment every workspace starts with.
pub const DEFAULT_ENVIRONMENT_ID: &'static str = "production";

/// An environment row to insert.
#[derive(Debug, Clone, PartialEq, Eq)]
pub struct NewWorkspaceEnvironment {
    pub workspace_id: String,
    pub id: String,
    pub slug: String,
    pub name: String,
    pub description: Option<String>,
    pub is_default: bool,
}

/// The id a new environment gets: the default environment keeps its
/// well-known id, any other slug gets `env_` and a fresh suffix.
pub fn environment_id_for(slug: &str, fresh_suffix: &str) -> (r: String)
    ensures
        slug@ == DEFAULT_ENVIRONMENT_ID@ ==> r@ == DEFAULT_ENVIRONMENT_ID@,
        slug@ != DEFAULT_ENVIRONMENT_ID@ ==> r@ == "env_"@ + fresh_suffix@,
{
    if same_text(slug, DEFAULT_ENVIRONMENT_ID) {
        DEFAULT_ENVIRONMENT_ID.to_owned()
    } else {
        let mut s = "env_".to_owned();
        vstd::string::StringExecFns::append(&mut s, fresh_suffix);
        s
    }
}

/// An update may not take the default flag off the current default: a
/// workspace keeps one default environment.
pub fn check_default_update(requested_default: Option<bool>, is_current_default: bool) -> (r: Result<
    (),
    StorageError,
>)
    ensures
        requested_default == Some(false) && is_current_default ==> (r matches Err(e) && is_internal(
            e,
            "workspace must have one default environment"@,
        )),
        !(requested_default == Some(false) && is_current_default) ==> r is Ok,
{
    if requested_default == Some(false) && is_current_default {
        Err(internal("workspace must have one default environment"))
    } else {
        Ok(())
    }
}

/// The default environment cannot be deleted, nor one that API keys, runs
/// or traces still reference.
pub fn check_environment_deletable(is_default: bool, api_keys: i64, runs: i64, traces: i64) -> (r:
    Result<(), StorageError>)
    requires
        0 <= api_keys,
        0 <= runs,
        0 <= traces,
        api_keys + runs + traces <= i64::MAX,
    ensures
        is_default ==> (r matches Err(e) && is_internal(e, "default environment cannot be deleted"@)),
        !is_default && api_keys + runs + traces > 0 ==> (r matches Err(e) && is_internal(
            e,
            "environment is still referenced by runtime data"@,
        )),
        !is_default && api_keys + runs + traces == 0 ==> r is Ok,
{
    if is_default {
        return Err(internal("default environment cannot be deleted"));
    }
    if api_keys + runs + traces > 0 {
        return Err(internal("environment is still referenced by runtime data"));
    }
    Ok(())
}

} // verus!
