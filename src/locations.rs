//! Where the tool keeps its configuration and its cache on this machine.

use vstd::prelude::*;
use directories::ProjectDirs;
use crate::error::SearchError;
use crate::text::owned;

verus! {

/// The `directories` crate's set of standard directories of one application.
#[verifier::external_type_specification]
#[verifier::external_body]
pub struct ExProjectDirs(ProjectDirs);

/// Relies on `directories::ProjectDirs::from`: the application's standard
/// directories, or `None` when the system gives no home directory. Nothing
/// more is known of the result, which depends on the machine.
#[verifier::external_body]
fn project_dirs(qualifier: &str, organization: &str, application: &str) -> (r: Option<ProjectDirs>) {
    ProjectDirs::from(qualifier, organization, application)
}

/// Relies on `ProjectDirs::config_dir`: the configuration directory, as text.
#[verifier::external_body]
fn config_dir_text(dirs: &ProjectDirs) -> (r: String) {
    dirs.config_dir().to_string_lossy().into_owned()
}

/// Relies on `ProjectDirs::cache_dir`: the cache directory, as text.
#[verifier::external_body]
fn cache_dir_text(dirs: &ProjectDirs) -> (r: String) {
    dirs.cache_dir().to_string_lossy().into_owned()
}

/// Relies on `Path::join`: `file` inside the directory `dir`, as text.
#[verifier::external_body]
fn join_path(dir: &str, file: &str) -> (r: String) {
    std::path::Path::new(dir).join(file).to_string_lossy().into_owned()
}

/// This tool's standard directories.
fn tool_dirs() -> (r: Option<ProjectDirs>) {
    project_dirs("com", "cli-web-search", "cli-web-search")
}

/// The configuration directory of the given standard directories: an error
/// exactly when there are none.
pub fn config_dir_of(dirs: Option<&ProjectDirs>) -> (r: Result<String, SearchError>)
    ensures
        dirs is Some <==> r is Ok,
        r matches Err(e) ==> (e matches SearchError::Config(m) && m@ == "Could not determine config directory"@),
{
    match dirs {
        Some(d) => Ok(config_dir_text(d)),
        None => Err(SearchError::Config(owned("Could not determine config directory"))),
    }
}

/// The cache directory of the given standard directories: an error exactly
/// when there are none.
pub fn cache_dir_of(dirs: Option<&ProjectDirs>) -> (r: Result<String, SearchError>)
    ensures
        dirs is Some <==> r is Ok,
        r matches Err(e) ==> (e matches SearchError::Config(m) && m@ == "Could not determine cache directory"@),
{
    match dirs {
        Some(d) => Ok(cache_dir_text(d)),
        None => Err(SearchError::Config(owned("Could not determine cache directory"))),
    }
}

/// The configuration directory on this machine.
pub fn config_dir() -> (r: Result<String, SearchError>)
    ensures
        r matches Err(e) ==> (e matches SearchError::Config(m) && m@ == "Could not determine config directory"@),
{
    let dirs = tool_dirs();
    config_dir_of(dirs.as_ref())
}

/// The configuration file on this machine: `config.yaml` in the
/// configuration directory.
pub fn config_path() -> (r: Result<String, SearchError>)
    ensures
        r matches Err(e) ==> (e matches SearchError::Config(m) && m@ == "Could not determine config directory"@),
{
    let dir = config_dir()?;
    Ok(join_path(dir.as_str(), "config.yaml"))
}

/// The cache directory on this machine.
pub fn cache_dir() -> (r: Result<String, SearchError>)
    ensures
        r matches Err(e) ==> (e matches SearchError::Config(m) && m@ == "Could not determine cache directory"@),
{
    let dirs = tool_dirs();
    cache_dir_of(dirs.as_ref())
}

} // verus!
