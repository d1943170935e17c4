//! Decision logic of the workspace configuration store.
//!
//! The store persists the chosen workspace directory at a fixed location and
//! reads it back leniently: a missing or unparsable configuration falls back
//! to the default workspace rather than failing.  The surrounding
//! application performs the file reads and writes and hands their outcome in
//! as plain values; the functions here decide what those outcomes mean.

use vstd::prelude::*;
use crate::config::{encode_config, encode_config_spec, parse_config, parse_config_spec};
use crate::errors::SupError;
use crate::paths::{
    default_workspace_path, default_workspace_spec, is_absolute, normalize_path, normalize_spec,
    opt_view,
};

verus! {

/// What the application found at the configuration file's fixed location.
pub enum ConfigFile {
    /// No file exists there.
    Absent,
    /// A file exists but could not be read; the payload describes why.
    Unreadable(String),
    /// The file's content.
    Content(String),
}

/// The workspace that stored content resolves to: the normalized stored
/// path when the content parses, the default workspace otherwise.
pub open spec fn resolve_content_spec(
    content: Seq<char>,
    home: Option<Seq<char>>,
    cwd: Option<Seq<char>>,
    app_root: Seq<char>,
) -> Seq<char> {
    match parse_config_spec(content) {
        Some(p) => normalize_spec(p, home, cwd),
        None => default_workspace_spec(app_root),
    }
}

/// The workspace directory that a load of the configuration yields.  Only a
/// file that exists yet cannot be read is an error; absence and unparsable
/// content fall back to the default workspace.
pub fn resolve_loaded(
    file: &ConfigFile,
    home: Option<&str>,
    cwd: Option<&str>,
    app_root: &str,
) -> (r: Result<String, SupError>)
    ensures
        match file {
            ConfigFile::Absent => r matches Ok(w) && w@ == default_workspace_spec(app_root@),
            ConfigFile::Unreadable(m) => r matches Err(SupError::Filesystem(d)) && d@ == m@,
            ConfigFile::Content(s) => r matches Ok(w) && w@ == resolve_content_spec(
                s@,
                opt_view(home),
                opt_view(cwd),
                app_root@,
            ),
        },
{
    match file {
        ConfigFile::Absent => Ok(default_workspace_path(app_root)),
        ConfigFile::Unreadable(m) => Err(SupError::Filesystem(m.clone())),
        ConfigFile::Content(s) => match parse_config(s.as_str()) {
            Some(p) => Ok(normalize_path(p.as_str(), home, cwd)),
            None => Ok(default_workspace_path(app_root)),
        },
    }
}

/// The normalized path and the file content that persisting a raw path
/// writes to the configuration file.
pub fn prepare_persist(raw: &str, home: Option<&str>, cwd: Option<&str>) -> (r: (String, String))
    ensures
        r.0@ == normalize_spec(raw@, opt_view(home), opt_view(cwd)),
        r.1@ == encode_config_spec(r.0@),
{
    let normalized = normalize_path(raw, home, cwd);
    let content = encode_config(normalized.as_str());
    (normalized, content)
}

/// Lenient load: whenever the stored content fails to parse, the resolved
/// workspace is the default one, never an error.
pub proof fn lemma_load_lenient(
    content: Seq<char>,
    home: Option<Seq<char>>,
    cwd: Option<Seq<char>>,
    app_root: Seq<char>,
)
    requires
        parse_config_spec(content) is None,
    ensures
        resolve_content_spec(content, home, cwd, app_root) == default_workspace_spec(app_root),
{
}

/// Round trip of the store: loading the content that persisting a raw path
/// wrote resolves to exactly the persisted normalized path, even against a
/// different home and working directory, provided the environment of the
/// persist pinned the path to an absolute one.
pub proof fn lemma_persist_then_load(
    raw: Seq<char>,
    home: Option<Seq<char>>,
    cwd: Option<Seq<char>>,
    home2: Option<Seq<char>>,
    cwd2: Option<Seq<char>>,
    app_root: Seq<char>,
)
    requires
        home is Some ==> is_absolute(home->0),
        cwd is Some,
        is_absolute(cwd->0),
    ensures
        resolve_content_spec(
            encode_config_spec(normalize_spec(raw, home, cwd)),
            home2,
            cwd2,
            app_root,
        ) == normalize_spec(raw, home, cwd),
{
    let n = normalize_spec(raw, home, cwd);
    crate::config::lemma_config_round_trip(n);
    crate::paths::lemma_normalize_absolute(raw, home, cwd);
    crate::paths::lemma_normalize_absolute_id(n, home2, cwd2);
}

} // verus!
