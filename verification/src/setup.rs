//! What a start, a reload and an update each ask for, and where the daemon keeps
//! its files.

use vstd::prelude::*;
use crate::engine::{first_source_of, Source};

verus! {

/// Why the snapshot is set up.
#[derive(Clone, Copy, Debug, PartialEq, Eq, Structural)]
pub enum InitKind {
    /// The daemon starts.
    Startup,
    /// A client asked for a reload.
    Reload,
    /// A client asked for an update.
    Update,
}

/// Whether the registry pass of a setup refreshes every entry: only an update
/// does.
pub open spec fn forces_refresh(kind: InitKind) -> bool {
    kind == InitKind::Update
}

/// Whether a setup takes the registry as changed, given whether its pass
/// refreshed an entry. A start goes by the pass. A reload and an update always
/// do, so that the rules are compiled again whatever was fetched.
pub open spec fn counts_as_changed(kind: InitKind, pass_changed: bool) -> bool {
    match kind {
        InitKind::Startup => pass_changed,
        InitKind::Reload => true,
        InitKind::Update => true,
    }
}

/// The setup that a refresh asks for: an update where it is forced, else a
/// reload.
pub open spec fn refresh_kind_of(force: bool) -> InitKind {
    if force {
        InitKind::Update
    } else {
        InitKind::Reload
    }
}

/// Whether the registry pass of a setup refreshes every entry.
pub fn pass_is_forced(kind: InitKind) -> (force: bool)
    ensures
        force == forces_refresh(kind),
{
    match kind {
        InitKind::Update => true,
        _ => false,
    }
}

/// Whether a setup takes the registry as changed, given whether its pass
/// refreshed an entry.
pub fn registry_changed(kind: InitKind, pass_changed: bool) -> (changed: bool)
    ensures
        changed == counts_as_changed(kind, pass_changed),
{
    match kind {
        InitKind::Startup => pass_changed,
        _ => true,
    }
}

/// The setup that a refresh asks for.
pub fn refresh_kind(force: bool) -> (kind: InitKind)
    ensures
        kind == refresh_kind_of(force),
{
    if force {
        InitKind::Update
    } else {
        InitKind::Reload
    }
}

/// Where the daemon keeps its files.
#[derive(Debug, PartialEq, Eq)]
pub struct Layout {
    /// The directory of the daemon's configuration.
    pub config_dir: String,
    /// The directory of the list files, one per subscription, and of the custom
    /// filters.
    pub lists_dir: String,
    /// The file of the stored snapshot.
    pub engine_file: String,
    /// The registry.
    pub urls_file: String,
    /// The file of the user's own filters.
    pub custom_filters_file: String,
}

/// The path of the configuration directory below a home directory.
pub open spec fn config_dir_of(home: Seq<char>) -> Seq<char> {
    home + "/.config/ars"@
}

impl Layout {
    /// Whether the layout is the one below the home directory `home`.
    pub open spec fn is_below(&self, home: Seq<char>) -> bool {
        &&& self.config_dir@ == config_dir_of(home)
        &&& self.lists_dir@ == config_dir_of(home) + "/lists"@
        &&& self.engine_file@ == config_dir_of(home) + "/engine"@
        &&& self.urls_file@ == config_dir_of(home) + "/urls"@
        &&& self.custom_filters_file@ == config_dir_of(home) + "/lists"@ + "/custom"@
    }

    /// The layout below a home directory.
    pub fn below(home: &str) -> (layout: Layout)
        ensures
            layout.is_below(home@),
    {
        let config_dir = String::from_str(home).concat("/.config/ars");
        let lists_dir = config_dir.clone().concat("/lists");
        let engine_file = config_dir.clone().concat("/engine");
        let urls_file = config_dir.clone().concat("/urls");
        let custom_filters_file = lists_dir.clone().concat("/custom");
        Layout { config_dir, lists_dir, engine_file, urls_file, custom_filters_file }
    }
}

/// The path of the socket on which the daemon listens unless told otherwise.
pub fn default_socket_path() -> (path: &'static str)
    ensures
        path@ == "/tmp/ars"@,
{
    "/tmp/ars"
}

/// The line that the daemon prints once the socket is bound and the first
/// snapshot is ready.
pub fn ready_line() -> (line: &'static str)
    ensures
        line@ == "init-done"@,
{
    "init-done"
}

/// A reload and an update never reuse the stored snapshot: whatever their pass
/// fetched and whether or not a cache file exists, the lists are compiled.
pub proof fn law_commands_compile_again(force: bool, pass_changed: bool, cache_exists: bool)
    ensures
        first_source_of(
            counts_as_changed(refresh_kind_of(force), pass_changed),
            cache_exists,
        ) == Source::Lists,
{
}

/// A start whose pass refreshed nothing looks into an existing cache first.
pub proof fn law_quiet_start_tries_cache()
    ensures
        first_source_of(counts_as_changed(InitKind::Startup, false), true) == Source::Cache,
{
}

} // verus!
