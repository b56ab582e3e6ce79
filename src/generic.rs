//! The handler for POSIX shells, which read `~/.profile`.

use vstd::prelude::*;
use crate::config::{
    detect_modifications, detected_lines, export_block, first_occurrences, format_export_at,
    modification_view, parse_entries, path_entries, rewrite_config, rewritten, strs,
    ModificationType, PathModification, ShellType,
};
use crate::lines::lines_of;
use crate::outside::{home_dir, local_now, opt_view};
use crate::paths::{home_or_root, in_home, joined};
use crate::timestamp::LocalTime;

verus! {

/// The handler for POSIX shells.
pub struct GenericHandler {
    pub config_path: String,
    pub home: Option<String>,
}

impl GenericHandler {
    /// A handler for the current user, reading `.profile` in the home directory.
    pub fn new() -> (r: Self)
        ensures
            r.config_path@ == joined(home_or_root(opt_view(r.home)), ".profile"@),
    {
        Self::from_home(home_dir())
    }

    /// A handler for the user whose home directory is `home` (the root where
    /// none is known).
    pub fn from_home(home: Option<String>) -> (r: Self)
        ensures
            r.config_path@ == joined(home_or_root(opt_view(home)), ".profile"@),
            opt_view(r.home) == opt_view(home),
    {
        let config_path = in_home(&home, ".profile");
        GenericHandler { config_path, home }
    }

    /// A handler that reads and writes `config_path`.
    pub fn with_config_path(config_path: String, home: Option<String>) -> (r: Self)
        ensures
            r.config_path@ == config_path@,
            opt_view(r.home) == opt_view(home),
    {
        GenericHandler { config_path, home }
    }

    pub fn get_shell_type(&self) -> (r: ShellType)
        ensures
            r == ShellType::Generic,
    {
        ShellType::Generic
    }

    pub fn get_config_path(&self) -> (r: String)
        ensures
            r@ == self.config_path@,
    {
        self.config_path.clone()
    }

    /// Every PATH entry that `content` assigns, in the order met, duplicates kept.
    pub fn parse_path_entries(&self, content: &str) -> (r: Vec<String>)
        ensures
            strs(r@) == path_entries(content@, opt_view(self.home), false),
    {
        parse_entries(content, &self.home, false)
    }

    /// The block that sets PATH to `entries`, stamped with the time now.
    pub fn format_path_export(&self, entries: &Vec<String>) -> (r: String)
        ensures
            exists|t: LocalTime| t.wf() && r@ == export_block(strs(entries@), t),
    {
        let now = local_now();
        self.format_path_export_at(entries, &now)
    }

    /// The block that sets PATH to `entries`, stamped with `now`.
    pub fn format_path_export_at(&self, entries: &Vec<String>, now: &LocalTime) -> (r: String)
        requires
            now.wf(),
        ensures
            r@ == export_block(strs(entries@), *now),
    {
        format_export_at(entries, now)
    }

    /// The lines of `content` that assign PATH.
    pub fn detect_path_modifications(&self, content: &str) -> (r: Vec<PathModification>)
        ensures
            r@.map_values(|m: PathModification| modification_view(m)) == detected_lines(lines_of(content@)),
            forall|k: int| 0 <= k < r@.len() ==> r@[k].modification_type == ModificationType::Assignment,
    {
        detect_modifications(content)
    }

    /// `content` without its PATH assignments, and with a block that sets
    /// PATH to `entries`, stamped with the time now.
    pub fn update_path_in_config(&self, content: &str, entries: &Vec<String>) -> (r: String)
        ensures
            exists|t: LocalTime| t.wf() && r@ == rewritten(content@, strs(entries@), t),
    {
        let now = local_now();
        self.update_path_in_config_at(content, entries, &now)
    }

    /// `content` without its PATH assignments, and with a block that sets
    /// PATH to `entries`, stamped with `now`.
    pub fn update_path_in_config_at(&self, content: &str, entries: &Vec<String>, now: &LocalTime) -> (r: String)
        requires
            now.wf(),
        ensures
            r@ == rewritten(content@, strs(entries@), *now),
    {
        rewrite_config(content, entries, now)
    }
}

} // verus!
