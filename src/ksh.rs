//! The handler for the Korn shell, which reads `~/.kshrc`, or one of its
//! profiles where that file is missing.

use vstd::prelude::*;
use crate::config::{
    detect_modifications, detected_lines, export_block, first_occurrences, format_export_at,
    modification_view, parse_entries, path_entries, rewrite_config, rewritten, strs,
    ModificationType, PathModification, ShellType,
};
use crate::lines::lines_of;
use crate::outside::{home_dir, local_now, opt_view};
use crate::paths::{home_or_root, in_home, joined};
use crate::timestamp::LocalTime;

verus! {

/// The handler for the Korn shell.
pub struct KshHandler {
    pub config_path: String,
    pub fallback_paths: Vec<String>,
    pub home: Option<String>,
}

/// The first of `exists` that holds stands at `k`.
pub open spec fn first_existing(exists: Seq<bool>, k: int) -> bool {
    0 <= k < exists.len() && exists[k] && forall|j: int| 0 <= j < k ==> !exists[j]
}

impl KshHandler {
    /// A handler for the current user: `.kshrc` in the home directory, with
    /// `.profile` and `.ksh_profile` there as fallbacks.
    pub fn new() -> (r: Self)
        ensures
            r.config_path@ == joined(home_or_root(opt_view(r.home)), ".kshrc"@),
            strs(r.fallback_paths@) == seq![
                joined(home_or_root(opt_view(r.home)), ".profile"@),
                joined(home_or_root(opt_view(r.home)), ".ksh_profile"@),
            ],
    {
        Self::from_home(home_dir())
    }

    /// A handler for the user whose home directory is `home` (the root where
    /// none is known).
    pub fn from_home(home: Option<String>) -> (r: Self)
        ensures
            r.config_path@ == joined(home_or_root(opt_view(home)), ".kshrc"@),
            strs(r.fallback_paths@) == seq![
                joined(home_or_root(opt_view(home)), ".profile"@),
                joined(home_or_root(opt_view(home)), ".ksh_profile"@),
            ],
            opt_view(r.home) == opt_view(home),
    {
        let config_path = in_home(&home, ".kshrc");
        let mut fallback_paths: Vec<String> = Vec::new();
        fallback_paths.push(in_home(&home, ".profile"));
        fallback_paths.push(in_home(&home, ".ksh_profile"));
        assert(strs(fallback_paths@) =~= seq![
            joined(home_or_root(opt_view(home)), ".profile"@),
            joined(home_or_root(opt_view(home)), ".ksh_profile"@),
        ]);
        KshHandler { config_path, fallback_paths, home }
    }

    /// A handler that reads and writes `config_path`, or the first of
    /// `fallback_paths` that exists where it does not.
    pub fn with_config_path(config_path: String, fallback_paths: Vec<String>, home: Option<String>) -> (r: Self)
        ensures
            r.config_path@ == config_path@,
            r.fallback_paths@ == fallback_paths@,
            opt_view(r.home) == opt_view(home),
    {
        KshHandler { config_path, fallback_paths, home }
    }

    /// The files to use where the primary one does not exist, in order of preference.
    pub fn get_fallback_paths(&self) -> (r: Vec<String>)
        ensures
            strs(r@) == strs(self.fallback_paths@),
    {
        let mut r: Vec<String> = Vec::new();
        let mut i: usize = 0;
        while i < self.fallback_paths.len()
            invariant
                i <= self.fallback_paths.len(),
                strs(r@) == strs(self.fallback_paths@.subrange(0, i as int)),
            decreases self.fallback_paths.len() - i,
        {
            let p = self.fallback_paths[i].clone();
            proof {
                assert(p@ == self.fallback_paths@[i as int]@);
                assert(strs(r@.push(p)) == strs(r@).push(p@));
                assert(strs(self.fallback_paths@.subrange(0, i as int + 1)) == strs(
                    self.fallback_paths@.subrange(0, i as int),
                ).push(p@));
            }
            r.push(p);
            i = i + 1;
        }
        assert(self.fallback_paths@.subrange(0, i as int) == self.fallback_paths@);
        r
    }

    pub fn get_shell_type(&self) -> (r: ShellType)
        ensures
            r == ShellType::Ksh,
    {
        ShellType::Ksh
    }

    /// The file to edit, given which files exist: the primary one where it
    /// exists, else the first fallback that exists, else the primary one (to
    /// be created). `fallback_exists[k]` tells whether `fallback_paths[k]` exists.
    pub fn get_config_path(&self, primary_exists: bool, fallback_exists: &Vec<bool>) -> (r: String)
        requires
            fallback_exists@.len() == self.fallback_paths@.len(),
        ensures
            (!primary_exists && exists|k: int| 0 <= k < fallback_exists@.len() && fallback_exists@[k])
                ==> exists|k: int| first_existing(fallback_exists@, k) && r@ == self.fallback_paths@[k]@,
            (primary_exists || forall|k: int| 0 <= k < fallback_exists@.len() ==> !fallback_exists@[k])
                ==> r@ == self.config_path@,
    {
        if !primary_exists {
            let mut i: usize = 0;
            while i < fallback_exists.len()
                invariant
                    i <= fallback_exists.len(),
                    !primary_exists,
                    fallback_exists@.len() == self.fallback_paths@.len(),
                    forall|j: int| 0 <= j < i ==> !fallback_exists@[j],
                decreases fallback_exists.len() - i,
            {
                if fallback_exists[i] {
                    let r = self.fallback_paths[i].clone();
                    assert(first_existing(fallback_exists@, i as int));
                    assert(fallback_exists@[i as int]);
                    return r;
                }
                i = i + 1;
            }
        }
        self.config_path.clone()
    }

    /// Every PATH entry that `content` assigns, each once, in the order first met.
    pub fn parse_path_entries(&self, content: &str) -> (r: Vec<String>)
        ensures
            strs(r@) == first_occurrences(path_entries(content@, opt_view(self.home), true)),
    {
        parse_entries(content, &self.home, true)
    }

    /// The block that sets PATH to `entries`, stamped with the time now.
    pub fn format_path_export(&self, entries: &Vec<String>) -> (r: String)
        ensures
            exists|t: LocalTime| t.wf() && r@ == export_block(strs(entries@), t),
    {
        let now = local_now();
        self.format_path_export_at(entries, &now)
    }

    /// The block that sets PATH to `entries`, stamped with `now`.
    pub fn format_path_export_at(&self, entries: &Vec<String>, now: &LocalTime) -> (r: String)
        requires
            now.wf(),
        ensures
            r@ == export_block(strs(entries@), *now),
    {
        format_export_at(entries, now)
    }

    /// The lines of `content` that assign PATH.
    pub fn detect_path_modifications(&self, content: &str) -> (r: Vec<PathModification>)
        ensures
            r@.map_values(|m: PathModification| modification_view(m)) == detected_lines(lines_of(content@)),
            forall|k: int| 0 <= k < r@.len() ==> r@[k].modification_type == ModificationType::Assignment,
    {
        detect_modifications(content)
    }

    /// `content` without its PATH assignments, and with a block that sets
    /// PATH to `entries`, stamped with the time now.
    pub fn update_path_in_config(&self, content: &str, entries: &Vec<String>) -> (r: String)
        ensures
            exists|t: LocalTime| t.wf() && r@ == rewritten(content@, strs(entries@), t),
    {
        let now = local_now();
        self.update_path_in_config_at(content, entries, &now)
    }

    /// `content` without its PATH assignments, and with a block that sets
    /// PATH to `entries`, stamped with `now`.
    pub fn update_path_in_config_at(&self, content: &str, entries: &Vec<String>, now: &LocalTime) -> (r: String)
        requires
            now.wf(),
        ensures
            r@ == rewritten(content@, strs(entries@), *now),
    {
        rewrite_config(content, entries, now)
    }
}

} // verus!
