//! The handler for each shell dialect, behind one type.

use vstd::prelude::*;
use crate::config::{
    detected_lines, export_block, first_occurrences, modification_view, path_entries, rewritten, strs,
    ModificationType, PathModification, ShellType,
};
use crate::ksh::first_existing;
use crate::lines::lines_of;
use crate::generic::GenericHandler;
use crate::ksh::KshHandler;
use crate::outside::{home_dir, opt_view};
use crate::paths::{home_or_root, joined};
use crate::timestamp::LocalTime;

verus! {

/// A shell handler of one of the supported dialects.
pub enum ShellHandler {
    Generic(GenericHandler),
    Ksh(KshHandler),
}

impl ShellHandler {
    pub open spec fn kind(&self) -> ShellType {
        match self {
            ShellHandler::Generic(_) => ShellType::Generic,
            ShellHandler::Ksh(_) => ShellType::Ksh,
        }
    }

    pub open spec fn home_view(&self) -> Option<Seq<char>> {
        match self {
            ShellHandler::Generic(h) => opt_view(h.home),
            ShellHandler::Ksh(h) => opt_view(h.home),
        }
    }

    /// The handler for `kind`, for the user whose home directory is `home`.
    pub fn for_shell(kind: ShellType, home: Option<String>) -> (r: Self)
        ensures
            r.kind() == kind,
            r.home_view() == opt_view(home),
            match r {
                ShellHandler::Generic(h) => h.config_path@ == joined(home_or_root(opt_view(home)), ".profile"@),
                ShellHandler::Ksh(h) => h.config_path@ == joined(home_or_root(opt_view(home)), ".kshrc"@),
            },
    {
        match kind {
            ShellType::Generic => ShellHandler::Generic(GenericHandler::from_home(home)),
            ShellType::Ksh => ShellHandler::Ksh(KshHandler::from_home(home)),
        }
    }

    /// The handler for `kind`, for the current user.
    pub fn for_current_user(kind: ShellType) -> (r: Self)
        ensures
            r.kind() == kind,
            match r {
                ShellHandler::Generic(h) => h.config_path@ == joined(home_or_root(r.home_view()), ".profile"@),
                ShellHandler::Ksh(h) => h.config_path@ == joined(home_or_root(r.home_view()), ".kshrc"@),
            },
    {
        Self::for_shell(kind, home_dir())
    }

    pub fn get_shell_type(&self) -> (r: ShellType)
        ensures
            r == self.kind(),
    {
        match self {
            ShellHandler::Generic(h) => h.get_shell_type(),
            ShellHandler::Ksh(h) => h.get_shell_type(),
        }
    }

    /// The files to use where the primary one does not exist, in order of
    /// preference: none for the generic handler.
    pub open spec fn fallbacks(&self) -> Seq<Seq<char>> {
        match self {
            ShellHandler::Generic(_) => seq![],
            ShellHandler::Ksh(h) => strs(h.fallback_paths@),
        }
    }

    pub open spec fn primary(&self) -> Seq<char> {
        match self {
            ShellHandler::Generic(h) => h.config_path@,
            ShellHandler::Ksh(h) => h.config_path@,
        }
    }

    /// The file the handler edits where it exists.
    pub fn get_primary_path(&self) -> (r: String)
        ensures
            r@ == self.primary(),
    {
        match self {
            ShellHandler::Generic(h) => h.get_config_path(),
            ShellHandler::Ksh(h) => h.config_path.clone(),
        }
    }

    pub fn get_fallback_paths(&self) -> (r: Vec<String>)
        ensures
            strs(r@) == self.fallbacks(),
    {
        match self {
            ShellHandler::Generic(_) => Vec::new(),
            ShellHandler::Ksh(h) => h.get_fallback_paths(),
        }
    }

    /// The file to edit, given which files exist: the primary one where it
    /// exists, else the first fallback that exists, else the primary one (to
    /// be created). `fallback_exists[k]` tells whether fallback `k` exists.
    pub fn get_config_path(&self, primary_exists: bool, fallback_exists: &Vec<bool>) -> (r: String)
        requires
            fallback_exists@.len() == self.fallbacks().len(),
        ensures
            (!primary_exists && exists|k: int| 0 <= k < fallback_exists@.len() && fallback_exists@[k])
                ==> exists|k: int| first_existing(fallback_exists@, k) && r@ == self.fallbacks()[k],
            (primary_exists || forall|k: int| 0 <= k < fallback_exists@.len() ==> !fallback_exists@[k])
                ==> r@ == self.primary(),
    {
        match self {
            ShellHandler::Generic(h) => h.get_config_path(),
            ShellHandler::Ksh(h) => {
                let r = h.get_config_path(primary_exists, fallback_exists);
                proof {
                    if !primary_exists && exists|k: int| 0 <= k < fallback_exists@.len() && fallback_exists@[k] {
                        let k = choose|k: int| first_existing(fallback_exists@, k) && r@ == h.fallback_paths@[k]@;
                        assert(self.fallbacks()[k] == h.fallback_paths@[k]@);
                    }
                }
                r
            },
        }
    }

    /// The block that sets PATH to `entries`, stamped with the time now.
    pub fn format_path_export(&self, entries: &Vec<String>) -> (r: String)
        ensures
            exists|t: LocalTime| t.wf() && r@ == export_block(strs(entries@), t),
    {
        match self {
            ShellHandler::Generic(h) => h.format_path_export(entries),
            ShellHandler::Ksh(h) => h.format_path_export(entries),
        }
    }

    /// The block that sets PATH to `entries`, stamped with `now`.
    pub fn format_path_export_at(&self, entries: &Vec<String>, now: &LocalTime) -> (r: String)
        requires
            now.wf(),
        ensures
            r@ == export_block(strs(entries@), *now),
    {
        match self {
            ShellHandler::Generic(h) => h.format_path_export_at(entries, now),
            ShellHandler::Ksh(h) => h.format_path_export_at(entries, now),
        }
    }

    /// The lines of `content` that assign PATH.
    pub fn detect_path_modifications(&self, content: &str) -> (r: Vec<PathModification>)
        ensures
            r@.map_values(|m: PathModification| modification_view(m)) == detected_lines(lines_of(content@)),
            forall|k: int| 0 <= k < r@.len() ==> r@[k].modification_type == ModificationType::Assignment,
    {
        match self {
            ShellHandler::Generic(h) => h.detect_path_modifications(content),
            ShellHandler::Ksh(h) => h.detect_path_modifications(content),
        }
    }

    /// The PATH entries that `content` assigns, in the order met; the Korn
    /// shell handler lists each only once.
    pub fn parse_path_entries(&self, content: &str) -> (r: Vec<String>)
        ensures
            self.kind() == ShellType::Generic ==> strs(r@) == path_entries(content@, self.home_view(), false),
            self.kind() == ShellType::Ksh ==> strs(r@) == first_occurrences(
                path_entries(content@, self.home_view(), true),
            ),
    {
        match self {
            ShellHandler::Generic(h) => h.parse_path_entries(content),
            ShellHandler::Ksh(h) => h.parse_path_entries(content),
        }
    }

    /// `content` without its PATH assignments, and with a block that sets
    /// PATH to `entries`, stamped with the time now.
    pub fn update_path_in_config(&self, content: &str, entries: &Vec<String>) -> (r: String)
        ensures
            exists|t: LocalTime| t.wf() && r@ == rewritten(content@, strs(entries@), t),
    {
        match self {
            ShellHandler::Generic(h) => h.update_path_in_config(content, entries),
            ShellHandler::Ksh(h) => h.update_path_in_config(content, entries),
        }
    }

    /// `content` without its PATH assignments, and with a block that sets
    /// PATH to `entries`, stamped with `now`.
    pub fn update_path_in_config_at(&self, content: &str, entries: &Vec<String>, now: &LocalTime) -> (r: String)
        requires
            now.wf(),
        ensures
            r@ == rewritten(content@, strs(entries@), *now),
    {
        match self {
            ShellHandler::Generic(h) => h.update_path_in_config_at(content, entries, now),
            ShellHandler::Ksh(h) => h.update_path_in_config_at(content, entries, now),
        }
    }
}

} // verus!
