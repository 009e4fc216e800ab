//! Syncing: which entries of the vault are visited or copied, and where each
//! copied note goes.
use vstd::prelude::*;
use crate::config::{State, SettingsView};
use crate::text::concat;

verus! {

/// The path of an entry relative to the vault: its name below the relative
/// path of its folder, or the bare name at the top.
pub open spec fn rel_path(file_name: Seq<char>, rel_path: Seq<char>) -> Seq<char> {
    if rel_path.len() == 0 {
        file_name
    } else {
        rel_path + seq!['/'] + file_name
    }
}

/// Builds the relative path of a file: based on where the file lies in the
/// vault, the same path below the target folder.
pub fn build_rel_path(file_name: &str, rel_path: &str) -> (r: String)
    ensures
        r@ == self::rel_path(file_name@, rel_path@),
{
    if rel_path.is_empty() {
        file_name.to_owned()
    } else {
        let with_sep = concat(rel_path, "/");
        proof {
            reveal_strlit("/");
        }
        concat(with_sep.as_str(), file_name)
    }
}

/// Whether a folder of the vault is entered: it is listed among the folders
/// to copy, or it is not listed among the forbidden ones.
pub open spec fn folder_allowed(s: SettingsView, name: Seq<char>) -> bool {
    s.folders.contains(name) || !s.forbidden.contains(name)
}

/// Allowing a folder is monotone: listing more folders to copy, or fewer
/// forbidden ones, never stops a folder from being entered.
pub proof fn lemma_folder_allowed_monotone(s: SettingsView, t: SettingsView, name: Seq<char>)
    requires
        forall|x: Seq<char>| s.folders.contains(x) ==> t.folders.contains(x),
        forall|x: Seq<char>| t.forbidden.contains(x) ==> s.forbidden.contains(x),
        folder_allowed(s, name),
    ensures
        folder_allowed(t, name),
{
}

/// What to do with an entry of a folder being traversed.
#[derive(Debug, PartialEq, Eq)]
pub enum EntryStep {
    /// Traverse the folder, with this relative path.
    Descend(String),
    /// Copy the note at this relative path if it is marked for publishing.
    CheckNote(String),
    /// Leave the entry alone.
    Skip,
}

fn listed(list: &Vec<String>, name: &str) -> (r: bool)
    ensures
        r == crate::config::strs(list@).contains(name@),
{
    let mut i: usize = 0;
    while i < list.len()
        invariant
            0 <= i <= list@.len(),
            forall|k: int| 0 <= k < i ==> list@[k]@ != name@,
        decreases list@.len() - i,
    {
        if crate::text::str_eq(list[i].as_str(), name) {
            assert(crate::config::strs(list@)[i as int] == name@);
            return true;
        }
        i = i + 1;
    }
    assert forall|k: int| 0 <= k < crate::config::strs(list@).len() implies crate::config::strs(
        list@,
    )[k] != name@ by {
        assert(crate::config::strs(list@)[k] == list@[k]@);
    }
    false
}

/// The step for an entry named `entry_name` with the folder lists
/// `folders` and `forbidden`.
pub(crate) fn step_for(
    folders: &Vec<String>,
    forbidden: &Vec<String>,
    entry_name: &str,
    is_dir: bool,
    is_file: bool,
    relative_path: &str,
) -> (r: EntryStep)
    ensures
        ({
            let allowed = crate::config::strs(folders@).contains(entry_name@)
                || !crate::config::strs(forbidden@).contains(entry_name@);
            &&& is_dir && allowed ==> (r matches EntryStep::Descend(p) && p@ == rel_path(
                entry_name@,
                relative_path@,
            ))
            &&& is_dir && !allowed ==> r == EntryStep::Skip
            &&& !is_dir && is_file ==> (r matches EntryStep::CheckNote(p) && p@ == rel_path(
                entry_name@,
                relative_path@,
            ))
            &&& !is_dir && !is_file ==> r == EntryStep::Skip
        }),
{
    if is_dir {
        if listed(folders, entry_name) || !listed(forbidden, entry_name) {
            EntryStep::Descend(build_rel_path(entry_name, relative_path))
        } else {
            EntryStep::Skip
        }
    } else if is_file {
        EntryStep::CheckNote(build_rel_path(entry_name, relative_path))
    } else {
        EntryStep::Skip
    }
}

impl State {
    /// Whether the folder named `entry_name` is traversed.
    pub fn folder_allowed(&self, entry_name: &str) -> (b: bool)
        ensures
            b == folder_allowed(self@, entry_name@),
    {
        listed(&self.config.user_settings.folders, entry_name) || !listed(
            &self.config.user_settings.forbidden,
            entry_name,
        )
    }

    /// The step for an entry named `entry_name` of a folder whose relative
    /// path is `relative_path`: allowed folders are traversed, files are
    /// candidates for copying, anything else is left alone.
    pub fn entry_step(&self, entry_name: &str, is_dir: bool, is_file: bool, relative_path: &str) -> (r: EntryStep)
        ensures
            is_dir && folder_allowed(self@, entry_name@) ==> (r matches EntryStep::Descend(p) && p@
                == rel_path(entry_name@, relative_path@)),
            is_dir && !folder_allowed(self@, entry_name@) ==> r == EntryStep::Skip,
            !is_dir && is_file ==> (r matches EntryStep::CheckNote(p) && p@ == rel_path(
                entry_name@,
                relative_path@,
            )),
            !is_dir && !is_file ==> r == EntryStep::Skip,
    {
        step_for(
            &self.config.user_settings.folders,
            &self.config.user_settings.forbidden,
            entry_name,
            is_dir,
            is_file,
            relative_path,
        )
    }
}

/// Where a note is copied from and to: below the source and the target
/// folder, at its relative path.
pub open spec fn copy_pair(file: Seq<char>, src: Seq<char>, tgt: Seq<char>) -> (Seq<char>, Seq<char>) {
    (src + seq!['/'] + file, tgt + seq!['/'] + file)
}

/// The source and destination of each file to copy, in order.
pub fn sync_plan(files: &Vec<String>, src: &str, tgt: &str) -> (r: Vec<(String, String)>)
    ensures
        r@.len() == files@.len(),
        forall|i: int|
            0 <= i < r@.len() ==> (#[trigger] r@[i]).0@ == copy_pair(files@[i]@, src@, tgt@).0
                && r@[i].1@ == copy_pair(files@[i]@, src@, tgt@).1,
{
    proof {
        reveal_strlit("/");
    }
    let from_dir = concat(src, "/");
    let to_dir = concat(tgt, "/");
    let mut r: Vec<(String, String)> = Vec::new();
    let mut i: usize = 0;
    while i < files.len()
        invariant
            0 <= i <= files@.len(),
            r@.len() == i,
            from_dir@ == src@ + seq!['/'],
            to_dir@ == tgt@ + seq!['/'],
            forall|k: int|
                0 <= k < i ==> (#[trigger] r@[k]).0@ == copy_pair(files@[k]@, src@, tgt@).0
                    && r@[k].1@ == copy_pair(files@[k]@, src@, tgt@).1,
        decreases files@.len() - i,
    {
        let from = concat(from_dir.as_str(), files[i].as_str());
        let to = concat(to_dir.as_str(), files[i].as_str());
        r.push((from, to));
        i = i + 1;
    }
    r
}

/// How copying one file went.
#[derive(Debug, Clone, Copy, PartialEq, Eq, Structural)]
pub enum CopyOutcome {
    Copied,
    /// The destination's folder could not be created; the file was skipped.
    FolderFailed,
    /// The copy itself failed; the failure is reported, not counted.
    CopyFailed,
}

/// Whether a sync counts as successful: no destination folder failed to be
/// created. A failed copy is reported but does not count as a failure.
pub fn sync_succeeded(outcomes: &Vec<CopyOutcome>) -> (b: bool)
    ensures
        b == !outcomes@.contains(CopyOutcome::FolderFailed),
{
    let mut i: usize = 0;
    while i < outcomes.len()
        invariant
            0 <= i <= outcomes@.len(),
            forall|k: int| 0 <= k < i ==> outcomes@[k] != CopyOutcome::FolderFailed,
        decreases outcomes@.len() - i,
    {
        if outcomes[i] == CopyOutcome::FolderFailed {
            assert(outcomes@[i as int] == CopyOutcome::FolderFailed);
            return false;
        }
        i = i + 1;
    }
    true
}

} // verus!
