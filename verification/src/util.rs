//! Helpers of the earlier generation of the tool: the relative path of a
//! copied note and the publishing check.
use vstd::prelude::*;

verus! {

/// The properties of a note's front matter that decide whether it is copied.
#[derive(Debug, Clone, Copy, PartialEq, Eq)]
pub struct Frontmatter {
    pub publish: Option<bool>,
}

/// Whether the front matter marks the note for publishing.
pub open spec fn is_published(fm: Option<Frontmatter>) -> bool {
    match fm {
        Some(f) => f.publish == Some(true),
        None => false,
    }
}

/// Builds the relative path of a file: based on where the file lies in the
/// vault, the same path below the target folder.
pub fn build_rel_path(file_name: &str, rel_path: &str) -> (r: String)
    ensures
        r@ == crate::sync::rel_path(file_name@, rel_path@),
{
    crate::sync::build_rel_path(file_name, rel_path)
}

/// Whether a note is marked for publishing: its front matter parsed and
/// holds `publish: true`.
pub fn check_file(frontmatter: Option<Frontmatter>) -> (b: bool)
    ensures
        b == is_published(frontmatter),
{
    match frontmatter {
        Some(f) => match f.publish {
            Some(p) => p,
            None => false,
        },
        None => false,
    }
}

} // verus!
