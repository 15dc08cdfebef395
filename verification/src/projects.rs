//! The application-specific subtree seeded under the user's home
//! directory.

use vstd::prelude::*;
use vstd::string::*;

use crate::filesystem::Filesystem;

verus! {

/// Grow the `projects` directory under the given parent: accessible, with
/// no children yet.  Returns its identity.
pub fn gen_project_directory(fs: &mut Filesystem, parent: u64) -> (id: u64)
    requires
        old(fs).wf(),
        old(fs).valid_id(parent as int),
        old(fs).entry(parent as int).is_dir(),
    ensures
        final(fs).wf(),
        old(fs).spec_added(*final(fs), parent as int, id),
        final(fs).entry(id as int).name@ == "projects"@,
        final(fs).entry(id as int).accessible == true,
        final(fs).entry(id as int).is_dir(),
        final(fs).entry(id as int).children() == Seq::<u64>::empty(),
{
    fs.add_dir(parent, String::from_str("projects"), true)
}

} // verus!
