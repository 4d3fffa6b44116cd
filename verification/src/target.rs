//! The path under which the archive stores the BTF file of a system.

use vstd::prelude::*;

use crate::config::ARCHIVE_ROOT;

verus! {

/// The archive root joined with the relative path that identifies a system.
pub open spec fn target_of(relative: Seq<char>) -> Seq<char> {
    ARCHIVE_ROOT@ + seq!['/'] + relative
}

/// Builds the path that an entry must be stored under to match a system whose
/// identity is `relative`, such as `ubuntu/20.04/x86_64/5.4.0-40-generic.btf`.
pub fn target_path(relative: &str) -> (target: String)
    ensures
        target@ == target_of(relative@),
{
    let mut target = String::from_str(ARCHIVE_ROOT);
    proof {
        reveal_strlit("/");
    }
    target.append("/");
    target.append(relative);
    assert(target@ =~= target_of(relative@));
    target
}

} // verus!
