//! Trust verdict over the ownership and permissions of a directory tree.
//!
//! The walk itself (enumerating entries without following symbolic links and
//! reading their link-aware metadata) is filesystem input and is done by the
//! caller; each entry is handed in as an [`EntryMeta`] record. The verdict is
//! a conjunction over every entry: a symbolic link is never judged, any other
//! entry must be owned by the expected user, and a directory must not grant
//! group- or other-write access. An entry whose metadata could not be read
//! counts as a violation, but never stops the examination of the rest.

use vstd::prelude::*;

verus! {

/// Permission bits that grant write access to the group or to others.
pub const GROUP_OTHER_WRITE_MASK: u32 = 0o022;

/// Link-aware metadata of one filesystem entry, as observed without
/// following symbolic links.
#[derive(Clone, Copy, Debug, PartialEq, Eq, Structural)]
pub struct EntryMeta {
    /// Whether the entry's metadata could be read at all.
    pub accessible: bool,
    /// Whether the entry itself is a symbolic link.
    pub is_symlink: bool,
    /// Whether the entry is a directory.
    pub is_dir: bool,
    /// Owning user id of the entry.
    pub uid: u32,
    /// Permission bits of the entry.
    pub mode: u32,
}

/// Whether one entry is a violation for the expected owner `target_uid`:
/// unreadable metadata always is; a symbolic link never is; any other entry
/// is when its owner differs, and a directory additionally is when its mode
/// grants group- or other-write access.
pub open spec fn entry_violates(e: EntryMeta, target_uid: u32) -> bool {
    if !e.accessible {
        true
    } else if e.is_symlink {
        false
    } else {
        e.uid != target_uid || (e.is_dir && e.mode & GROUP_OTHER_WRITE_MASK != 0)
    }
}

/// The verdict over a whole tree: no entry is a violation.
pub open spec fn all_entries_ok(entries: Seq<EntryMeta>, target_uid: u32) -> bool {
    forall|i: int| 0 <= i < entries.len() ==> !entry_violates(entries[i], target_uid)
}

/// Judges one entry; exposed so a caller walking the tree can emit one
/// diagnostic record per violation.
pub fn entry_violation(e: &EntryMeta, target_uid: u32) -> (r: bool)
    ensures
        r == entry_violates(*e, target_uid),
{
    if !e.accessible {
        true
    } else if e.is_symlink {
        false
    } else {
        e.uid != target_uid || (e.is_dir && e.mode & GROUP_OTHER_WRITE_MASK != 0)
    }
}

/// The trust verdict for a tree given the link-aware metadata of every entry
/// under its root: `true` iff every non-symlink entry is owned by
/// `target_uid` and no directory is group- or other-writable.
///
/// Collect-all, not fail-fast: every entry is examined even after a
/// violation has been found, so a single unreadable entry cannot mask other
/// findings elsewhere in the tree.
pub fn check_owner_and_permissions(entries: &Vec<EntryMeta>, target_uid: u32) -> (r: bool)
    ensures
        r == all_entries_ok(entries@, target_uid),
{
    let mut all_match = true;
    let mut i: usize = 0;
    while i < entries.len()
        invariant
            0 <= i <= entries@.len(),
            all_match == all_entries_ok(entries@.subrange(0, i as int), target_uid),
        decreases entries@.len() - i,
    {
        let ghost prefix = entries@.subrange(0, i as int);
        let ghost e = entries@[i as int];
        if entry_violation(&entries[i], target_uid) {
            all_match = false;
        }
        proof {
            let next = entries@.subrange(0, i + 1int);
            assert(next[i as int] == e);
            assert(all_entries_ok(next, target_uid) <==> (all_entries_ok(prefix, target_uid)
                && !entry_violates(e, target_uid))) by {
                if all_entries_ok(prefix, target_uid) && !entry_violates(e, target_uid) {
                    assert forall|j: int| 0 <= j < next.len() implies !entry_violates(
                        next[j],
                        target_uid,
                    ) by {
                        if j < i {
                            assert(next[j] == prefix[j]);
                        }
                    }
                }
                if all_entries_ok(next, target_uid) {
                    assert forall|j: int| 0 <= j < prefix.len() implies !entry_violates(
                        prefix[j],
                        target_uid,
                    ) by {
                        assert(prefix[j] == next[j]);
                    }
                }
            }
        }
        i = i + 1;
    }
    proof {
        assert(entries@.subrange(0, entries@.len() as int) =~= entries@);
    }
    all_match
}

/// A symbolic link owned by anyone, inserted anywhere into a tree whose
/// verdict is positive, leaves the verdict positive: links are never judged
/// for ownership or permissions.
pub proof fn lemma_symlink_does_not_flip_verdict(
    entries: Seq<EntryMeta>,
    link: EntryMeta,
    i: int,
    target_uid: u32,
)
    requires
        0 <= i <= entries.len(),
        link.accessible,
        link.is_symlink,
        all_entries_ok(entries, target_uid),
    ensures
        all_entries_ok(entries.insert(i, link), target_uid),
{
    let extended = entries.insert(i, link);
    assert forall|j: int| 0 <= j < extended.len() implies !entry_violates(
        extended[j],
        target_uid,
    ) by {
        if j < i {
            assert(extended[j] == entries[j]);
        } else if j == i {
            assert(extended[j] == link);
        } else {
            assert(extended[j] == entries[j - 1]);
        }
    }
}

} // verus!
