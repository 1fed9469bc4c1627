use pacmine::security::{check_owner_and_permissions, entry_violation, EntryMeta};

fn file(uid: u32) -> EntryMeta {
    EntryMeta { accessible: true, is_symlink: false, is_dir: false, uid, mode: 0o644 }
}

fn dir(uid: u32, mode: u32) -> EntryMeta {
    EntryMeta { accessible: true, is_symlink: false, is_dir: true, uid, mode }
}

fn symlink(uid: u32) -> EntryMeta {
    EntryMeta { accessible: true, is_symlink: true, is_dir: false, uid, mode: 0o777 }
}

#[test]
fn empty_tree_passes() {
    assert!(check_owner_and_permissions(&vec![], 1000));
}

#[test]
fn compliant_tree_passes() {
    let entries = vec![dir(1000, 0o750), file(1000), file(1000)];
    assert!(check_owner_and_permissions(&entries, 1000));
}

#[test]
fn foreign_owner_fails() {
    let entries = vec![dir(1000, 0o750), file(1000), file(0)];
    assert!(!check_owner_and_permissions(&entries, 1000));
}

#[test]
fn foreign_owned_directory_fails() {
    let entries = vec![dir(0, 0o750), file(1000)];
    assert!(!check_owner_and_permissions(&entries, 1000));
}

#[test]
fn group_writable_directory_fails() {
    // 0o775 & 0o022 == 0o020, so the verdict is false even with the right owner.
    let entries = vec![dir(1000, 0o775), file(1000)];
    assert!(!check_owner_and_permissions(&entries, 1000));
    assert!(entry_violation(&dir(1000, 0o775), 1000));
}

#[test]
fn non_group_writable_directory_passes() {
    // 0o750 & 0o022 == 0, so that check passes.
    assert!(!entry_violation(&dir(1000, 0o750), 1000));
    let entries = vec![dir(1000, 0o750)];
    assert!(check_owner_and_permissions(&entries, 1000));
}

#[test]
fn foreign_symlink_does_not_flip_verdict() {
    let compliant = vec![dir(1000, 0o750), file(1000)];
    assert!(check_owner_and_permissions(&compliant, 1000));
    let with_link = vec![dir(1000, 0o750), symlink(0), file(1000)];
    assert!(check_owner_and_permissions(&with_link, 1000));
}

#[test]
fn group_writable_file_is_not_judged_for_mode() {
    // Only directories are judged for group/other write access.
    let entries = vec![EntryMeta {
        accessible: true,
        is_symlink: false,
        is_dir: false,
        uid: 1000,
        mode: 0o666,
    }];
    assert!(check_owner_and_permissions(&entries, 1000));
}

#[test]
fn unreadable_entry_fails_but_does_not_mask_others() {
    let unreadable =
        EntryMeta { accessible: false, is_symlink: false, is_dir: false, uid: 0, mode: 0 };
    assert!(!check_owner_and_permissions(&vec![unreadable, file(1000)], 1000));
    // The walk is collect-all: a compliant entry after the unreadable one is
    // still examined, and an unreadable entry alone already fails.
    assert!(entry_violation(&unreadable, 1000));
    assert!(!entry_violation(&file(1000), 1000));
}
