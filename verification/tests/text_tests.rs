use clipz_core::commands::{
    clear_command, get_entries_command, quit_command, remove_command, select_command,
};
use clipz_core::model::{display_label, BackendError, Entry, EntryKind};
use clipz_core::supervisor::{
    backend_launch_flags, choose_backend_path, dev_backend_path, packaged_backend_path,
};
use clipz_core::text::{decimal_string, filename_from_path, relative_age};

#[test]
fn command_texts_are_exact() {
    assert_eq!(get_entries_command(), "get-entries");
    assert_eq!(select_command(7), "select-entry:7");
    assert_eq!(remove_command(123), "remove-entry:123");
    assert_eq!(select_command(0), "select-entry:0");
    assert_eq!(clear_command(), "clear");
    assert_eq!(quit_command(), "quit");
}

#[test]
fn decimal_rendering_is_exact() {
    assert_eq!(decimal_string(0), "0");
    assert_eq!(decimal_string(10), "10");
    assert_eq!(decimal_string(1234567890), "1234567890");
    assert_eq!(decimal_string(u64::MAX), "18446744073709551615");
}

#[test]
fn relative_age_labels() {
    let now: u64 = 1_000_000;
    assert_eq!(relative_age(now, now * 1000), "just now");
    assert_eq!(relative_age(now, (now - 4) * 1000), "just now");
    assert_eq!(relative_age(now, (now - 10) * 1000), "10s ago");
    assert_eq!(relative_age(now, (now - 59) * 1000), "59s ago");
    assert_eq!(relative_age(now, (now - 120) * 1000), "2m ago");
    assert_eq!(relative_age(now, (now - 7200) * 1000), "2h ago");
    assert_eq!(relative_age(now, (now - 200_000) * 1000), "2d ago");
    // a timestamp slightly in the future still reads as just now
    assert_eq!(relative_age(now, (now + 30) * 1000), "just now");
}

#[test]
fn filename_extraction() {
    assert_eq!(filename_from_path(&"/a/b/c.png".to_string()), "c.png");
    assert_eq!(filename_from_path(&"plain.txt".to_string()), "plain.txt");
    // trailing separators are ignored
    assert_eq!(filename_from_path(&"dir/".to_string()), "dir");
    assert_eq!(filename_from_path(&"a/b//".to_string()), "b");
    // no final component: the whole text is the label
    assert_eq!(filename_from_path(&"".to_string()), "");
    assert_eq!(filename_from_path(&"/".to_string()), "/");
    assert_eq!(filename_from_path(&"a/..".to_string()), "a/..");
    assert_eq!(filename_from_path(&"..".to_string()), "..");
}

#[test]
fn display_labels_follow_kind_and_path_existence() {
    let img = Entry {
        id: 5,
        content: "/tmp/pic.png".to_string(),
        timestamp: 0,
        kind: EntryKind::Image,
        is_current: false,
    };
    assert_eq!(display_label(&img, true), "pic.png");
    assert_eq!(display_label(&img, false), "/tmp/pic.png");
    let txt = Entry {
        id: 6,
        content: "some words".to_string(),
        timestamp: 0,
        kind: EntryKind::Text,
        is_current: false,
    };
    assert_eq!(display_label(&txt, true), "some words");
}

#[test]
fn entry_kind_defaults_to_text() {
    assert_eq!(EntryKind::default(), EntryKind::Text);
}

#[test]
fn error_descriptions() {
    assert_eq!(BackendError::BackendNotFound.describe(), "clipz backend not found");
    assert_eq!(BackendError::SendFailed.describe(), "failed to send command");
}

#[test]
fn backend_discovery_prefers_dev_then_packaged() {
    let dev = dev_backend_path();
    assert_eq!(dev, "zig-out/bin/clipz");
    assert_eq!(packaged_backend_path(), "Resources/bin/clipz");
    assert_eq!(
        choose_backend_path(dev.clone(), true, Some("p".to_string()), true),
        Ok(dev.clone())
    );
    assert_eq!(
        choose_backend_path(dev.clone(), false, Some("p".to_string()), true),
        Ok("p".to_string())
    );
    assert_eq!(
        choose_backend_path(dev.clone(), false, Some("p".to_string()), false),
        Err(BackendError::BackendNotFound)
    );
    assert_eq!(choose_backend_path(dev, false, None, false), Err(BackendError::BackendNotFound));
}

#[test]
fn launch_flags_are_fixed() {
    let flags = backend_launch_flags();
    assert_eq!(flags, vec!["--json-api".to_string(), "--low-power".to_string()]);
}
