use voxweave::sanitize::{sanitize_name_for, OperatingSystem};

#[test]
fn windows_reserved_names_are_prefixed() {
    let result = sanitize_name_for("AUX.txt", OperatingSystem::Windows, false);
    assert_eq!(result, "_AUX.txt");
}

#[test]
fn windows_invalid_chars_replaced() {
    let result = sanitize_name_for("bad:name?.mp3", OperatingSystem::Windows, false);
    assert_eq!(result, "bad_name_.mp3");
}

#[test]
fn mac_folder_avoids_leading_dot() {
    let result = sanitize_name_for(".hidden", OperatingSystem::MacOs, true);
    assert_eq!(result, "_hidden");
}

#[test]
fn linux_slashes_replaced() {
    let result = sanitize_name_for("chapter/one", OperatingSystem::Linux, false);
    assert_eq!(result, "chapter_one");
}

#[test]
fn empty_input_defaults_to_audiobook() {
    let result = sanitize_name_for("", OperatingSystem::Linux, true);
    assert_eq!(result, "audiobook");
    for os in [OperatingSystem::Windows, OperatingSystem::MacOs, OperatingSystem::Other] {
        assert_eq!(sanitize_name_for("   ", os, false), "audiobook");
    }
}

#[test]
fn windows_device_names_any_case() {
    assert_eq!(sanitize_name_for("com3", OperatingSystem::Windows, false), "_com3");
    assert_eq!(sanitize_name_for("Lpt9.log", OperatingSystem::Windows, false), "_Lpt9.log");
    assert_eq!(sanitize_name_for("COM0", OperatingSystem::Windows, false), "COM0");
    assert_eq!(sanitize_name_for("console", OperatingSystem::Windows, false), "console");
}

#[test]
fn windows_trailing_dots_and_nul() {
    assert_eq!(sanitize_name_for("name. .", OperatingSystem::Windows, false), "name");
    assert_eq!(sanitize_name_for("a\0b", OperatingSystem::Windows, false), "ab");
    assert_eq!(sanitize_name_for("...", OperatingSystem::Windows, false), "audiobook");
}

#[test]
fn control_chars_become_underscores() {
    assert_eq!(sanitize_name_for("a\u{1}b", OperatingSystem::Linux, false), "a_b");
    assert_eq!(sanitize_name_for("a:b", OperatingSystem::MacOs, false), "a_b");
    assert_eq!(sanitize_name_for("a:b", OperatingSystem::Linux, false), "a:b");
}

#[test]
fn leading_dot_kept_for_files() {
    assert_eq!(sanitize_name_for(".hidden", OperatingSystem::Linux, false), ".hidden");
    assert_eq!(sanitize_name_for(".hidden", OperatingSystem::Other, true), "_hidden");
}

#[test]
fn long_names_are_cut_to_255_bytes() {
    let long = "a".repeat(300);
    assert_eq!(sanitize_name_for(&long, OperatingSystem::Linux, false).len(), 255);
    let wide = "é".repeat(200);
    let cut = sanitize_name_for(&wide, OperatingSystem::Linux, false);
    assert_eq!(cut.len(), 254);
    let dotted = format!("{}.  x", "b".repeat(254));
    assert_eq!(sanitize_name_for(&dotted, OperatingSystem::Linux, false), "b".repeat(254));
}

#[test]
fn cut_names_are_checked_for_device_names_again() {
    let name = format!("CON{}x", " ".repeat(300));
    assert_eq!(sanitize_name_for(&name, OperatingSystem::Windows, false), "_CON");
    let dotted = format!("aux.{}", "b".repeat(300));
    let r = sanitize_name_for(&dotted, OperatingSystem::Windows, false);
    assert!(r.starts_with("_aux.b"));
    assert_eq!(r.len(), 255);
    assert_eq!(sanitize_name_for(&name, OperatingSystem::Linux, false), "CON");
}
