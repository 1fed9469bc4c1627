use pacmine::file_info::{class_path_of, parse_class_header, parse_main_class, JarError};
use pacmine::run::{is_valid_bds_binary, java_mem_options};

#[test]
fn finds_the_main_class_in_a_manifest() {
    let manifest = "Manifest-Version: 1.0\nMain-Class: org.example.Main\nBuilt-By: someone\n";
    assert_eq!(parse_main_class(manifest).unwrap(), "org.example.Main");
}

#[test]
fn finds_the_main_class_with_carriage_returns() {
    let manifest = "Manifest-Version: 1.0\r\nMain-Class: net.minecraft.server.Main\r\n";
    assert_eq!(parse_main_class(manifest).unwrap(), "net.minecraft.server.Main");
}

#[test]
fn finds_the_main_class_on_the_last_unterminated_line() {
    let manifest = "Manifest-Version: 1.0\nMain-Class: a.B";
    assert_eq!(parse_main_class(manifest).unwrap(), "a.B");
}

#[test]
fn takes_the_first_main_class_line() {
    let manifest = "Main-Class: first.Main\nMain-Class: second.Main\n";
    assert_eq!(parse_main_class(manifest).unwrap(), "first.Main");
}

#[test]
fn manifest_without_main_class_gives_nothing() {
    assert!(parse_main_class("Manifest-Version: 1.0\n").is_none());
    assert!(parse_main_class("").is_none());
    // The key must open the line.
    assert!(parse_main_class(" Main-Class: x.Y\n").is_none());
}

#[test]
fn class_path_replaces_dots_and_appends_suffix() {
    assert_eq!(class_path_of("org.example.Main"), "org/example/Main.class");
    assert_eq!(class_path_of("Main"), "Main.class");
    assert_eq!(class_path_of(""), ".class");
}

#[test]
fn class_header_yields_the_java_version() {
    // Major version 65 is Java 21 under the fixed shift of 44.
    let header = vec![0xCA, 0xFE, 0xBA, 0xBE, 0x00, 0x00, 0x00, 0x41];
    assert_eq!(parse_class_header(&header).unwrap(), 21);
}

#[test]
fn class_header_without_magic_is_not_a_jar() {
    let header = vec![0x50, 0x4B, 0x03, 0x04, 0x00, 0x00, 0x00, 0x41];
    assert!(matches!(parse_class_header(&header).unwrap_err(), JarError::NotJar));
}

#[test]
fn class_header_with_tiny_major_is_not_a_jar() {
    let header = vec![0xCA, 0xFE, 0xBA, 0xBE, 0x00, 0x00, 0x00, 0x2B];
    assert!(matches!(parse_class_header(&header).unwrap_err(), JarError::NotJar));
    // Major version exactly at the shift maps to zero.
    let header = vec![0xCA, 0xFE, 0xBA, 0xBE, 0x00, 0x00, 0x00, 0x2C];
    assert_eq!(parse_class_header(&header).unwrap(), 0);
}

#[test]
fn bds_binaries_must_match_the_platform() {
    assert!(is_valid_bds_binary("application/x-executable", "linux"));
    assert!(is_valid_bds_binary("application/vnd.microsoft.portable-executable", "windows"));
    assert!(!is_valid_bds_binary("application/x-executable", "windows"));
    assert!(!is_valid_bds_binary("application/vnd.microsoft.portable-executable", "linux"));
    assert!(!is_valid_bds_binary("application/zip", "linux"));
}

#[test]
fn memory_options_follow_the_configuration() {
    assert_eq!(java_mem_options(1024, 2048), vec!["-Xms 1024M", "-Xmx 2048M"]);
    assert_eq!(java_mem_options(1024, 0), vec!["-Xms 1024M"]);
    assert_eq!(java_mem_options(0, 2048), vec!["-Xmx 2048M"]);
    assert!(java_mem_options(0, 0).is_empty());
}
