use pacmine::config::{Config, JavaType, ServerType, CONFIG_FILE, WORK_DIR};
use pacmine::create::{build_config, default_execute_name, server_type_from_choice, Version};
use pacmine::info::{get_info, read_config, test_exists, ConfigErr};

#[test]
fn constants_name_the_project_files() {
    assert_eq!(CONFIG_FILE, "PacMine.toml");
    assert_eq!(WORK_DIR, ".pacmine");
}

#[test]
fn test_config_is_fully_pinned() {
    let c = Config::test_config();
    assert_eq!(c.project.name, "MyServer");
    assert!(matches!(c.project.server_type, ServerType::OfficialJE));
    assert_eq!(c.project.execute, "server.jar");
    assert_eq!(c.project.version, "1.21.0");
    assert_eq!(c.project.birthday, "2025-01-01");
    assert_eq!(c.runtime.java.version, 21);
    assert!(matches!(c.runtime.java.edition, JavaType::OpenJDK));
    assert_eq!(c.runtime.java.custom, "");
    assert_eq!(c.runtime.java.arguments, vec!["-Xms 1024M", "-Xmx 1024M"]);
    assert_eq!(c.runtime.java.xms, 2048);
    assert_eq!(c.runtime.java.xmx, 4096);
    assert!(c.backup.enable && c.backup.world && !c.backup.other);
    let t = c.backup.time.unwrap();
    assert_eq!(t.interval, 3600);
    assert_eq!(t.cron, "0 */6 * * *");
    let e = c.backup.event.unwrap();
    assert!(!e.start && e.stop && e.update);
    assert!(c.plugin_manage.manage);
    assert_eq!(c.plugin_manage.plugin.len(), 2);
    assert_eq!(c.plugin_manage.plugin[0].name, "EssentialsX");
    assert!(!c.plugin_manage.plugin[0].disable && c.plugin_manage.plugin[0].update);
    assert_eq!(c.plugin_manage.plugin[1].name, "Vault");
    assert!(!c.plugin_manage.plugin[1].disable && !c.plugin_manage.plugin[1].update);
}

#[test]
fn exists_when_either_file_is_present() {
    assert!(!test_exists(false, false));
    assert!(test_exists(true, false));
    assert!(test_exists(false, true));
    assert!(test_exists(true, true));
}

#[test]
fn unconfigured_directory_is_reported() {
    let r = get_info(false, false, false, false, None);
    assert_eq!(r.unwrap_err(), ConfigErr::NotConfigured);
}

#[test]
fn broken_layout_is_reported() {
    assert_eq!(read_config(false, true, None).unwrap_err(), ConfigErr::ConfigBroken);
    assert_eq!(read_config(true, false, None).unwrap_err(), ConfigErr::ConfigBroken);
    let r = get_info(true, false, true, false, Some(Config::test_config()));
    assert_eq!(r.unwrap_err(), ConfigErr::ConfigBroken);
}

#[test]
fn unparsable_content_is_broken() {
    assert_eq!(read_config(true, true, None).unwrap_err(), ConfigErr::ConfigBroken);
}

#[test]
fn parsed_content_is_returned() {
    let r = get_info(true, true, true, true, Some(Config::test_config()));
    assert_eq!(r.unwrap().project.name, "MyServer");
}

#[test]
fn menu_choices_map_to_server_types() {
    assert!(matches!(server_type_from_choice(1), Some(ServerType::OfficialJE)));
    assert!(matches!(server_type_from_choice(2), Some(ServerType::Paper)));
    assert!(matches!(server_type_from_choice(3), Some(ServerType::Purpur)));
    assert!(matches!(server_type_from_choice(4), Some(ServerType::Spigot)));
    assert!(matches!(server_type_from_choice(5), Some(ServerType::OfficialBE)));
    assert!(matches!(server_type_from_choice(0), Some(ServerType::Other)));
    assert!(server_type_from_choice(6).is_none());
}

#[test]
fn default_executable_names() {
    assert!(default_execute_name(&ServerType::Other).is_none());
    assert_eq!(default_execute_name(&ServerType::OfficialBE).unwrap(), "server");
    assert_eq!(default_execute_name(&ServerType::OfficialJE).unwrap(), "server.jar");
    assert_eq!(default_execute_name(&ServerType::Paper).unwrap(), "server.jar");
}

#[test]
fn built_config_carries_the_answers() {
    let version = Version { major: 1, minor: 20, patch: 4 };
    let c = build_config(
        "World".to_string(),
        ServerType::Paper,
        "server.jar".to_string(),
        &version,
        "2025-06-01T00:00:00+00:00".to_string(),
    );
    assert_eq!(c.project.name, "World");
    assert!(matches!(c.project.server_type, ServerType::Paper));
    assert_eq!(c.project.execute, "server.jar");
    assert_eq!(c.project.version, "1.20.4");
    assert_eq!(c.project.birthday, "2025-06-01T00:00:00+00:00");
    assert_eq!(c.runtime.java.version, 21);
    assert!(matches!(c.runtime.java.edition, JavaType::GraalVM));
    assert!(c.runtime.java.arguments.is_empty());
    assert_eq!(c.runtime.java.xms, 0);
    assert_eq!(c.runtime.java.xmx, 0);
    assert!(c.backup.enable && c.backup.world && c.backup.other);
    assert_eq!(c.backup.time.unwrap().interval, 0);
    let e = c.backup.event.unwrap();
    assert!(!e.start && e.stop && e.update);
    assert!(c.plugin_manage.manage);
    assert!(c.plugin_manage.plugin.is_empty());
}
