//! Project configuration records.
//!
//! These are the structured records an external configuration layer reads
//! from and writes to the project file; the (de)serialization itself is that
//! layer's business and stays outside the library, which only defines the
//! shapes and a fully pinned sample configuration.

use vstd::prelude::*;
use vstd::string::*;

verus! {

/// Name of the project configuration file.
pub const CONFIG_FILE: &'static str = "PacMine.toml";

/// Name of the project working directory.
pub const WORK_DIR: &'static str = ".pacmine";

/// Kind of server a project runs.
#[derive(Clone, Copy, Debug, PartialEq, Eq, Structural)]
pub enum ServerType {
    OfficialJE,
    OfficialBE,
    Paper,
    Spigot,
    Purpur,
    Other,
}

/// Which Java distribution a project runs on.
#[derive(Clone, Copy, Debug, PartialEq, Eq, Structural)]
pub enum JavaType {
    GraalVM,
    OracleJDK,
    OpenJDK,
    Custom,
}

/// Identity of the project: what runs and since when.
#[derive(Clone, Debug)]
pub struct Project {
    pub name: String,
    pub server_type: ServerType,
    pub version: String,
    pub execute: String,
    pub birthday: String,
}

/// The Java runtime a project asks for.
#[derive(Clone, Debug)]
pub struct Java {
    pub version: usize,
    pub edition: JavaType,
    pub custom: String,
    pub arguments: Vec<String>,
    pub xms: usize,
    pub xmx: usize,
}

/// Runtime section of the configuration.
#[derive(Clone, Debug)]
pub struct Runtime {
    pub java: Java,
}

/// When periodic backups run.
#[derive(Clone, Debug)]
pub struct Time {
    pub interval: usize,
    pub cron: String,
}

/// Which lifecycle events trigger a backup.
#[derive(Clone, Copy, Debug, PartialEq, Eq, Structural)]
pub struct Event {
    pub start: bool,
    pub stop: bool,
    pub update: bool,
}

/// Backup section of the configuration.
#[derive(Clone, Debug)]
pub struct Backup {
    pub enable: bool,
    pub world: bool,
    pub other: bool,
    pub time: Option<Time>,
    pub event: Option<Event>,
}

/// One managed plugin.
#[derive(Clone, Debug)]
pub struct Plugin {
    pub name: String,
    pub disable: bool,
    pub update: bool,
}

/// Plugin-management section of the configuration.
#[derive(Clone, Debug)]
pub struct PluginManage {
    pub manage: bool,
    pub plugin: Vec<Plugin>,
}

/// The whole project configuration.
#[derive(Clone, Debug)]
pub struct Config {
    pub project: Project,
    pub runtime: Runtime,
    pub backup: Backup,
    pub plugin_manage: PluginManage,
}

/// What [`Config::test_config`] returns, field by field.
pub open spec fn is_test_config(c: Config) -> bool {
    &&& c.project.name@ == "MyServer"@
    &&& c.project.server_type == ServerType::OfficialJE
    &&& c.project.execute@ == "server.jar"@
    &&& c.project.version@ == "1.21.0"@
    &&& c.project.birthday@ == "2025-01-01"@
    &&& c.runtime.java.version == 21
    &&& c.runtime.java.edition == JavaType::OpenJDK
    &&& c.runtime.java.custom@ == Seq::<char>::empty()
    &&& c.runtime.java.arguments@.len() == 2
    &&& c.runtime.java.arguments@[0]@ == "-Xms 1024M"@
    &&& c.runtime.java.arguments@[1]@ == "-Xmx 1024M"@
    &&& c.runtime.java.xms == 2048
    &&& c.runtime.java.xmx == 4096
    &&& c.backup.enable == true
    &&& c.backup.world == true
    &&& c.backup.other == false
    &&& (c.backup.time matches Some(t) && t.interval == 3600 && t.cron@ == "0 */6 * * *"@)
    &&& (c.backup.event matches Some(e) && e.start == false && e.stop == true && e.update == true)
    &&& c.plugin_manage.manage == true
    &&& c.plugin_manage.plugin@.len() == 2
    &&& c.plugin_manage.plugin@[0].name@ == "EssentialsX"@
    &&& c.plugin_manage.plugin@[0].disable == false
    &&& c.plugin_manage.plugin@[0].update == true
    &&& c.plugin_manage.plugin@[1].name@ == "Vault"@
    &&& c.plugin_manage.plugin@[1].disable == false
    &&& c.plugin_manage.plugin@[1].update == false
}

impl Config {
    /// A fully populated sample configuration, every field pinned.
    pub fn test_config() -> (c: Config)
        ensures
            is_test_config(c),
    {
        let c = Config {
            project: Project {
                name: String::from_str("MyServer"),
                server_type: ServerType::OfficialJE,
                execute: String::from_str("server.jar"),
                version: String::from_str("1.21.0"),
                birthday: String::from_str("2025-01-01"),
            },
            runtime: Runtime {
                java: Java {
                    version: 21,
                    edition: JavaType::OpenJDK,
                    custom: String::new(),
                    arguments: vec![
                        String::from_str("-Xms 1024M"),
                        String::from_str("-Xmx 1024M"),
                    ],
                    xms: 2048,
                    xmx: 4096,
                },
            },
            backup: Backup {
                enable: true,
                world: true,
                other: false,
                time: Some(Time { interval: 3600, cron: String::from_str("0 */6 * * *") }),
                event: Some(Event { start: false, stop: true, update: true }),
            },
            plugin_manage: PluginManage {
                manage: true,
                plugin: vec![
                    Plugin {
                        name: String::from_str("EssentialsX"),
                        disable: false,
                        update: true,
                    },
                    Plugin { name: String::from_str("Vault"), disable: false, update: false },
                ],
            },
        };
        c
    }
}

} // verus!
