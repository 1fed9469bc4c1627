//! Deciding what a project directory holds.
//!
//! The filesystem probes (does the configuration file exist, is it a regular
//! file, is the working directory a directory) and the parse of the file's
//! content are input gathered by the caller; the decision which verdict they
//! amount to is made here.

use crate::config::Config;
use vstd::prelude::*;

verus! {

/// Why a directory holds no usable project.
#[derive(Clone, Copy, Debug, PartialEq, Eq, Structural)]
pub enum ConfigErr {
    /// Neither the configuration file nor the working directory is present.
    NotConfigured,
    /// Project files are present but unusable: the configuration is not a
    /// regular file, the working directory is not a directory, or the
    /// content does not parse.
    ConfigBroken,
}

/// Whether the directory holds project files at all: the configuration file
/// or the working directory is present.
pub fn test_exists(config_file_present: bool, work_dir_present: bool) -> (r: bool)
    ensures
        r == (config_file_present || work_dir_present),
{
    config_file_present || work_dir_present
}

/// Reads the probes of a directory that holds project files: broken unless
/// the configuration is a regular file, the working directory is a
/// directory, and the content parsed.
pub fn read_config(config_is_file: bool, work_dir_is_dir: bool, parsed: Option<Config>) -> (r:
    Result<Config, ConfigErr>)
    ensures
        !(config_is_file && work_dir_is_dir) ==> (r matches Err(e) && e
            == ConfigErr::ConfigBroken),
        (config_is_file && work_dir_is_dir) ==> (match parsed {
            Some(c) => r matches Ok(rc) && rc == c,
            None => r matches Err(e) && e == ConfigErr::ConfigBroken,
        }),
{
    if !config_is_file || !work_dir_is_dir {
        return Err(ConfigErr::ConfigBroken);
    }
    match parsed {
        Some(c) => Ok(c),
        None => Err(ConfigErr::ConfigBroken),
    }
}

/// The project verdict of a directory: not configured when no project files
/// are present at all, otherwise what [`read_config`] makes of the probes.
pub fn get_info(
    config_file_present: bool,
    work_dir_present: bool,
    config_is_file: bool,
    work_dir_is_dir: bool,
    parsed: Option<Config>,
) -> (r: Result<Config, ConfigErr>)
    ensures
        !(config_file_present || work_dir_present) ==> (r matches Err(e) && e
            == ConfigErr::NotConfigured),
        (config_file_present || work_dir_present) ==> {
            &&& !(config_is_file && work_dir_is_dir) ==> (r matches Err(e) && e
                == ConfigErr::ConfigBroken)
            &&& (config_is_file && work_dir_is_dir) ==> (match parsed {
                Some(c) => r matches Ok(rc) && rc == c,
                None => r matches Err(e) && e == ConfigErr::ConfigBroken,
            })
        },
{
    if !test_exists(config_file_present, work_dir_present) {
        return Err(ConfigErr::NotConfigured);
    }
    read_config(config_is_file, work_dir_is_dir, parsed)
}

} // verus!
