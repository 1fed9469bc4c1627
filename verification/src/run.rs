//! Decisions made when a server is started.
//!
//! Process creation, file renaming and installation are the caller's
//! business; verified here are the two decisions the start-up sequence
//! makes: whether an executable's detected media type is a usable Bedrock
//! server binary on the running platform, and which memory options the Java
//! command line carries.

use crate::text::decimal_of;
use crate::text::str_eq;
use crate::text::u64_to_string;
use vstd::prelude::*;
use vstd::string::*;

verus! {

/// Media type of a native executable on the platform `linux`.
pub open spec fn elf_mime() -> Seq<char> {
    "application/x-executable"@
}

/// Media type of a native executable on the platform `windows`.
pub open spec fn pe_mime() -> Seq<char> {
    "application/vnd.microsoft.portable-executable"@
}

/// Whether a detected media type is a usable Bedrock server binary for the
/// running platform: a native executable matching that platform.
pub fn is_valid_bds_binary(mime: &str, os: &str) -> (r: bool)
    ensures
        r == ((mime@ == elf_mime() && os@ == "linux"@) || (mime@ == pe_mime() && os@
            == "windows"@)),
{
    (str_eq(mime, "application/x-executable") && str_eq(os, "linux")) || (str_eq(
        mime,
        "application/vnd.microsoft.portable-executable",
    ) && str_eq(os, "windows"))
}

/// The minimum-heap option of a Java command line.
pub open spec fn xms_option(xms: int) -> Seq<char> {
    "-Xms "@ + decimal_of(xms) + "M"@
}

/// The maximum-heap option of a Java command line.
pub open spec fn xmx_option(xmx: int) -> Seq<char> {
    "-Xmx "@ + decimal_of(xmx) + "M"@
}

/// The memory options of the Java command line: the minimum-heap option
/// when a minimum is configured, then the maximum-heap option when a
/// maximum is; zero means unconfigured and contributes nothing.
pub fn java_mem_options(xms: usize, xmx: usize) -> (r: Vec<String>)
    ensures
        xms != 0 && xmx != 0 ==> r@.len() == 2 && r@[0]@ == xms_option(xms as int) && r@[1]@
            == xmx_option(xmx as int),
        xms != 0 && xmx == 0 ==> r@.len() == 1 && r@[0]@ == xms_option(xms as int),
        xms == 0 && xmx != 0 ==> r@.len() == 1 && r@[0]@ == xmx_option(xmx as int),
        xms == 0 && xmx == 0 ==> r@.len() == 0,
{
    let mut options: Vec<String> = Vec::new();
    if xms != 0 {
        let opt = String::from_str("-Xms ").concat(u64_to_string(xms as u64).as_str()).concat("M");
        options.push(opt);
    }
    if xmx != 0 {
        let opt = String::from_str("-Xmx ").concat(u64_to_string(xmx as u64).as_str()).concat("M");
        options.push(opt);
    }
    options
}

} // verus!
