//! Host platform model: operating-system family, processor architecture,
//! and the platform-specific names used in download URLs and executable
//! lookups.

use vstd::prelude::*;

verus! {

/// Operating-system family of the host.
#[derive(Clone, Copy, Debug, PartialEq, Eq, Structural)]
pub enum Os {
    Linux,
    Mac,
    Windows,
}

/// Processor architecture of the host.
#[derive(Clone, Copy, Debug, PartialEq, Eq, Structural)]
pub enum Arch {
    Aarch64,
    X86,
    X8664,
}

/// Name of the Java executable on this platform.
pub open spec fn spec_java_exec_name(os: Os) -> Seq<char> {
    if os == Os::Windows {
        "java.exe"@
    } else {
        "java"@
    }
}

/// Returns the Java executable's file name.
pub fn get_java_exec_name(os: Os) -> (r: String)
    ensures
        r@ == spec_java_exec_name(os),
{
    match os {
        Os::Windows => "java.exe".to_owned(),
        _ => "java".to_owned(),
    }
}

/// Name of the language server's launcher script on this platform.
pub open spec fn spec_server_binary_name(os: Os) -> Seq<char> {
    if os == Os::Windows {
        "jdtls.bat"@
    } else {
        "jdtls"@
    }
}

/// Returns the language server launcher's file name.
pub fn get_binary_name(os: Os) -> (r: String)
    ensures
        r@ == spec_server_binary_name(os),
{
    match os {
        Os::Windows => "jdtls.bat".to_owned(),
        _ => "jdtls".to_owned(),
    }
}

/// Platform tag used in runtime download URLs.
pub open spec fn spec_platform_tag(os: Os) -> Seq<char> {
    match os {
        Os::Mac => "macosx"@,
        Os::Linux => "linux"@,
        Os::Windows => "windows"@,
    }
}

/// Returns the platform tag used in runtime download URLs.
pub fn get_platform(os: Os) -> (r: String)
    ensures
        r@ == spec_platform_tag(os),
{
    match os {
        Os::Mac => "macosx".to_owned(),
        Os::Linux => "linux".to_owned(),
        Os::Windows => "windows".to_owned(),
    }
}

/// Architecture tag used in runtime download URLs.
pub open spec fn spec_arch_tag(arch: Arch) -> Seq<char> {
    match arch {
        Arch::Aarch64 => "aarch64"@,
        Arch::X86 => "x86"@,
        Arch::X8664 => "x64"@,
    }
}

/// Returns the architecture tag used in runtime download URLs.
pub fn get_architecture(arch: Arch) -> (r: String)
    ensures
        r@ == spec_arch_tag(arch),
{
    match arch {
        Arch::Aarch64 => "aarch64".to_owned(),
        Arch::X86 => "x86".to_owned(),
        Arch::X8664 => "x64".to_owned(),
    }
}

/// Name of the bundled shared-configuration directory for this platform.
pub open spec fn spec_shared_config_dir(os: Os) -> Seq<char> {
    match os {
        Os::Linux => "config_linux"@,
        Os::Mac => "config_mac"@,
        Os::Windows => "config_win"@,
    }
}

/// Returns the bundled shared-configuration directory's name.
pub fn shared_config_dir(os: Os) -> (r: String)
    ensures
        r@ == spec_shared_config_dir(os),
{
    match os {
        Os::Linux => "config_linux".to_owned(),
        Os::Mac => "config_mac".to_owned(),
        Os::Windows => "config_win".to_owned(),
    }
}

/// The shared-configuration directory under a language-server install.
pub fn get_shared_config_path(base: &str, os: Os) -> (r: String)
    ensures
        r@ == crate::strutil::join_spec(base@, spec_shared_config_dir(os)),
{
    let dir = shared_config_dir(os);
    crate::strutil::path_join(base, dir.as_str())
}

} // verus!
