//! The library's error taxonomy.
//!
//! Every resolver returns a `Result` with one of these values; only the
//! embedding layer turns them into user-visible text, via [`BridgeError::message`].

use vstd::prelude::*;

verus! {

/// Why a resolve, launch or injection step failed.
#[derive(Clone, Copy, Debug, PartialEq, Eq, Structural)]
pub enum BridgeError {
    /// A `~` could not be expanded because no home directory is known.
    ExpandHome,
    /// No Java executable was found in configuration, on the search path,
    /// or through auto-download.
    NoJavaExecutable,
    /// The runtime's reported version string held no parseable major version.
    JavaVersionUnknown,
    /// The resolved runtime is older than the supported major version.
    JavaVersionTooOld,
    /// Update checks are disabled and no local install exists.
    NoLocalInstall,
    /// The one permitted update check was already spent and no local
    /// install exists.
    AlreadyCheckedOnce,
    /// The tag listing held no usable version entry.
    MalformedTags,
    /// The version listing held no usable version triple.
    NoAvailableVersions,
    /// The metadata document held no usable latest-version element.
    MalformedMetadata,
    /// No launcher jar was found under the plugins directory.
    NoEquinoxLauncher,
    /// No extracted runtime directory was found under the install root.
    NoExtractedRuntime,
    /// More than one runnable entry point matched the given hints.
    AmbiguousEntryPoint,
    /// The initialization options carry a `bundles` field that is not an
    /// array.
    InvalidInitOptions,
    /// The debug plugin has not been resolved yet.
    DebuggerNotLoaded,
    /// The host-supplied launch configuration could not be parsed.
    InvalidLaunchConfig,
    /// The debug configuration's `request` field is missing.
    MissingRequest,
    /// The debug configuration's `request` field holds an unexpected value.
    UnexpectedRequest,
    /// A collaborator response did not have the expected shape.
    MalformedResponse,
}

impl BridgeError {
    /// Canonical user-facing text for this error.
    pub fn message(&self) -> String {
        match self {
            BridgeError::ExpandHome => "Failed to expand ~".to_owned(),
            BridgeError::NoJavaExecutable => "Could not find Java executable in JAVA_HOME or on PATH".to_owned(),
            BridgeError::JavaVersionUnknown => "Failed to determine Java major version".to_owned(),
            BridgeError::JavaVersionTooOld => "The language server requires at least Java version 21 to run. You can either point java_home at a newer JDK, or set jdk_auto_download to true to let the extension download one for you.".to_owned(),
            BridgeError::NoLocalInstall => "Update checks disabled (never) and no local installation found".to_owned(),
            BridgeError::AlreadyCheckedOnce => "Update check already performed once. No local installation found.".to_owned(),
            BridgeError::MalformedTags => "Malformed tags response".to_owned(),
            BridgeError::NoAvailableVersions => "no available versions".to_owned(),
            BridgeError::MalformedMetadata => "Failed to parse version metadata response".to_owned(),
            BridgeError::NoEquinoxLauncher => "Cannot find equinox launcher".to_owned(),
            BridgeError::NoExtractedRuntime => "No match for jdk or corretto in the extracted directory".to_owned(),
            BridgeError::AmbiguousEntryPoint => "Project have multiple entry points, you must explicitly specify \"mainClass\" or \"projectName\"".to_owned(),
            BridgeError::InvalidInitOptions => "Invalid initialization_options format".to_owned(),
            BridgeError::DebuggerNotLoaded => "Debugger is not loaded yet".to_owned(),
            BridgeError::InvalidLaunchConfig => "Failed to parse debug configuration".to_owned(),
            BridgeError::MissingRequest => "Missing required `request` field in debug adapter configuration".to_owned(),
            BridgeError::UnexpectedRequest => "Unexpected value for `request` key in debug adapter configuration".to_owned(),
            BridgeError::MalformedResponse => "Failed to parse response from lsp proxy".to_owned(),
        }
    }
}

} // verus!
