//! The update policy gating artifact downloads.
//!
//! One shared decision function covers every artifact: given the configured
//! mode, the best local install (if any) and whether the persisted
//! checked-once marker exists, it decides between reusing the local install,
//! downloading, and failing — before any network request is made.

use vstd::prelude::*;
use crate::config::CheckUpdates;
use crate::error::BridgeError;

verus! {

/// What the policy decided.  `Ok(Some(path))` reuses the local install at
/// `path`, `Ok(None)` proceeds to a version check and download, and an
/// error forbids both.
pub type PolicyChoice = Result<Option<String>, BridgeError>;

/// The choice the policy makes, as a function of mode, local install and
/// marker.
pub open spec fn spec_local_or_download(
    mode: CheckUpdates,
    local: Option<Seq<char>>,
    has_marker: bool,
) -> Result<Option<Seq<char>>, BridgeError> {
    match mode {
        CheckUpdates::Never => match local {
            Some(p) => Ok(Some(p)),
            None => Err(BridgeError::NoLocalInstall),
        },
        CheckUpdates::Once => match local {
            Some(p) => Ok(Some(p)),
            None => if has_marker {
                Err(BridgeError::AlreadyCheckedOnce)
            } else {
                Ok(None)
            },
        },
        CheckUpdates::Always => Ok(None),
    }
}

/// Decides between a local install and a fresh download.
///
/// Under `Never` the local install is required: with none present the
/// resolution fails, and no version check may be made.  Under `Once` a
/// local install short-circuits; otherwise the persisted marker forbids a
/// second check.  Under `Always` the caller always proceeds to a version
/// check.  The caller must persist the marker after a download made under
/// `Once`.
pub fn should_use_local_or_download(
    mode: CheckUpdates,
    local: Option<String>,
    has_marker: bool,
) -> (r: PolicyChoice)
    ensures
        ({
            let lv = match local {
                Some(p) => Some(p@),
                None => None,
            };
            match r {
                Ok(Some(p)) => spec_local_or_download(mode, lv, has_marker) == Ok::<
                    Option<Seq<char>>,
                    BridgeError,
                >(Some(p@)),
                Ok(None) => spec_local_or_download(mode, lv, has_marker) == Ok::<
                    Option<Seq<char>>,
                    BridgeError,
                >(None),
                Err(e) => spec_local_or_download(mode, lv, has_marker) == Err::<
                    Option<Seq<char>>,
                    BridgeError,
                >(e),
            }
        }),
{
    match mode {
        CheckUpdates::Never => match local {
            Some(p) => Ok(Some(p)),
            None => Err(BridgeError::NoLocalInstall),
        },
        CheckUpdates::Once => match local {
            Some(p) => Ok(Some(p)),
            None => {
                if has_marker {
                    Err(BridgeError::AlreadyCheckedOnce)
                } else {
                    Ok(None)
                }
            },
        },
        CheckUpdates::Always => Ok(None),
    }
}

/// The checked-once marker file inside an artifact's install root.  Its
/// existence — not its content — gates the `Once` short-circuit; the
/// content records the installed version for diagnostics.
pub fn checked_marker_path(install_root: &str) -> (r: String)
    ensures
        r@ == crate::strutil::join_spec(install_root@, ".checked-once"@),
{
    crate::strutil::path_join(install_root, ".checked-once")
}

/// Whether a marker must be persisted after a successful download.
pub fn must_persist_marker(mode: CheckUpdates) -> (r: bool)
    ensures
        r == (mode == CheckUpdates::Once),
{
    matches!(mode, CheckUpdates::Once)
}

/// Under mode `Never` the policy never chooses to download: whatever the
/// local state, the choice is the local install or a failure.
pub proof fn lemma_never_makes_no_network_call(local: Option<Seq<char>>, has_marker: bool)
    ensures
        spec_local_or_download(CheckUpdates::Never, local, has_marker) != Ok::<
            Option<Seq<char>>,
            BridgeError,
        >(None),
        local is Some ==> spec_local_or_download(CheckUpdates::Never, local, has_marker) == Ok::<
            Option<Seq<char>>,
            BridgeError,
        >(local),
        local is None ==> spec_local_or_download(CheckUpdates::Never, local, has_marker) == Err::<
            Option<Seq<char>>,
            BridgeError,
        >(BridgeError::NoLocalInstall),
{
}

/// Under mode `Once` with no local install, the first resolution (no
/// marker yet) downloads, and once the marker exists every further
/// resolution fails instead of checking again.
pub proof fn lemma_once_checks_at_most_once()
    ensures
        spec_local_or_download(CheckUpdates::Once, None, false) == Ok::<
            Option<Seq<char>>,
            BridgeError,
        >(None),
        spec_local_or_download(CheckUpdates::Once, None, true) == Err::<
            Option<Seq<char>>,
            BridgeError,
        >(BridgeError::AlreadyCheckedOnce),
{
}

} // verus!
