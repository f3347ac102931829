//! Artifact-store decisions: which cached install to reuse, which siblings
//! to prune after a fresh install, and the names and URLs of the artifacts
//! themselves.
//!
//! The embedding layer lists directories and performs downloads and
//! removals; every choice among the listed entries is made here.

use vstd::prelude::*;
use crate::error::BridgeError;
use crate::platform::{Arch, Os, spec_platform_tag, spec_arch_tag};
use crate::strutil::{ends_with, contains_sub, match_at, path_join, join_spec, replace, replace_all};

verus! {

/// `name` looks like a jar file: a non-empty stem followed by `.jar`.
pub open spec fn spec_is_jar_name(name: Seq<char>) -> bool {
    name.len() > 4 && match_at(name, ".jar"@, name.len() - 4)
}

/// Does `name` look like a jar file?
pub fn is_jar_name(name: &str) -> (r: bool)
    ensures
        r == spec_is_jar_name(name@),
{
    proof {
        reveal_strlit(".jar");
    }
    let n = name.unicode_len();
    if n <= 4 {
        return false;
    }
    ends_with(name, ".jar")
}

/// `m` indexes the newest entry: no entry is newer, and every later entry
/// is strictly older, so among equally new entries the last one wins.
pub open spec fn is_newest_index(entries: Seq<(Seq<char>, u64)>, m: int) -> bool {
    &&& 0 <= m < entries.len()
    &&& forall|k: int| 0 <= k < entries.len() ==> (#[trigger] entries[k]).1 <= entries[m].1
    &&& forall|k: int| m < k < entries.len() ==> (#[trigger] entries[k]).1 < entries[m].1
}

/// View of a listing of named entries with creation times.
pub open spec fn entries_view(entries: Seq<(String, u64)>) -> Seq<(Seq<char>, u64)> {
    entries.map_values(|e: (String, u64)| (e.0@, e.1))
}

/// Picks the most recently created entry from a listing; among entries
/// created at the same time, the one listed last.
pub fn latest_entry(entries: &Vec<(String, u64)>) -> (r: Option<String>)
    ensures
        match r {
            Some(p) => exists|m: int|
                is_newest_index(entries_view(entries@), m) && p@ == entries_view(entries@)[m].0,
            None => entries@.len() == 0,
        },
{
    let n = entries.len();
    if n == 0 {
        return None;
    }
    let mut best: usize = 0;
    let mut i: usize = 1;
    while i < n
        invariant
            n == entries@.len(),
            0 <= best < i <= n,
            forall|k: int| 0 <= k < i ==> (#[trigger] entries@[k]).1 <= entries@[best as int].1,
            forall|k: int| best < k < i ==> (#[trigger] entries@[k]).1 < entries@[best as int].1,
        decreases n - i,
    {
        if entries[i].1 >= entries[best].1 {
            best = i;
        }
        i = i + 1;
    }
    proof {
        let ev = entries_view(entries@);
        assert(forall|k: int| 0 <= k < n ==> (#[trigger] ev[k]) == (entries@[k].0@, entries@[k].1));
        assert(is_newest_index(ev, best as int));
    }
    Some(entries[best].0.clone())
}

/// The jar-named entries of a listing, in order.
pub open spec fn jar_entries(entries: Seq<(Seq<char>, u64)>) -> Seq<(Seq<char>, u64)> {
    entries.filter(|e: (Seq<char>, u64)| spec_is_jar_name(e.0))
}

/// Picks the most recently created jar file from a listing, ignoring every
/// entry whose name does not look like a jar.
pub fn latest_jar_entry(entries: &Vec<(String, u64)>) -> (r: Option<String>)
    ensures
        match r {
            Some(p) => exists|m: int|
                #[trigger] is_newest_index(jar_entries(entries_view(entries@)), m) && p@
                    == jar_entries(entries_view(entries@))[m].0,
            None => jar_entries(entries_view(entries@)).len() == 0,
        },
{
    let ghost pred = |e: (Seq<char>, u64)| spec_is_jar_name(e.0);
    let n = entries.len();
    let mut jars: Vec<(String, u64)> = Vec::new();
    let mut i: usize = 0;
    proof {
        assert(entries_view(entries@.subrange(0, 0)) =~= Seq::<(Seq<char>, u64)>::empty());
        reveal(Seq::filter);
    }
    while i < n
        invariant
            n == entries@.len(),
            0 <= i <= n,
            entries_view(jars@) == jar_entries(entries_view(entries@.subrange(0, i as int))),
        decreases n - i,
    {
        let keep = is_jar_name(entries[i].0.as_str());
        let ghost prev = entries_view(entries@.subrange(0, i as int));
        let ghost cur = entries_view(entries@.subrange(0, i + 1));
        proof {
            assert(entries@.subrange(0, i + 1) =~= entries@.subrange(0, i as int).push(
                entries@[i as int],
            ));
            assert(cur =~= prev.push((entries@[i as int].0@, entries@[i as int].1)));
            reveal(Seq::filter);
            assert(cur.drop_last() =~= prev);
        }
        if keep {
            jars.push((entries[i].0.clone(), entries[i].1));
            proof {
                assert(entries_view(jars@) =~= entries_view(jars@.drop_last()).push(
                    (entries@[i as int].0@, entries@[i as int].1),
                )) by {
                    assert(forall|k: int|
                        0 <= k < jars@.len() ==> (#[trigger] entries_view(jars@)[k]) == (
                            jars@[k].0@,
                            jars@[k].1,
                        ));
                }
                assert(entries_view(jars@) == jar_entries(cur)) by {
                    reveal(Seq::filter);
                }
            }
        } else {
            proof {
                assert(entries_view(jars@) == jar_entries(cur)) by {
                    reveal(Seq::filter);
                }
            }
        }
        i = i + 1;
    }
    proof {
        assert(entries@.subrange(0, n as int) =~= entries@);
    }
    latest_entry(&jars)
}

/// The names a prune pass removes: every listed entry other than `keep`.
pub open spec fn spec_prune_targets(entries: Seq<Seq<char>>, keep: Seq<char>) -> Seq<Seq<char>> {
    entries.filter(|n: Seq<char>| n != keep)
}

/// Selects the entries a prune pass must remove: everything under the
/// install root whose name is not exactly `keep`, in listing order.
/// Removing a name that has already disappeared is harmless, so a pruner
/// may act on a stale listing.
pub fn prune_targets(entries: &Vec<String>, keep: &str) -> (r: Vec<String>)
    ensures
        r.deep_view() == spec_prune_targets(entries.deep_view(), keep@),
{
    let n = entries.len();
    let mut out: Vec<String> = Vec::new();
    let mut i: usize = 0;
    proof {
        reveal(Seq::filter);
        assert(entries.deep_view().subrange(0, 0) =~= Seq::<Seq<char>>::empty());
        assert(out.deep_view() =~= Seq::<Seq<char>>::empty());
    }
    while i < n
        invariant
            n == entries@.len(),
            0 <= i <= n,
            out.deep_view() == entries.deep_view().subrange(0, i as int).filter(
                |nm: Seq<char>| nm != keep@,
            ),
        decreases n - i,
    {
        let ghost prev = entries.deep_view().subrange(0, i as int);
        let ghost cur = entries.deep_view().subrange(0, i + 1);
        proof {
            assert(cur =~= prev.push(entries@[i as int]@));
            reveal(Seq::filter);
            assert(cur.drop_last() =~= prev);
        }
        let same = crate::strutil::str_eq(entries[i].as_str(), keep);
        if !same {
            let ghost before = out.deep_view();
            out.push(entries[i].clone());
            proof {
                assert(out.deep_view() =~= before.push(entries@[i as int]@)) by {
                    assert(forall|k: int|
                        0 <= k < out@.len() ==> (#[trigger] out.deep_view()[k]) == out@[k]@);
                }
                assert(out.deep_view() == cur.filter(|nm: Seq<char>| nm != keep@));
            }
        } else {
            proof {
                assert(out.deep_view() == cur.filter(|nm: Seq<char>| nm != keep@));
            }
        }
        i = i + 1;
    }
    proof {
        assert(entries.deep_view().subrange(0, n as int) =~= entries.deep_view());
    }
    out
}

/// The kept name is never among the prune targets, and every other listed
/// name is.
pub proof fn lemma_prune_keeps_only_keep(entries: Seq<Seq<char>>, keep: Seq<char>)
    ensures
        forall|i: int|
            0 <= i < spec_prune_targets(entries, keep).len() ==> #[trigger] spec_prune_targets(
                entries,
                keep,
            )[i] != keep,
        forall|i: int|
            0 <= i < entries.len() && #[trigger] entries[i] != keep ==> spec_prune_targets(
                entries,
                keep,
            ).contains(entries[i]),
    decreases entries.len(),
{
    reveal(Seq::filter);
    if entries.len() > 0 {
        lemma_prune_keeps_only_keep(entries.drop_last(), keep);
        let f = spec_prune_targets(entries, keep);
        let fd = spec_prune_targets(entries.drop_last(), keep);
        assert forall|i: int| 0 <= i < f.len() implies #[trigger] f[i] != keep by {
            if entries.last() != keep {
                if i < fd.len() {
                    assert(f[i] == fd[i]);
                } else {
                    assert(f[i] == entries.last());
                }
            } else {
                assert(f[i] == fd[i]);
            }
        }
        assert forall|i: int| 0 <= i < entries.len() && #[trigger] entries[i] != keep implies f
            .contains(entries[i]) by {
            if i == entries.len() - 1 {
                assert(f[f.len() - 1] == entries.last());
                assert(f.contains(entries[i]));
            } else {
                assert(entries.drop_last()[i] == entries[i]);
                assert(fd.contains(entries[i]));
                let j = choose|j: int| 0 <= j < fd.len() && fd[j] == entries[i];
                assert(f[j] == entries[i]);
                assert(f.contains(entries[i]));
            }
        }
    }
}

/// The file name of an annotation-agent release.
pub fn lombok_jar_name(version: &str) -> (r: String)
    ensures
        r@ == "lombok-"@ + version@ + ".jar"@,
{
    let mut out = "lombok-".to_owned();
    out.append(version);
    out.append(".jar");
    out
}

/// The download URL of an annotation-agent release.
pub fn lombok_download_url(jar_name: &str) -> (r: String)
    ensures
        r@ == "https://projectlombok.org/downloads/"@ + jar_name@,
{
    let mut out = "https://projectlombok.org/downloads/".to_owned();
    out.append(jar_name);
    out
}

/// The file name of a debug-plugin release.
pub fn plugin_jar_name(version: &str) -> (r: String)
    ensures
        r@ == "com.microsoft.java.debug.plugin-"@ + version@ + ".jar"@,
{
    let mut out = "com.microsoft.java.debug.plugin-".to_owned();
    out.append(version);
    out.append(".jar");
    out
}

/// The download URL of a debug-plugin release on the package repository.
pub fn plugin_download_url(version: &str, jar_name: &str) -> (r: String)
    ensures
        r@ == "https://repo1.maven.org/maven2/com/microsoft/java/com.microsoft.java.debug.plugin/"@
            + version@ + "/"@ + jar_name@,
{
    let mut out =
        "https://repo1.maven.org/maven2/com/microsoft/java/com.microsoft.java.debug.plugin/".to_owned();
    out.append(version);
    out.append("/");
    out.append(jar_name);
    out
}

/// The URL of the text file naming a language-server version's latest build.
pub fn server_latest_txt_url(version: &str) -> (r: String)
    ensures
        r@ == "https://download.eclipse.org/jdtls/milestones/"@ + version@ + "/latest.txt"@,
{
    let mut out = "https://download.eclipse.org/jdtls/milestones/".to_owned();
    out.append(version);
    out.append("/latest.txt");
    out
}

/// The download URL of a language-server build.
pub fn server_download_url(version: &str, build: &str) -> (r: String)
    ensures
        r@ == "https://www.eclipse.org/downloads/download.php?file=/jdtls/milestones/"@ + version@
            + "/"@ + build@,
{
    let mut out = "https://www.eclipse.org/downloads/download.php?file=/jdtls/milestones/".to_owned();
    out.append(version);
    out.append("/");
    out.append(build);
    out
}

/// The runtime download URL: the platform-specific template with version,
/// platform tag and architecture tag substituted.
pub open spec fn spec_corretto_url(version: Seq<char>, os: Os, arch: Arch) -> Seq<char> {
    let template = if os == Os::Windows {
        "https://corretto.aws/downloads/resources/{version}/amazon-corretto-{version}-{platform}-{arch}-jdk.zip"@
    } else {
        "https://corretto.aws/downloads/resources/{version}/amazon-corretto-{version}-{platform}-{arch}.tar.gz"@
    };
    replace_all(
        replace_all(replace_all(template, "{version}"@, version), "{platform}"@, spec_platform_tag(os)),
        "{arch}"@,
        spec_arch_tag(arch),
    )
}

/// Builds the runtime download URL for this version and platform.
pub fn build_corretto_url(version: &str, os: Os, arch: Arch) -> (r: String)
    ensures
        r@ == spec_corretto_url(version@, os, arch),
{
    let template: &str = if matches!(os, Os::Windows) {
        "https://corretto.aws/downloads/resources/{version}/amazon-corretto-{version}-{platform}-{arch}-jdk.zip"
    } else {
        "https://corretto.aws/downloads/resources/{version}/amazon-corretto-{version}-{platform}-{arch}.tar.gz"
    };
    proof {
        reveal_strlit("{version}");
        reveal_strlit("{platform}");
        reveal_strlit("{arch}");
    }
    let platform = crate::platform::get_platform(os);
    let arch_tag = crate::platform::get_architecture(arch);
    let step1 = replace(template, "{version}", version);
    let step2 = replace(step1.as_str(), "{platform}", platform.as_str());
    replace(step2.as_str(), "{arch}", arch_tag.as_str())
}

/// The `bin` directory of an extracted runtime: one level deeper on the
/// Mac platform family to account for an app-bundle layout.
pub open spec fn spec_jdk_bin_path(install: Seq<char>, extracted: Seq<char>, os: Os) -> Seq<char> {
    join_spec(
        join_spec(install, extracted),
        if os == Os::Mac {
            "Contents/Home/bin"@
        } else {
            "bin"@
        },
    )
}

/// Returns the runtime's `bin` directory under an install root.
pub fn get_jdk_bin_path(install_path: &str, extracted_dir: &str, os: Os) -> (r: String)
    ensures
        r@ == spec_jdk_bin_path(install_path@, extracted_dir@, os),
{
    let base = path_join(install_path, extracted_dir);
    match os {
        Os::Mac => path_join(base.as_str(), "Contents/Home/bin"),
        _ => path_join(base.as_str(), "bin"),
    }
}

/// `name` mentions an extracted runtime directory.
pub open spec fn spec_names_runtime_dir(name: Seq<char>) -> bool {
    (exists|j: int| match_at(name, "jdk"@, j)) || (exists|j: int| match_at(name, "corretto"@, j))
}

/// Picks the first listed entry that names an extracted runtime directory.
pub fn pick_extracted_dir(entries: &Vec<String>) -> (r: Result<String, BridgeError>)
    ensures
        match r {
            Ok(d) => exists|i: int|
                0 <= i < entries.deep_view().len() && spec_names_runtime_dir(
                    #[trigger] entries.deep_view()[i],
                ) && d@ == entries.deep_view()[i] && forall|j: int|
                    0 <= j < i ==> !spec_names_runtime_dir(#[trigger] entries.deep_view()[j]),
            Err(e) => e == BridgeError::NoExtractedRuntime && forall|i: int|
                0 <= i < entries.deep_view().len() ==> !spec_names_runtime_dir(
                    #[trigger] entries.deep_view()[i],
                ),
        },
{
    let n = entries.len();
    let mut i: usize = 0;
    while i < n
        invariant
            n == entries@.len(),
            0 <= i <= n,
            forall|j: int|
                0 <= j < i ==> !spec_names_runtime_dir(#[trigger] entries.deep_view()[j]),
        decreases n - i,
    {
        let hit = contains_sub(entries[i].as_str(), "jdk") || contains_sub(
            entries[i].as_str(),
            "corretto",
        );
        proof {
            assert(entries.deep_view()[i as int] == entries@[i as int]@);
        }
        if hit {
            return Ok(entries[i].clone());
        }
        i = i + 1;
    }
    Err(BridgeError::NoExtractedRuntime)
}

} // verus!
