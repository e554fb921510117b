//! Mapping of host (os, arch) pairs to the platform identifiers the asset
//! distribution point understands, and classification of a platform
//! identifier for executable post-processing.

use vstd::prelude::*;
use vstd::string::StrSliceExecFns;
use vstd::string::StringExecFns;
use crate::text::str_eq;

verus! {

/// The platform identifier for a supported (os, arch) pair, if any.
pub open spec fn spec_platform_arch(os: Seq<char>, arch: Seq<char>) -> Option<Seq<char>> {
    if os == "linux"@ && arch == "aarch64"@ {
        Some("linux-arm64"@)
    } else if os == "linux"@ && arch == "x86_64"@ {
        Some("linux-x64"@)
    } else if os == "macos"@ && (arch == "aarch64"@ || arch == "x86_64"@) {
        Some("macos"@)
    } else if os == "windows"@ && arch == "x86_64"@ {
        Some("windows-x64"@)
    } else {
        None
    }
}

/// Map an OS name and architecture name to the platform identifier used in
/// asset URLs. Unsupported pairs are reported in the error text.
pub fn map_platform_arch(os: &str, arch: &str) -> (r: Result<String, String>)
    ensures
        match spec_platform_arch(os@, arch@) {
            Some(p) => r matches Ok(v) && v@ == p,
            None => r matches Err(e) && e@ == "Unsupported platform: "@ + os@ + " ("@
                + arch@ + ")"@,
        },
{
    if str_eq(os, "linux") && str_eq(arch, "aarch64") {
        Ok("linux-arm64".to_owned())
    } else if str_eq(os, "linux") && str_eq(arch, "x86_64") {
        Ok("linux-x64".to_owned())
    } else if str_eq(os, "macos") && (str_eq(arch, "aarch64") || str_eq(arch, "x86_64")) {
        Ok("macos".to_owned())
    } else if str_eq(os, "windows") && str_eq(arch, "x86_64") {
        Ok("windows-x64".to_owned())
    } else {
        let mut msg: String = "Unsupported platform: ".to_owned();
        msg.append(os);
        msg.append(" (");
        msg.append(arch);
        msg.append(")");
        proof {
            assert(msg@ == "Unsupported platform: "@ + os@ + " ("@ + arch@ + ")"@);
        }
        Err(msg)
    }
}

/// Index of the first '-' in `s` at or after `i`, or `s.len()` if none.
pub open spec fn spec_dash_index(s: Seq<char>, i: int) -> int
    decreases s.len() - i,
{
    if i < 0 || i >= s.len() {
        s.len() as int
    } else if s[i] == '-' {
        i
    } else {
        spec_dash_index(s, i + 1)
    }
}

/// The platform name part of a platform identifier: everything before the
/// first '-', or the whole string if it has none ("linux-x64" -> "linux").
pub open spec fn spec_platform_prefix(s: Seq<char>) -> Seq<char> {
    s.subrange(0, spec_dash_index(s, 0))
}

proof fn lemma_dash_index_found(s: Seq<char>, k: int, i: int)
    requires
        0 <= k <= i <= s.len(),
        forall|j: int| k <= j < i ==> s[j] != '-',
        i == s.len() || s[i] == '-',
    ensures
        spec_dash_index(s, k) == i,
    decreases i - k,
{
    if k < i {
        lemma_dash_index_found(s, k + 1, i);
    }
}

/// Executable counterpart of [`spec_platform_prefix`].
pub fn platform_prefix(s: &str) -> (p: String)
    ensures
        p@ == spec_platform_prefix(s@),
{
    let n = s.unicode_len();
    let mut i: usize = 0;
    while i < n && s.get_char(i) != '-'
        invariant
            i <= n,
            n == s@.len(),
            forall|j: int| 0 <= j < i ==> s@[j] != '-',
        decreases n - i,
    {
        i += 1;
    }
    proof {
        lemma_dash_index_found(s@, 0, i as int);
    }
    let pre = s.substring_char(0, i);
    pre.to_owned()
}

/// How an executable asset must be adjusted after download, determined by
/// the platform name part of the platform identifier.
#[derive(Clone, Copy, Debug, PartialEq, Eq, Structural)]
pub enum PlatformKind {
    /// A Unix-like platform: executables need their permission bits set.
    Unix,
    /// Windows: executables need an executable file extension.
    Windows,
    /// Anything else: no adjustment is made.
    Other,
}

/// Classification of a platform identifier by its platform name part.
pub open spec fn spec_platform_kind(platform_arch: Seq<char>) -> PlatformKind {
    let p = spec_platform_prefix(platform_arch);
    if p == "linux"@ || p == "macos"@ {
        PlatformKind::Unix
    } else if p == "windows"@ {
        PlatformKind::Windows
    } else {
        PlatformKind::Other
    }
}

/// Executable counterpart of [`spec_platform_kind`].
pub fn platform_kind(platform_arch: &str) -> (k: PlatformKind)
    ensures
        k == spec_platform_kind(platform_arch@),
{
    let p = platform_prefix(platform_arch);
    if str_eq(p.as_str(), "linux") || str_eq(p.as_str(), "macos") {
        PlatformKind::Unix
    } else if str_eq(p.as_str(), "windows") {
        PlatformKind::Windows
    } else {
        PlatformKind::Other
    }
}

} // verus!
