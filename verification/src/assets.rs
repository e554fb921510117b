//! Asset fetch orchestration.
//!
//! A network is joined by fetching a fixed set of named assets. The
//! decisions live here: which assets exist, the URL and destination of each,
//! how the executable asset is adjusted per platform, and the all-or-nothing
//! combination of the concurrent per-asset outcomes. The surrounding binary
//! runs the transfers concurrently and feeds the outcomes back.

use vstd::prelude::*;
use vstd::string::StringExecFns;
use crate::netid::NetworkIdError;
use crate::netid::valid_network_id;
use crate::netid::validate_network_id;
use crate::platform::PlatformKind;
use crate::platform::platform_kind;
use crate::platform::spec_platform_kind;
use crate::transfer::TransferError;

verus! {

/// Unix permission bits set on a downloaded executable: rwxr-xr-x.
pub const EXECUTABLE_MODE: u32 = 0o755;

/// A named asset a network requires its client to fetch before launch.
#[derive(Clone, Debug)]
pub struct AssetSpec {
    /// File name of the asset, also the last URL path segment.
    pub name: String,
    /// Whether the asset is the service executable.
    pub is_executable: bool,
    /// Whether progress events should be surfaced for this asset.
    pub show_progress: bool,
}

/// The fixed asset list: the network configuration, the services listing,
/// and the platform-suffixed executable.
pub open spec fn spec_asset_list(l: Seq<AssetSpec>) -> bool {
    &&& l.len() == 3
    &&& l[0].name@ == "client.toml"@ && !l[0].is_executable && !l[0].show_progress
    &&& l[1].name@ == "services.json"@ && !l[1].is_executable && !l[1].show_progress
    &&& l[2].name@ == "walletshield"@ && l[2].is_executable && !l[2].show_progress
}

/// The assets every network fetch consists of.
pub fn network_assets() -> (l: Vec<AssetSpec>)
    ensures
        spec_asset_list(l@),
{
    let mut l: Vec<AssetSpec> = Vec::new();
    l.push(
        AssetSpec {
            name: "client.toml".to_owned(),
            is_executable: false,
            show_progress: false,
        },
    );
    l.push(
        AssetSpec {
            name: "services.json".to_owned(),
            is_executable: false,
            show_progress: false,
        },
    );
    l.push(
        AssetSpec { name: "walletshield".to_owned(), is_executable: true, show_progress: false },
    );
    l
}

/// How a downloaded executable asset is adjusted, once, after its transfer.
#[derive(Clone, Copy, Debug, PartialEq, Eq, Structural)]
pub enum PostStep {
    /// Set the file's permission bits to the given mode.
    SetMode(u32),
    /// Rename the file to carry an executable extension.
    RenameWithExeExtension,
    /// Leave the file as it is.
    NoAdjustment,
}

/// The adjustment an executable asset needs on the given platform.
pub open spec fn spec_post_step(platform_arch: Seq<char>) -> PostStep {
    match spec_platform_kind(platform_arch) {
        PlatformKind::Unix => PostStep::SetMode(EXECUTABLE_MODE),
        PlatformKind::Windows => PostStep::RenameWithExeExtension,
        PlatformKind::Other => PostStep::NoAdjustment,
    }
}

/// Executable counterpart of [`spec_post_step`].
pub fn post_step(platform_arch: &str) -> (s: PostStep)
    ensures
        s == spec_post_step(platform_arch@),
{
    match platform_kind(platform_arch) {
        PlatformKind::Unix => PostStep::SetMode(EXECUTABLE_MODE),
        PlatformKind::Windows => PostStep::RenameWithExeExtension,
        PlatformKind::Other => PostStep::NoAdjustment,
    }
}

/// The URL an asset is fetched from: `{url_base}/{name}`, with
/// `-{platform_arch}` appended for the executable asset.
pub open spec fn spec_asset_url(
    url_base: Seq<char>,
    name: Seq<char>,
    platform_arch: Seq<char>,
    is_executable: bool,
) -> Seq<char> {
    if is_executable {
        url_base + "/"@ + name + "-"@ + platform_arch
    } else {
        url_base + "/"@ + name
    }
}

/// Executable counterpart of [`spec_asset_url`].
pub fn asset_url(url_base: &str, name: &str, platform_arch: &str, is_executable: bool) -> (u:
    String)
    ensures
        u@ == spec_asset_url(url_base@, name@, platform_arch@, is_executable),
{
    let mut u: String = url_base.to_owned();
    u.append("/");
    u.append(name);
    if is_executable {
        u.append("-");
        u.append(platform_arch);
    }
    u
}

/// The per-network asset directory: `{data_dir}/networks/{network_id}`.
pub open spec fn spec_network_dir(data_dir: Seq<char>, network_id: Seq<char>) -> Seq<char> {
    data_dir + "/networks/"@ + network_id
}

/// Executable counterpart of [`spec_network_dir`].
pub fn network_dir(data_dir: &str, network_id: &str) -> (d: String)
    ensures
        d@ == spec_network_dir(data_dir@, network_id@),
{
    let mut d: String = data_dir.to_owned();
    d.append("/networks/");
    d.append(network_id);
    d
}

/// Everything one asset transfer needs: where to fetch from, where to put
/// the bytes, and how to adjust the file afterwards.
#[derive(Clone, Debug)]
pub struct AssetPlan {
    /// File name of the asset.
    pub name: String,
    /// URL the asset is fetched from.
    pub url: String,
    /// Destination path of the downloaded file.
    pub dest_path: String,
    /// Whether progress events should be surfaced.
    pub show_progress: bool,
    /// The one-shot adjustment applied after a successful transfer.
    pub post: PostStep,
}

/// What one asset's plan must say, for an asset named `name` with the given
/// executable and progress flags.
pub open spec fn spec_plan_for(
    p: AssetPlan,
    name: Seq<char>,
    is_executable: bool,
    show_progress: bool,
    url_base: Seq<char>,
    dir: Seq<char>,
    platform_arch: Seq<char>,
) -> bool {
    &&& p.name@ == name
    &&& p.url@ == spec_asset_url(url_base, name, platform_arch, is_executable)
    &&& p.dest_path@ == dir + "/"@ + name
    &&& p.show_progress == show_progress
    &&& p.post == (if is_executable {
        spec_post_step(platform_arch)
    } else {
        PostStep::NoAdjustment
    })
}

/// The complete plan for one `fetch_network_assets` call.
pub open spec fn spec_fetch_plan(
    plans: Seq<AssetPlan>,
    dir: Seq<char>,
    url_network: Seq<char>,
    data_dir: Seq<char>,
    network_id: Seq<char>,
    platform_arch: Seq<char>,
) -> bool {
    let url_base = url_network + "/"@ + network_id;
    &&& dir == spec_network_dir(data_dir, network_id)
    &&& plans.len() == 3
    &&& spec_plan_for(plans[0], "client.toml"@, false, false, url_base, dir, platform_arch)
    &&& spec_plan_for(plans[1], "services.json"@, false, false, url_base, dir, platform_arch)
    &&& spec_plan_for(plans[2], "walletshield"@, true, false, url_base, dir, platform_arch)
}

/// Plan a whole network fetch: validate the identifier, then lay out the
/// asset directory and the three asset transfers. An invalid identifier is
/// rejected here, before any network or filesystem access can happen.
pub fn plan_network_fetch(
    url_network: &str,
    data_dir: &str,
    network_id: &str,
    platform_arch: &str,
) -> (r: Result<(String, Vec<AssetPlan>), NetworkIdError>)
    ensures
        r is Ok <==> valid_network_id(network_id@),
        r matches Ok(p) ==> spec_fetch_plan(
            p.1@,
            p.0@,
            url_network@,
            data_dir@,
            network_id@,
            platform_arch@,
        ),
{
    validate_network_id(network_id)?;
    let dir = network_dir(data_dir, network_id);
    let mut url_base: String = url_network.to_owned();
    url_base.append("/");
    url_base.append(network_id);
    let specs = network_assets();
    let mut plans: Vec<AssetPlan> = Vec::new();
    let mut i: usize = 0;
    while i < specs.len()
        invariant
            i <= specs@.len(),
            spec_asset_list(specs@),
            url_base@ == url_network@ + "/"@ + network_id@,
            dir@ == spec_network_dir(data_dir@, network_id@),
            plans@.len() == i,
            forall|j: int|
                0 <= j < i ==> spec_plan_for(
                    #[trigger] plans@[j],
                    specs@[j].name@,
                    specs@[j].is_executable,
                    specs@[j].show_progress,
                    url_base@,
                    dir@,
                    platform_arch@,
                ),
        decreases specs@.len() - i,
    {
        let a = &specs[i];
        let url = asset_url(url_base.as_str(), a.name.as_str(), platform_arch, a.is_executable);
        let mut dest: String = dir.clone();
        dest.append("/");
        dest.append(a.name.as_str());
        let post = if a.is_executable {
            post_step(platform_arch)
        } else {
            PostStep::NoAdjustment
        };
        plans.push(
            AssetPlan {
                name: a.name.clone(),
                url,
                dest_path: dest,
                show_progress: a.show_progress,
                post,
            },
        );
        i += 1;
    }
    Ok((dir, plans))
}

/// Combine the outcomes of the concurrent asset transfers, in the order the
/// orchestrator observed them: the fetch as a whole succeeds only if every
/// asset transfer succeeded, and a failed fetch reports the first failure
/// observed.
pub fn combine_fetch_results(results: &Vec<Result<(), TransferError>>) -> (r: Result<
    (),
    TransferError,
>)
    ensures
        r is Ok <==> (forall|i: int| 0 <= i < results@.len() ==> results@[i] is Ok),
        r matches Err(e) ==> exists|i: int|
            0 <= i < results@.len() && #[trigger] results@[i] == Err::<(), TransferError>(e)
                && (forall|j: int| 0 <= j < i ==> results@[j] is Ok),
{
    let n = results.len();
    let mut i: usize = 0;
    while i < n
        invariant
            i <= n,
            n == results@.len(),
            forall|j: int| 0 <= j < i ==> results@[j] is Ok,
        decreases n - i,
    {
        match results[i] {
            Ok(()) => {
                i += 1;
            },
            Err(e) => {
                return Err(e);
            },
        }
    }
    Ok(())
}

} // verus!
