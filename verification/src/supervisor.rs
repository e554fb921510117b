//! Launch planning and output draining for the fetched service binary.
//!
//! The supervisor's decisions are pure: which file to launch, with which
//! arguments and working directory, and what a pipe reader does with each
//! thing it observes. The surrounding binary spawns the process, runs the
//! two independent drain loops, and awaits the exit status.

use vstd::prelude::*;
use vstd::string::StringExecFns;
use crate::platform::PlatformKind;
use crate::platform::platform_kind;
use crate::platform::spec_platform_kind;

verus! {

/// Why the service could not be started.
#[derive(Clone, Copy, Debug, PartialEq, Eq, Structural)]
pub enum SupervisorError {
    /// The service binary is missing at its expected path. Checked before
    /// spawning, so a missing download is reported distinctly from an OS
    /// spawn failure.
    BinaryNotFound,
    /// The OS failed to spawn the process.
    SpawnFailed,
    /// Waiting for the process to exit failed.
    WaitFailed,
}

/// File name of the service binary: the executable asset's name, carrying
/// the executable extension on Windows.
pub open spec fn spec_binary_file_name(platform_arch: Seq<char>) -> Seq<char> {
    if spec_platform_kind(platform_arch) == PlatformKind::Windows {
        "walletshield.exe"@
    } else {
        "walletshield"@
    }
}

/// Executable counterpart of [`spec_binary_file_name`].
pub fn binary_file_name(platform_arch: &str) -> (n: String)
    ensures
        n@ == spec_binary_file_name(platform_arch@),
{
    match platform_kind(platform_arch) {
        PlatformKind::Windows => "walletshield.exe".to_owned(),
        _ => "walletshield".to_owned(),
    }
}

/// The command-line arguments the service is launched with:
/// `-listen <listen_address> -config <config_file_name>`.
pub open spec fn spec_service_args(
    args: Seq<String>,
    listen_address: Seq<char>,
    config_file_name: Seq<char>,
) -> bool {
    &&& args.len() == 4
    &&& args[0]@ == "-listen"@
    &&& args[1]@ == listen_address
    &&& args[2]@ == "-config"@
    &&& args[3]@ == config_file_name
}

/// Build the service's argument list.
pub fn service_args(listen_address: &str, config_file_name: &str) -> (args: Vec<String>)
    ensures
        spec_service_args(args@, listen_address@, config_file_name@),
{
    let mut args: Vec<String> = Vec::new();
    args.push("-listen".to_owned());
    args.push(listen_address.to_owned());
    args.push("-config".to_owned());
    args.push(config_file_name.to_owned());
    args
}

/// Everything a spawn needs: the program path, the working directory, and
/// the argument list. Standard output and standard error are both piped so
/// the two drain loops can read them.
#[derive(Clone, Debug)]
pub struct LaunchPlan {
    /// Full path of the binary to launch.
    pub program: String,
    /// Working directory of the child: the network's asset directory.
    pub working_dir: String,
    /// Command-line arguments.
    pub args: Vec<String>,
}

/// Plan the launch of the service binary in `dir`. `binary_exists` is
/// whether the binary is present at its expected path, as the surrounding
/// binary observed it: a missing binary fails fast, before any spawn.
pub fn launch_plan(
    dir: &str,
    platform_arch: &str,
    listen_address: &str,
    config_file_name: &str,
    binary_exists: bool,
) -> (r: Result<LaunchPlan, SupervisorError>)
    ensures
        r is Ok <==> binary_exists,
        !binary_exists ==> r == Err::<LaunchPlan, SupervisorError>(SupervisorError::BinaryNotFound),
        r matches Ok(p) ==> p.program@ == dir@ + "/"@ + spec_binary_file_name(platform_arch@)
            && p.working_dir@ == dir@ && spec_service_args(
            p.args@,
            listen_address@,
            config_file_name@,
        ),
{
    if !binary_exists {
        return Err(SupervisorError::BinaryNotFound);
    }
    let name = binary_file_name(platform_arch);
    let mut program: String = dir.to_owned();
    program.append("/");
    program.append(name.as_str());
    Ok(
        LaunchPlan {
            program,
            working_dir: dir.to_owned(),
            args: service_args(listen_address, config_file_name),
        },
    )
}

/// One observation a pipe reader makes on a child output stream.
#[derive(Clone, Debug, PartialEq, Eq)]
pub enum PipeEvent {
    /// A full line was read.
    Line(String),
    /// The stream ended.
    EndOfStream,
    /// Reading from the pipe failed.
    ReadFailed,
}

/// What the drain loop does with one observation.
#[derive(Clone, Debug, PartialEq, Eq)]
pub enum PipeAction {
    /// Forward the line onward and keep reading.
    Forward(String),
    /// Terminate this reader.
    Stop,
}

/// One step of a child-output drain loop: lines are forwarded one by one as
/// they arrive, and the reader terminates cleanly on end-of-stream or on a
/// read error. Nothing is buffered beyond the current line.
pub fn drain_step(ev: PipeEvent) -> (a: PipeAction)
    ensures
        match ev {
            PipeEvent::Line(s) => a == PipeAction::Forward(s),
            PipeEvent::EndOfStream => a == PipeAction::Stop,
            PipeEvent::ReadFailed => a == PipeAction::Stop,
        },
{
    match ev {
        PipeEvent::Line(s) => PipeAction::Forward(s),
        PipeEvent::EndOfStream => PipeAction::Stop,
        PipeEvent::ReadFailed => PipeAction::Stop,
    }
}

} // verus!
