use zknet_core::supervisor::{
    binary_file_name, drain_step, launch_plan, service_args, PipeAction, PipeEvent,
    SupervisorError,
};

#[test]
fn missing_binary_is_a_distinct_error() {
    let r = launch_plan(
        "/data/networks/testnet",
        "linux-x64",
        "127.0.0.1:7070",
        "client.toml",
        false,
    );
    assert_eq!(r.unwrap_err(), SupervisorError::BinaryNotFound);
}

#[test]
fn launch_plan_program_and_arguments() {
    let p = launch_plan(
        "/data/networks/testnet",
        "linux-x64",
        "127.0.0.1:7070",
        "client.toml",
        true,
    )
    .unwrap();
    assert_eq!(p.program, "/data/networks/testnet/walletshield");
    assert_eq!(p.working_dir, "/data/networks/testnet");
    assert_eq!(
        p.args,
        vec!["-listen", "127.0.0.1:7070", "-config", "client.toml"]
    );
}

#[test]
fn windows_binary_carries_extension() {
    assert_eq!(binary_file_name("windows-x64"), "walletshield.exe");
    assert_eq!(binary_file_name("linux-x64"), "walletshield");
    assert_eq!(binary_file_name("macos"), "walletshield");
    let p = launch_plan("/d", "windows-x64", "addr", "client.toml", true).unwrap();
    assert_eq!(p.program, "/d/walletshield.exe");
}

#[test]
fn service_argument_order() {
    let args = service_args("0.0.0.0:9000", "client.toml");
    assert_eq!(args, vec!["-listen", "0.0.0.0:9000", "-config", "client.toml"]);
}

#[test]
fn drain_forwards_lines_until_stream_ends() {
    assert_eq!(
        drain_step(PipeEvent::Line("service started".into())),
        PipeAction::Forward("service started".into())
    );
    assert_eq!(drain_step(PipeEvent::EndOfStream), PipeAction::Stop);
    assert_eq!(drain_step(PipeEvent::ReadFailed), PipeAction::Stop);
}
