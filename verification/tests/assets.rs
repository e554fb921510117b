use zknet_core::assets::{
    combine_fetch_results, network_assets, plan_network_fetch, post_step, PostStep,
    EXECUTABLE_MODE,
};
use zknet_core::transfer::TransferError;

#[test]
fn fixed_asset_list() {
    let l = network_assets();
    assert_eq!(l.len(), 3);
    assert_eq!(l[0].name, "client.toml");
    assert!(!l[0].is_executable);
    assert_eq!(l[1].name, "services.json");
    assert!(!l[1].is_executable);
    assert_eq!(l[2].name, "walletshield");
    assert!(l[2].is_executable);
}

#[test]
fn one_failed_asset_fails_the_whole_fetch() {
    let results = vec![Ok(()), Err(TransferError::Status(500)), Ok(())];
    assert_eq!(
        combine_fetch_results(&results),
        Err(TransferError::Status(500))
    );
    let all_ok = vec![Ok(()), Ok(()), Ok(())];
    assert_eq!(combine_fetch_results(&all_ok), Ok(()));
}

#[test]
fn first_observed_failure_is_reported() {
    let results = vec![
        Ok(()),
        Err(TransferError::Read),
        Err(TransferError::Status(404)),
    ];
    assert_eq!(combine_fetch_results(&results), Err(TransferError::Read));
}

#[test]
fn testnet_fetch_plan_layout() {
    let (dir, plans) = plan_network_fetch(
        "https://assets.example/networks",
        "/data",
        "testnet",
        "linux-x64",
    )
    .unwrap();
    assert_eq!(dir, "/data/networks/testnet");
    assert_eq!(plans.len(), 3);

    assert_eq!(plans[0].name, "client.toml");
    assert_eq!(
        plans[0].url,
        "https://assets.example/networks/testnet/client.toml"
    );
    assert_eq!(plans[0].dest_path, "/data/networks/testnet/client.toml");
    assert_eq!(plans[0].post, PostStep::NoAdjustment);

    assert_eq!(plans[1].name, "services.json");
    assert_eq!(
        plans[1].url,
        "https://assets.example/networks/testnet/services.json"
    );
    assert_eq!(plans[1].dest_path, "/data/networks/testnet/services.json");
    assert_eq!(plans[1].post, PostStep::NoAdjustment);

    assert_eq!(plans[2].name, "walletshield");
    assert_eq!(
        plans[2].url,
        "https://assets.example/networks/testnet/walletshield-linux-x64"
    );
    assert_eq!(plans[2].dest_path, "/data/networks/testnet/walletshield");
    match plans[2].post {
        PostStep::SetMode(mode) => {
            assert_eq!(mode, 0o755);
            assert_eq!(mode & 0o111, 0o111);
            assert_eq!(mode & 0o444, 0o444);
        }
        _ => panic!("executable asset must get its permission bits set"),
    }
}

#[test]
fn traversal_identifier_rejected_before_any_plan_exists() {
    assert!(plan_network_fetch("https://a", "/d", "../evil", "linux-x64").is_err());
    assert!(plan_network_fetch("https://a", "/d", "..", "linux-x64").is_err());
}

#[test]
fn executable_adjustment_per_platform() {
    assert_eq!(post_step("linux-x64"), PostStep::SetMode(EXECUTABLE_MODE));
    assert_eq!(post_step("macos"), PostStep::SetMode(EXECUTABLE_MODE));
    assert_eq!(post_step("windows-x64"), PostStep::RenameWithExeExtension);
    assert_eq!(post_step("plan9-mips"), PostStep::NoAdjustment);
}
