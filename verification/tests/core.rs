use zknet_core::paths::AppPaths;

#[test]
fn it_works() {
    let result = 2 + 2;
    assert_eq!(result, 4);
}

#[test]
fn paths_layout() {
    let p = AppPaths::from_data_dir("/data/zknet".into());
    assert_eq!(p.dir_data(), "/data/zknet");
    assert_eq!(p.dir_logs(), "/data/zknet/logs");
    assert_eq!(p.path_settings(), "/data/zknet/settings.json");
}
