use termdash::paths::GamePaths;

#[test]
fn development_paths() {
    let paths = GamePaths::from_assets_dir("/game/assets");
    assert_eq!(paths.data_dir, "/game/assets");
    assert_eq!(paths.config_dir, "/game/assets/config");
    assert_eq!(paths.config("config.toml"), "/game/assets/config/config.toml");
}

#[test]
fn assets_and_data_files() {
    let paths = GamePaths { data_dir: "/data".to_string(), config_dir: "/conf".to_string() };
    assert_eq!(paths.asset("worlds"), "/data/worlds");
    assert_eq!(paths.data_file("game.log"), "/data/game.log");
    assert_eq!(paths.data_file("/tmp/game.log"), "/tmp/game.log");
    assert_eq!(paths.asset("/tmp/game.log"), "/tmp/game.log");
}

#[test]
fn bundled_assets_install_targets() {
    let paths = GamePaths { data_dir: "/data".to_string(), config_dir: "/conf".to_string() };
    assert_eq!(paths.install_target("config/config.toml"), "/conf/config.toml");
    assert_eq!(paths.install_target("worlds/one.json"), "/data/worlds/one.json");
    assert_eq!(paths.install_target("configs/x.toml"), "/data/configs/x.toml");
}
