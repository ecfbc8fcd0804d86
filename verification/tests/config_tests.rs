use std::path::Path;

use ctf_man::config::{
    config_path_in, data_dir_in, expand_tilde, expand_tilde_with_home, get_config_path,
    get_database_path, Config, SyncConfig,
};
use ctf_man::models::{ctf_dir_name, Ctf};

#[test]
fn defaults() {
    let c = Config::default();
    assert!(c.default_ctf_directory.is_none());
    assert!(c.active_ctf_id.is_none());
    assert!(c.active_ctf_path.is_none());
    assert!(c.sync.auto_sync_on_startup);
    assert!(c.sync.confirm_before_sync_delete);
    assert_eq!(c.ui.tick_rate_ms, 250);
    let s = SyncConfig::default();
    assert!(s.auto_sync_on_startup && s.confirm_before_sync_delete);
}

#[test]
fn active_ctf() {
    let mut c = Config::default();
    assert_eq!(
        c.get_active_ctf_path(),
        Err("No active CTF selected. Run 'ctf' to select one.".to_string())
    );
    c.set_active_ctf(7, "/ctf/x".to_string());
    assert_eq!(c.active_ctf_id, Some(7));
    assert_eq!(c.get_active_ctf_path(), Ok("/ctf/x".to_string()));
}

#[test]
fn tilde_expansion() {
    let home = Some("/home/u".to_string());
    assert_eq!(
        Path::new(&expand_tilde_with_home("~/ctf", home.clone()).unwrap()),
        Path::new("/home/u/ctf")
    );
    assert_eq!(expand_tilde_with_home("~", home.clone()).unwrap(), "/home/u");
    assert_eq!(expand_tilde_with_home("/abs", None).unwrap(), "/abs");
    assert_eq!(expand_tilde_with_home("~user", None).unwrap(), "~user");
    assert_eq!(
        expand_tilde_with_home("~/x", None),
        Err("Failed to determine home directory".to_string())
    );
    assert_eq!(expand_tilde("rel/path").unwrap(), "rel/path");
    if let Some(h) = dirs::home_dir() {
        assert_eq!(Path::new(&expand_tilde("~/a").unwrap()), h.join("a"));
    }
}

#[test]
fn config_and_data_paths() {
    assert_eq!(
        Path::new(&config_path_in(Some("/c".to_string())).unwrap()),
        Path::new("/c/ctf-man/config.toml")
    );
    assert_eq!(config_path_in(None), Err("Failed to determine config directory".to_string()));
    assert_eq!(Path::new(&data_dir_in(Some("/d".to_string())).unwrap()), Path::new("/d/ctf-man"));
    assert_eq!(data_dir_in(None), Err("Failed to determine data directory".to_string()));
    assert_eq!(Path::new(&get_database_path("/d/ctf-man")), Path::new("/d/ctf-man/ctf.db"));
    if let Ok(p) = get_config_path() {
        assert!(p.ends_with("config.toml"));
    }
}

#[test]
fn ctf_directory_names() {
    assert_eq!(ctf_dir_name("My CTF"), "my_ctf");
    assert_eq!(ctf_dir_name("A/B\\C"), "a-b-c");
    assert_eq!(ctf_dir_name("ÄÖ Ü"), "äö_ü");
    let ctf = Ctf {
        id: Some(1),
        name: "Hack The Box".to_string(),
        url: None,
        start_date: None,
        end_date: None,
        team_name: None,
        notes: None,
        created_at: String::new(),
    };
    let mut config = Config::default();
    assert_eq!(Path::new(&ctf.get_directory(&config)), Path::new("./hack_the_box"));
    config.default_ctf_directory = Some("/ctf".to_string());
    assert_eq!(Path::new(&ctf.get_directory(&config)), Path::new("/ctf/hack_the_box"));
}
