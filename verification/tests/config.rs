use nub::config::discover::{auto_paths, locate_path};
use nub::config::paths::{
    default_admin_jwt, default_dockerfiles_dir, default_issuer_key, default_secrets_dir, default_stacks_dir,
    xdg_config_home, xdg_data_home,
};

#[test]
fn xdg_homes() {
    assert_eq!(xdg_config_home(Some("/x"), Some("/h")), "/x");
    assert_eq!(xdg_config_home(None, Some("/h")), "/h/.config");
    assert_eq!(xdg_config_home(None, Some("/h/")), "/h/.config");
    assert_eq!(xdg_config_home(None, None), ".config");
    assert_eq!(xdg_data_home(None, Some("/h")), "/h/.local/share");
    assert_eq!(xdg_data_home(None, None), ".local/share");
}

#[test]
fn default_locations() {
    let d = "/h/.local/share";
    assert_eq!(default_dockerfiles_dir(d), "/h/.local/share/nub/dockerfiles");
    assert_eq!(default_stacks_dir(d), "/h/.local/share/nub/stacks");
    assert_eq!(default_secrets_dir(d), "/h/.local/share/nub/secrets");
    assert_eq!(default_issuer_key(d), "/h/.local/share/nub/issuer.key");
    assert_eq!(default_admin_jwt(d), "/h/.local/share/nub/admin.jwt");
}

#[test]
fn config_discovery_order() {
    let paths = auto_paths("/h/.config");
    assert_eq!(paths, vec!["/h/.config/nub/nub.toml", "./nub.toml", "/etc/nub/config.toml"]);
    assert_eq!(locate_path(&paths, &vec![false, true, true]).unwrap(), "./nub.toml");
    assert!(locate_path(&paths, &vec![false, false, false]).is_none());
}
