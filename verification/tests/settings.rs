//! The limits and the slot that holds them.

use softpath::config::{get_config, set_config, Config, ConfigSlot};

#[test]
fn defaults_are_256_and_40() {
    let config = Config::new();
    assert_eq!(config.max_path_depth, 256);
    assert_eq!(config.max_symlink_depth, 40);
    assert_eq!(Config::default(), config);
}

#[test]
fn builders_change_one_limit_each() {
    let config = Config::new().with_max_path_depth(100).with_max_symlink_depth(10);
    assert_eq!(config, Config { max_path_depth: 100, max_symlink_depth: 10 });
    assert_eq!(Config::new().with_max_path_depth(7).max_symlink_depth, 40);
    assert_eq!(Config::new().with_max_symlink_depth(7).max_path_depth, 256);
}

#[test]
fn first_write_wins() {
    let mut slot = ConfigSlot::new();
    set_config(&mut slot, Config::new().with_max_path_depth(128));
    set_config(&mut slot, Config::new().with_max_path_depth(5));
    assert_eq!(get_config(&mut slot).max_path_depth, 128);
}

#[test]
fn a_read_settles_the_defaults() {
    let mut slot = ConfigSlot::new();
    assert_eq!(get_config(&mut slot), Config::new());
    set_config(&mut slot, Config::new().with_max_symlink_depth(1));
    assert_eq!(get_config(&mut slot), Config::new());
    assert_eq!(slot.value, Some(Config::new()));
}
