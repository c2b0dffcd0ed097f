use patrol_time::channels::is_monitored;
use patrol_time::config::{get_parent_folder, PatrolTime};
use std::collections::HashSet;

fn unit_test_settings() -> PatrolTime {
    PatrolTime {
        monitored_categories: HashSet::from([599764719212953610]),
        monitored_channels: HashSet::from([566802620799516672]),
        ignored_channels: HashSet::new(),
        bad_main_channel_starts: vec![],
    }
}

#[test]
fn test_get_parent_folder() {
    assert_eq!(get_parent_folder("settings.toml"), "".to_owned());
    assert_eq!(get_parent_folder("/settings.toml"), "/".to_owned());
    assert_eq!(get_parent_folder("settings/main.toml"), "settings/".to_owned());
    assert_eq!(get_parent_folder("/settings/main.toml"), "/settings/".to_owned());
}

#[test]
fn test_is_monitored_channel() {
    let pt = unit_test_settings();
    let monitored_channel = 566802620799516672;
    let random_channel = 345763573642542534;
    assert_eq!(is_monitored(&pt, monitored_channel, None), true);
    assert_eq!(is_monitored(&pt, random_channel, None), false);
}

#[test]
fn test_is_monitored_category() {
    let pt = unit_test_settings();
    let monitored_category = 599764719212953610;
    let random_category = 346423532524764426;
    let random_channel = 345763573642542534;
    assert_eq!(is_monitored(&pt, random_channel, Some(monitored_category)), true);
    assert_eq!(is_monitored(&pt, random_channel, Some(random_category)), false);
}

#[test]
fn ignored_channel_overrides_monitoring() {
    let mut pt = unit_test_settings();
    pt.ignored_channels.insert(566802620799516672);
    pt.ignored_channels.insert(345763573642542534);
    assert!(!is_monitored(&pt, 566802620799516672, None));
    assert!(!is_monitored(&pt, 345763573642542534, Some(599764719212953610)));
}

#[test]
fn parent_folder_of_nested_path_keeps_last_slash() {
    assert_eq!(get_parent_folder("a/b/c.toml"), "a/b/".to_owned());
    assert_eq!(get_parent_folder(""), "".to_owned());
}
