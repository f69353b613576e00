use freo::config::AppConfig;

#[test]
fn keyword_defaults_to_freo() {
    let config = AppConfig::new(None, None);
    assert_eq!(config.keyword(), "FREO");
    assert!(config.comment_map().is_none());
}

#[test]
fn configured_keyword_and_map_are_kept() {
    let map = vec![("cust".to_string(), ";;".to_string())];
    let config = AppConfig::new(Some("ticket-123".to_string()), Some(map.clone()));
    assert_eq!(config.keyword(), "ticket-123");
    assert_eq!(config.comment_map(), Some(&map));
}

use freo::config::{config_location, ConfigLocation};

#[test]
fn the_workspace_wins_when_it_is_set() {
    assert_eq!(config_location(true, Some(&vec![false, true])), ConfigLocation::Workspace);
    assert_eq!(config_location(true, None), ConfigLocation::Workspace);
}

#[test]
fn the_nearest_ancestor_with_git_is_chosen() {
    assert_eq!(config_location(false, Some(&vec![false, true, true])), ConfigLocation::Ancestor(1));
    assert_eq!(config_location(false, Some(&vec![true, false])), ConfigLocation::Ancestor(0));
}

#[test]
fn without_git_the_current_directory_is_used() {
    assert_eq!(config_location(false, Some(&vec![false, false])), ConfigLocation::CurrentDir);
    assert_eq!(config_location(false, Some(&vec![])), ConfigLocation::CurrentDir);
}

#[test]
fn without_a_current_directory_the_bare_name_is_used() {
    assert_eq!(config_location(false, None), ConfigLocation::Bare);
}
