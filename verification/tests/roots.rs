use colorlaunch::roots::{entry_id, search_dirs};

#[test]
fn default_roots_are_the_two_system_paths() {
    assert_eq!(
        search_dirs(None),
        vec!["/usr/local/share/applications".to_string(), "/usr/share/applications".to_string()]
    );
}

#[test]
fn given_list_is_split_at_colons() {
    assert_eq!(
        search_dirs(Some("/a:/b/c")),
        vec!["/a/applications".to_string(), "/b/c/applications".to_string()]
    );
}

#[test]
fn trailing_separator_is_not_doubled() {
    assert_eq!(search_dirs(Some("/opt/share/")), vec!["/opt/share/applications".to_string()]);
}

#[test]
fn empty_roots_are_kept_as_relative_directories() {
    assert_eq!(search_dirs(Some("")), vec!["applications".to_string()]);
    assert_eq!(
        search_dirs(Some("/a::/b:")),
        vec![
            "/a/applications".to_string(),
            "applications".to_string(),
            "/b/applications".to_string(),
            "applications".to_string()
        ]
    );
}

#[test]
fn id_of_top_level_descriptor_is_its_name() {
    assert_eq!(entry_id("firefox.desktop"), "firefox.desktop");
}

#[test]
fn id_flattens_path_separators() {
    assert_eq!(entry_id("kde/org/konsole.desktop"), "kde-org-konsole.desktop");
}

#[test]
fn different_paths_can_share_an_id() {
    assert_eq!(entry_id("a/b.desktop"), entry_id("a-b.desktop"));
}

#[test]
fn id_of_empty_path_is_empty() {
    assert_eq!(entry_id(""), "");
}
