use continu::config::{
    check_os_action, filter_excluded, get_config_files, get_os_details, get_ubuntu_config_files,
    is_ubuntu, ConfigError, OsCheckAction,
};

#[test]
fn candidate_list_is_fixed() {
    let files = get_ubuntu_config_files();
    assert_eq!(
        files,
        vec![
            "/home/user/.bashrc".to_string(),
            "/home/user/.vimrc".to_string(),
            "/home/user/.gitconfig".to_string(),
            "/etc/apt/sources.list".to_string(),
            "/etc/environment".to_string(),
        ]
    );
}

#[test]
fn exclusion_preserves_order() {
    let candidates = vec!["/a".to_string(), "/b".to_string(), "/c".to_string()];
    let excluded = vec!["/b".to_string()];
    let r = filter_excluded(&candidates, &excluded);
    assert_eq!(r, vec!["/a".to_string(), "/c".to_string()]);
}

#[test]
fn exclusion_of_nothing_keeps_all() {
    let candidates = vec!["/a".to_string(), "/b".to_string()];
    let r = filter_excluded(&candidates, &Vec::new());
    assert_eq!(r, candidates);
}

#[test]
fn exclusion_of_everything_keeps_none() {
    let candidates = vec!["/a".to_string(), "/b".to_string()];
    let r = filter_excluded(&candidates, &candidates.clone());
    assert_eq!(r, Vec::<String>::new());
}

#[test]
fn ubuntu_detection() {
    assert!(is_ubuntu("NAME=\"Ubuntu\"\nVERSION_ID=\"20.04\"\n"));
    assert!(!is_ubuntu("NAME=\"Debian GNU/Linux\"\n"));
    assert!(!is_ubuntu(""));
}

#[test]
fn resolve_files_filters_exclusions() {
    let os_release = "NAME=\"Ubuntu\"\n";
    let settings = "exclude:/home/user/.vimrc\nexclude:/etc/environment\n";
    let files = get_config_files(os_release, settings).unwrap();
    assert_eq!(
        files,
        vec![
            "/home/user/.bashrc".to_string(),
            "/home/user/.gitconfig".to_string(),
            "/etc/apt/sources.list".to_string(),
        ]
    );
}

#[test]
fn resolve_files_rejects_other_platforms() {
    let r = get_config_files("NAME=\"Fedora\"\n", "");
    assert_eq!(r, Err(ConfigError::UnsupportedPlatform));
}

#[test]
fn os_details_parsed_with_quotes_stripped() {
    let content = "PRETTY_NAME=\"Ubuntu 20.04\"\nNAME=\"Ubuntu\"\nVERSION_ID=\"20.04\"\n";
    let (name, version) = get_os_details(content).unwrap();
    assert_eq!(name, "Ubuntu");
    assert_eq!(version, "20.04");
}

#[test]
fn os_details_missing_version_is_an_error() {
    let r = get_os_details("NAME=\"Ubuntu\"\n");
    assert_eq!(r, Err(ConfigError::OsDetailsMissing));
}

#[test]
fn os_details_empty_text_is_an_error() {
    assert_eq!(get_os_details(""), Err(ConfigError::OsDetailsMissing));
}

#[test]
fn os_check_matches_and_mismatches() {
    let stored = Some(("Ubuntu".to_string(), "20.04".to_string()));
    assert_eq!(check_os_action(&stored, "Ubuntu", "20.04"), OsCheckAction::Accept);
    assert_eq!(check_os_action(&stored, "Ubuntu", "22.04"), OsCheckAction::Reject);
    assert_eq!(check_os_action(&None, "Ubuntu", "20.04"), OsCheckAction::Register);
}
