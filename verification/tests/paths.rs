use pydist::bootstrap::bootstrap_script_path;
use pydist::locate::libs_candidate;
use pydist::paths::{dist_env_path, marker_path, PathStyle};

#[test]
fn name_is_joined_with_one_separator() {
    assert_eq!(libs_candidate("pydist", PathStyle::Unix), "pydist/libs");
    assert_eq!(libs_candidate("pydist", PathStyle::Windows), "pydist\\libs");
    assert_eq!(bootstrap_script_path("/opt/env", PathStyle::Unix), "/opt/env/get-pip.py");
    assert_eq!(bootstrap_script_path("C:\\env", PathStyle::Windows), "C:\\env\\get-pip.py");
}

#[test]
fn no_separator_is_added_after_one() {
    assert_eq!(libs_candidate("pydist/", PathStyle::Unix), "pydist/libs");
    assert_eq!(libs_candidate("/", PathStyle::Unix), "/libs");
    assert_eq!(libs_candidate("C:\\", PathStyle::Windows), "C:\\libs");
    assert_eq!(libs_candidate("C:/env/", PathStyle::Windows), "C:/env/libs");
    assert_eq!(libs_candidate("env\\", PathStyle::Unix), "env\\/libs");
}

#[test]
fn name_joined_to_empty_directory_is_the_name() {
    assert_eq!(libs_candidate("", PathStyle::Unix), "libs");
    assert_eq!(libs_candidate("", PathStyle::Windows), "libs");
    assert_eq!(marker_path("", PathStyle::Unix), "Scripts/pip.exe");
}

#[test]
fn joining_agrees_with_std_on_this_platform() {
    let style = if std::path::MAIN_SEPARATOR == '\\' { PathStyle::Windows } else { PathStyle::Unix };
    let dirs = ["pydist", "pydist/", "/", "", "a/b", "./out", "päth/with ünicode", "a/.", "a/..", ".", "a//"];
    for dir in dirs.iter() {
        let expected = std::path::Path::new(dir).join("libs");
        assert_eq!(libs_candidate(dir, style), expected.to_string_lossy());
        let marker = std::path::Path::new(dir).join("Scripts").join("pip.exe");
        assert_eq!(marker_path(dir, style), marker.to_string_lossy());
    }
}

#[test]
fn no_separator_is_added_after_a_bare_drive() {
    assert_eq!(libs_candidate("C:", PathStyle::Windows), "C:libs");
    assert_eq!(libs_candidate("z:", PathStyle::Windows), "z:libs");
    assert_eq!(libs_candidate("C:", PathStyle::Unix), "C:/libs");
    assert_eq!(libs_candidate("C:a", PathStyle::Windows), "C:a\\libs");
    assert_eq!(libs_candidate("1:", PathStyle::Windows), "1:\\libs");
    assert_eq!(libs_candidate("\u{e9}:", PathStyle::Windows), "\u{e9}:\\libs");
    assert_eq!(libs_candidate("CC", PathStyle::Windows), "CC\\libs");
    assert_eq!(dist_env_path("C:", PathStyle::Windows), "C:;C:Scripts");
    assert_eq!(marker_path("C:", PathStyle::Windows), "C:Scripts\\pip.exe");
}

#[test]
fn env_path_is_directory_then_scripts() {
    assert_eq!(dist_env_path("pydist", PathStyle::Unix), "pydist:pydist/Scripts");
    assert_eq!(dist_env_path("pydist", PathStyle::Windows), "pydist;pydist\\Scripts");
    assert_eq!(dist_env_path("/opt/env/", PathStyle::Unix), "/opt/env/:/opt/env/Scripts");
    assert_eq!(dist_env_path("C:\\env", PathStyle::Windows), "C:\\env;C:\\env\\Scripts");
    assert_eq!(dist_env_path("", PathStyle::Unix), ":Scripts");
}

#[test]
fn marker_is_the_package_manager_under_scripts() {
    assert_eq!(marker_path("pydist", PathStyle::Unix), "pydist/Scripts/pip.exe");
    assert_eq!(marker_path("pydist", PathStyle::Windows), "pydist\\Scripts\\pip.exe");
    assert_eq!(marker_path("C:\\env\\", PathStyle::Windows), "C:\\env\\Scripts\\pip.exe");
}

#[test]
fn styles_differ_in_their_separators() {
    assert!(PathStyle::Unix.separates('/'));
    assert!(!PathStyle::Unix.separates('\\'));
    assert!(PathStyle::Windows.separates('/'));
    assert!(PathStyle::Windows.separates('\\'));
    assert_eq!(PathStyle::Unix.main_separator_str(), "/");
    assert_eq!(PathStyle::Windows.main_separator_str(), "\\");
    assert_eq!(PathStyle::Unix.list_separator_str(), ":");
    assert_eq!(PathStyle::Windows.list_separator_str(), ";");
}
