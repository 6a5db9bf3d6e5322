use std::path::PathBuf;

use shotlite::paths::{config_file, config_file_in, default_output_dir_from, default_output_path, sibling_path_in};

fn text(path: PathBuf) -> String {
    path.to_string_lossy().into_owned()
}

#[test]
fn config_file_uses_shotlite_config_toml() {
    assert_eq!(config_file_in("config"), text(PathBuf::from("config").join("shotlite").join("config.toml")));
}

#[test]
fn default_output_prefers_picture_dir() {
    assert_eq!(
        default_output_dir_from(Some("Pictures"), Some("Home")),
        Some(text(PathBuf::from("Pictures").join("Screenshots")))
    );
}

#[test]
fn default_output_falls_back_to_home_pictures() {
    assert_eq!(
        default_output_dir_from(None, Some("Home")),
        Some(text(PathBuf::from("Home").join("Pictures").join("Screenshots")))
    );
}

#[test]
fn default_output_path_is_predictable() {
    assert_eq!(default_output_path("input.png"), "input-redacted.png");
    assert_eq!(default_output_path("nested/input.png"), text(PathBuf::from("nested").join("input-redacted.png")));
}

#[test]
fn no_known_directory_gives_no_default_output() {
    assert_eq!(default_output_dir_from(None, None), None);
}

#[test]
fn config_dir_override_is_used() {
    let path = config_file(Some("custom")).unwrap();

    assert_eq!(path, text(PathBuf::from("custom").join("shotlite").join("config.toml")));
}

#[test]
fn sibling_paths_fall_back_to_the_suffix() {
    assert_eq!(sibling_path_in(None, None, "cropped"), "cropped-cropped.png");
    assert_eq!(sibling_path_in(Some(""), Some("shot"), "highlighted"), "shot-highlighted.png");
    assert_eq!(sibling_path_in(Some("dir"), Some("shot"), "x"), text(PathBuf::from("dir").join("shot-x.png")));
}

#[test]
fn default_output_goes_next_to_an_absolute_input() {
    assert_eq!(default_output_path("/tmp/shots/input.png"), text(PathBuf::from("/tmp/shots").join("input-redacted.png")));
    assert_eq!(default_output_path("/input.png"), text(PathBuf::from("/").join("input-redacted.png")));
}

#[test]
fn default_output_keeps_the_suffix_for_backslash_inputs() {
    assert!(default_output_path(r"\\server\share\shot.png").ends_with("-redacted.png"));
    assert_ne!(default_output_path(r"\\server\share\shot.png"), r"\\server\share\shot.png");
}
