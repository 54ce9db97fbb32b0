use retrvid::failure::Failure;
use retrvid::path::{creation_dir, data_path, resolve_path, DATA_FILE};
use std::path::Path;

#[test]
fn the_override_is_taken_verbatim() {
    let given = Some("/tmp/my ids.toml".to_string());
    assert_eq!(resolve_path(given.clone(), None), Ok("/tmp/my ids.toml".to_string()));
    assert_eq!(
        resolve_path(given, Some("/home/u/.local/share".to_string())),
        Ok("/tmp/my ids.toml".to_string())
    );
    assert_eq!(resolve_path(Some(String::new()), None), Ok(String::new()));
}

#[test]
fn without_an_override_the_file_lies_below_the_data_directory() {
    let dir = "/home/u/.local/share";
    let expected = Path::new(dir).join("retrvid/ids.toml");
    let found = resolve_path(None, Some(dir.to_string())).unwrap();
    assert_eq!(Path::new(&found), expected.as_path());
    assert_ne!(found, dir);
    assert!(found.starts_with(dir));
    assert!(found.ends_with("ids.toml"));
}

#[test]
fn the_data_file_is_fixed() {
    assert_eq!(DATA_FILE, "retrvid/ids.toml");
}

#[test]
fn without_override_and_data_directory_there_is_no_path() {
    let failed = resolve_path(None, None);
    assert_eq!(failed, Err(Failure::NoDataDir));
    assert_eq!(failed.unwrap_err().message(), "unable to retrieve home directory path");
}

#[test]
fn data_path_with_an_override_does_not_ask_the_platform() {
    assert_eq!(data_path(Some("ids.toml".to_string())), Ok("ids.toml".to_string()));
    assert_eq!(data_path(Some("/a/b c/d.toml".to_string())), Ok("/a/b c/d.toml".to_string()));
}

#[test]
fn data_path_without_an_override_goes_by_the_platform() {
    match data_path(None) {
        Ok(path) => {
            assert!(Path::new(&path).ends_with(DATA_FILE));
            assert_ne!(path, DATA_FILE);
        }
        Err(failure) => {
            assert!(failure == Failure::NoDataDir || failure == Failure::DataDirNotText)
        }
    }
}

#[test]
fn the_file_is_created_in_the_directory_above_it() {
    assert_eq!(
        creation_dir("/home/u/.local/share/retrvid/ids.toml"),
        Ok("/home/u/.local/share/retrvid".to_string())
    );
    assert_eq!(creation_dir("data/ids.toml"), Ok("data".to_string()));
    assert_eq!(creation_dir("ids.toml"), Ok(String::new()));
    let path = "/tmp/my ids/store.toml";
    let expected = Path::new(path).parent().unwrap();
    assert_eq!(Path::new(&creation_dir(path).unwrap()), expected);
}

#[test]
fn a_path_with_nothing_above_it_is_no_place_for_the_file() {
    let failed = creation_dir("/");
    assert_eq!(failed, Err(Failure::InvalidDataPath));
    assert_eq!(failed.unwrap_err().message(), "invalid data path");
    assert_eq!(creation_dir(""), Err(Failure::InvalidDataPath));
}
