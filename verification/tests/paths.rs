use fs_pro::ErrorKind;
use fs_pro::error::Error;
use fs_pro::error::result_from_option;
use fs_pro::error::result_from_option2;
use fs_pro::path_stuff;

#[test]
fn join_parts() {
    let parts = vec!["/etc".to_string(), "hello".to_string(), "world".to_string()];
    assert_eq!(path_stuff::join(&parts), "/etc/hello/world");
    let relative = vec!["a".to_string(), "b".to_string()];
    assert_eq!(path_stuff::join(&relative), "a/b");
    let empty: Vec<String> = vec![];
    assert_eq!(path_stuff::join(&empty), "");
    // an absolute part replaces everything joined so far
    let replaced = vec!["a".to_string(), "/etc".to_string(), "b".to_string()];
    assert_eq!(path_stuff::join(&replaced), "/etc/b");
}

#[test]
fn join_keeps_existing_separator() {
    assert_eq!(path_stuff::join_entry("/tmp/", "x"), "/tmp/x");
    assert_eq!(path_stuff::join_entry("/tmp", "x"), "/tmp/x");
    assert_eq!(path_stuff::join_entry("", "x"), "x");
    // an absolute entry replaces the base
    assert_eq!(path_stuff::join_entry("a", "/abs"), "/abs");
}

#[test]
fn parent_values() {
    assert_eq!(path_stuff::parent("/tmp/hello_world.txt").unwrap(), "/tmp");
    assert_eq!(path_stuff::parent("/a").unwrap(), "/");
    assert_eq!(path_stuff::parent("bare").unwrap(), "");
    // trailing separators are ignored
    assert_eq!(path_stuff::parent("/tmp/x/").unwrap(), "/tmp");
    assert_eq!(path_stuff::parent("/tmp//x").unwrap(), "/tmp");
    let err = path_stuff::parent("/").unwrap_err();
    assert!(matches!(err.kind, ErrorKind::PathNoParentFound));
    let err2 = path_stuff::parent("").unwrap_err();
    assert!(matches!(err2.kind, ErrorKind::PathNoParentFound));
}

#[test]
fn name_values() {
    assert_eq!(path_stuff::name("/tmp/hello_world.txt").unwrap(), "hello_world.txt");
    assert_eq!(path_stuff::name("bare").unwrap(), "bare");
    // trailing separators and trailing `.` components are ignored
    assert_eq!(path_stuff::name("/tmp/x/").unwrap(), "x");
    assert_eq!(path_stuff::name("/tmp/x/.").unwrap(), "x");
    let err = path_stuff::name("/").unwrap_err();
    assert!(matches!(err.kind, ErrorKind::PathNoFilenameFound));
    // a final `..` component names no file
    let err2 = path_stuff::name("/tmp/..").unwrap_err();
    assert!(matches!(err2.kind, ErrorKind::PathNoFilenameFound));
}

#[test]
fn extension_values() {
    assert_eq!(path_stuff::extension("/tmp/hello_world.txt").unwrap(), "txt");
    assert_eq!(path_stuff::extension("/tmp/archive.tar.gz").unwrap(), "gz");
    // trailing separators are ignored
    assert_eq!(path_stuff::extension("/tmp/x.txt/").unwrap(), "txt");
    let err = path_stuff::extension("/tmp/noext").unwrap_err();
    assert!(matches!(err.kind, ErrorKind::PathNoExtensionFound));
    // a leading dot alone is not an extension marker
    let err2 = path_stuff::extension("/tmp/.gitignore").unwrap_err();
    assert!(matches!(err2.kind, ErrorKind::PathNoExtensionFound));
}

#[test]
fn name_without_extension_values() {
    assert_eq!(path_stuff::name_without_extension("/tmp/hello_world.txt").unwrap(), "hello_world");
    assert_eq!(path_stuff::name_without_extension("/tmp/noext").unwrap(), "noext");
    // the name is cut at its last dot, even a leading one
    assert_eq!(path_stuff::name_without_extension("/tmp/.gitignore").unwrap(), "");
}

#[test]
fn path_to_str_is_identity() {
    assert_eq!(path_stuff::path_to_str("/tmp/x").unwrap(), "/tmp/x");
}

#[test]
fn parse_path_file_pieces() {
    let parsed = path_stuff::parse_path_file("/tmp/hello_world.txt").unwrap();
    assert_eq!(parsed.path, "/tmp/hello_world.txt");
    assert_eq!(parsed.parent, "/tmp");
    assert_eq!(parsed.name, "hello_world.txt");
    assert_eq!(parsed.name_without_extension, "hello_world");
    assert_eq!(parsed.extension, "txt");
    // a file without an extension parses with an empty one
    let plain = path_stuff::parse_path_file("/tmp/noext").unwrap();
    assert_eq!(plain.extension, "");
}

#[test]
fn parse_path_dir_pieces() {
    let parsed = path_stuff::parse_path_dir("/tmp/some_dir").unwrap();
    assert_eq!(parsed.path, "/tmp/some_dir");
    assert_eq!(parsed.parent, "/tmp");
    assert_eq!(parsed.name, "some_dir");
}

#[test]
fn error_default_messages() {
    let e = Error::new_from_kind(ErrorKind::NotFound);
    assert_eq!(e.message, "entity not found".to_string());
    assert!(e.path.is_none());
    let e2 = Error::new_from_kind(ErrorKind::PermissionDenied);
    assert_eq!(e2.message, "permission denied".to_string());
    let e3 = Error::new(ErrorKind::Other, "custom words");
    assert_eq!(e3.message, "custom words".to_string());
}

#[test]
fn error_set_path_attaches_path() {
    let e = Error::new_from_kind(ErrorKind::NotFound).set_path("/tmp/somewhere".to_string());
    assert_eq!(e.path.as_deref(), Some("/tmp/somewhere"));
    assert!(matches!(e.kind, ErrorKind::NotFound));
}

#[test]
fn option_conversions() {
    assert_eq!(result_from_option(Some(7u8), Error::new_from_kind(ErrorKind::Other)).unwrap(), 7);
    let err = result_from_option(None::<u8>, Error::new(ErrorKind::Other, "absent")).unwrap_err();
    assert_eq!(err.message, "absent".to_string());
    assert_eq!(result_from_option2(Some(9u8), ErrorKind::Other).unwrap(), 9);
    let err2 = result_from_option2(None::<u8>, ErrorKind::PathNoParentFound).unwrap_err();
    assert!(matches!(err2.kind, ErrorKind::PathNoParentFound));
    assert_eq!(err2.message, "cannot find any parent directory".to_string());
}
