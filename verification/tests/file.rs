use fs_pro::File;

fn setup(name: &str) -> String {
    let dir = format!("/tmp/fs_pro_checks/{}", name);
    let _ = fs_extra::dir::remove(&dir);
    fs_extra::dir::create_all(&dir, false).unwrap();
    dir
}

fn cleanup(dir: &str) {
    let _ = fs_extra::dir::remove(dir);
}

#[test]
fn file_new() {
    let base = setup("file_new");
    // works with plain paths
    File::new("/tmp/path/type").unwrap();
    // errors if path is not a file
    let dir_path = format!("{}/a_dir", base);
    fs_extra::dir::create_all(&dir_path, false).unwrap();
    match File::new(&dir_path) {
        Ok(_) => {
            panic!("should pass");
        }
        Err(e) => match e.kind {
            fs_pro::ErrorKind::InvalidFile => {}
            _ => {
                panic!("invalid error \"{}\"", e.message);
            }
        },
    }
    cleanup(&base);
}

#[test]
fn file_create() {
    let base = setup("file_create");
    let file = File::new(&format!("{}/made", base)).unwrap();
    file.create().unwrap();
    assert_eq!(file.exists_on_disk(), true);
    cleanup(&base);
}

#[test]
fn file_create_all() {
    let base = setup("file_create_all");
    let file = File::new(&format!("{}/foo/bar.txt", base)).unwrap();
    file.create_all().unwrap();
    assert_eq!(file.exists_on_disk(), true);
    cleanup(&base);
}

#[test]
fn file_name() {
    // without extension
    let file = File::new("/tmp/fs_pro_checks/hello_world").unwrap();
    assert_eq!(file.name().unwrap(), "hello_world");
    // with ext
    let file2 = File::new("/tmp/fs_pro_checks/hello_world.txt").unwrap();
    assert_eq!(file2.name().unwrap(), "hello_world.txt");
}

#[test]
fn name_without_extension() {
    let file = File::new("/tmp/fs_pro_checks/hello_world.txt").unwrap();
    assert_eq!(file.name_without_extension().unwrap(), "hello_world");
}

#[test]
fn extension() {
    let file = File::new("/tmp/fs_pro_checks/hello_world.txt").unwrap();
    assert_eq!(file.extension().unwrap(), "txt");
}

#[test]
fn directory() {
    let file = File::new("/tmp/fs_pro_checks/in_parent").unwrap();
    assert_eq!(file.parent().unwrap(), "/tmp/fs_pro_checks");
}

#[test]
fn file_parse_path() {
    let file = File::new("/tmp/fs_pro_checks/hello_world.txt").unwrap();
    let parsed = file.parse_path().unwrap();
    assert_eq!(parsed.parent, "/tmp/fs_pro_checks");
    assert_eq!(parsed.name, "hello_world.txt");
    assert_eq!(parsed.name_without_extension, "hello_world");
    assert_eq!(parsed.extension, "txt");
    assert_eq!(parsed.path, "/tmp/fs_pro_checks/hello_world.txt");
}

#[test]
fn file_exists() {
    let base = setup("file_exists");
    // when true
    let file = File::new(&format!("{}/here", base)).unwrap();
    file.create().unwrap();
    assert_eq!(file.exists_on_disk(), true);
    // when false
    let missing = File::new(&format!("{}/not_here", base)).unwrap();
    assert_eq!(missing.exists_on_disk(), false);
    cleanup(&base);
}

#[test]
fn write() {
    let base = setup("file_write");
    let file = File::new(&format!("{}/w", base)).unwrap();
    file.write("hello world").unwrap();
    let actual = file.read_to_string().unwrap();
    assert_eq!(actual, "hello world");
    cleanup(&base);
}

#[test]
fn read_to_string() {
    let base = setup("file_read_to_string");
    let file = File::new(&format!("{}/r", base)).unwrap();
    file.write("hello world").unwrap();
    let actual = file.read_to_string().unwrap();
    assert_eq!(actual, "hello world".to_string());
    cleanup(&base);
}

#[test]
fn delete() {
    let base = setup("file_delete");
    let file = File::new(&format!("{}/d", base)).unwrap();
    file.create().unwrap();
    file.delete().unwrap();
    assert_eq!(file.exists_on_disk(), false);
    cleanup(&base);
}

#[test]
fn delete_missing_is_not_found() {
    let base = setup("file_delete_missing");
    let file = File::new(&format!("{}/never", base)).unwrap();
    let err = file.delete().unwrap_err();
    assert!(matches!(err.kind, fs_pro::ErrorKind::NotFound));
    cleanup(&base);
}

#[test]
fn file_move_to() {
    let base = setup("file_move_to");
    let file = File::new(&format!("{}/src_file", base)).unwrap();
    file.write("hello world").unwrap();
    let dest = format!("{}/hello_there_2", base);
    let file_moved = file.move_to(&dest).unwrap();
    assert_eq!(file_moved.exists_on_disk(), true);
    assert_eq!(file_moved.read_to_string().unwrap(), "hello world".to_string());
    assert_eq!(file.exists_on_disk(), false);
    cleanup(&base);
}

#[test]
fn rename() {
    let base = setup("file_rename");
    let file = File::new(&format!("{}/old_name", base)).unwrap();
    file.create().unwrap();
    let file_renamed = file.rename("new_name").unwrap();
    assert_eq!(file.exists_on_disk(), false);
    assert_eq!(file_renamed.exists_on_disk(), true);
    assert_eq!(file_renamed.path, format!("{}/new_name", base));
    cleanup(&base);
}

#[test]
fn file_size() {
    let base = setup("file_size");
    let file = File::new(&format!("{}/sized", base)).unwrap();
    file.write("hello").unwrap();
    assert_eq!(file.size().unwrap(), 5);
    cleanup(&base);
}

#[test]
fn file_copy() {
    let base = setup("file_copy");
    let file = File::new(&format!("{}/orig", base)).unwrap();
    file.write("hello world").unwrap();
    let dest = format!("{}/hello_there", base);
    let file_copy = file.copy(&dest).unwrap();
    assert_eq!(file_copy.exists_on_disk(), true);
    assert_eq!(file_copy.read_to_string().unwrap(), "hello world".to_string());
    assert_eq!(file.exists_on_disk(), true);
    cleanup(&base);
}
