use fs_pro::Dir;
use fs_pro::File;

fn setup(name: &str) -> String {
    let dir = format!("/tmp/fs_pro_checks/{}", name);
    let _ = fs_extra::dir::remove(&dir);
    fs_extra::dir::create_all(&dir, false).unwrap();
    dir
}

fn cleanup(dir: &str) {
    let _ = fs_extra::dir::remove(dir);
}

#[test]
fn dir_new() {
    let base = setup("dir_new");
    let file = File::new(&format!("{}/a_file", base)).unwrap();
    file.create().unwrap();
    match Dir::new(&file.path) {
        Ok(_) => {
            panic!("should not allow file paths");
        }
        Err(e) => {
            assert!(matches!(e.kind, fs_pro::ErrorKind::InvalidFolder));
        }
    }
    cleanup(&base);
}

#[test]
fn parent() {
    let dir = Dir::new("/tmp/fs_pro_checks/some_dir").unwrap();
    assert_eq!(dir.parent().unwrap(), "/tmp/fs_pro_checks");
}

#[test]
fn dir_name() {
    let dir = Dir::new("/tmp/fs_pro_checks/hello there3").unwrap();
    assert_eq!(dir.name().unwrap(), "hello there3");
}

#[test]
fn dir_parse_path() {
    let dir = Dir::new("/tmp/fs_pro_checks/hello there4").unwrap();
    let parsed = dir.parse_path().unwrap();
    assert_eq!(parsed.parent, "/tmp/fs_pro_checks");
    assert_eq!(parsed.name, "hello there4");
    assert_eq!(parsed.path, "/tmp/fs_pro_checks/hello there4");
}

#[test]
fn dir_create() {
    let base = setup("dir_create");
    let dir = Dir::new(&format!("{}/made", base)).unwrap();
    dir.create().unwrap();
    assert_eq!(dir.exists_on_disk(), true);
    cleanup(&base);
}

#[test]
fn dir_create_all() {
    let base = setup("dir_create_all");
    let dir = Dir::new(&format!("{}/foo/bar", base)).unwrap();
    dir.create_all().unwrap();
    assert_eq!(dir.exists_on_disk(), true);
    cleanup(&base);
}

// tests create_file get_file delete_file
#[test]
fn _file() {
    let base = setup("dir_file_ops");
    let dir = Dir::new(&base).unwrap();
    let file = dir.create_file("some.txt").unwrap();
    let file2 = dir.get_file("some.txt").unwrap();
    assert_eq!(file.exists_on_disk(), true);
    assert_eq!(file2.exists_on_disk(), true);
    dir.delete_file("some.txt").unwrap();
    assert_eq!(file.exists_on_disk(), false);
    cleanup(&base);
}

// tests create_dir get_dir delete_dir
#[test]
fn _dir() {
    let base = setup("dir_dir_ops");
    let dir = Dir::new(&base).unwrap();
    let sub_dir = dir.create_dir("sub_dir").unwrap();
    let sub_dir2 = dir.get_dir("sub_dir").unwrap();
    assert_eq!(sub_dir.exists_on_disk(), true);
    assert_eq!(sub_dir2.exists_on_disk(), true);
    dir.delete_dir("sub_dir").unwrap();
    assert_eq!(sub_dir.exists_on_disk(), false);
    cleanup(&base);
}

#[test]
fn dir_create_dir_all_nested() {
    let base = setup("dir_nested_all");
    let dir = Dir::new(&base).unwrap();
    let nested = dir.create_dir_all("foo/bar/some").unwrap();
    assert_eq!(nested.exists_on_disk(), true);
    assert_eq!(nested.path, format!("{}/foo/bar/some", base));
    let file = dir.create_file_all("foo2/bar2/some.txt").unwrap();
    assert_eq!(file.exists_on_disk(), true);
    cleanup(&base);
}

#[test]
fn dir_entry_exists() {
    let base = setup("dir_entry_exists");
    let dir = Dir::new(&base).unwrap();
    dir.create_file("present.txt").unwrap();
    assert_eq!(dir.entry_exists("present.txt"), true);
    assert_eq!(dir.entry_exists("absent.txt"), false);
    cleanup(&base);
}

#[test]
fn dir_read_lists_children() {
    let base = setup("dir_read");
    let dir = Dir::new(&base).unwrap();
    dir.create_file("a_file.txt").unwrap();
    dir.create_dir("a_dir").unwrap();
    let entries = dir.read().unwrap();
    assert_eq!(entries.len(), 2);
    let mut saw_file = false;
    let mut saw_dir = false;
    for entry in &entries {
        if entry.is_file() {
            assert_eq!(entry.file_name().unwrap(), "a_file.txt");
            assert_eq!(entry.path(), format!("{}/a_file.txt", base));
            saw_file = true;
        } else {
            assert_eq!(entry.file_name().unwrap(), "a_dir");
            saw_dir = true;
        }
    }
    assert!(saw_file && saw_dir);
    cleanup(&base);
}

#[test]
fn dir_size() {
    let base = setup("dir_size");
    let dir = Dir::new(&base).unwrap();
    dir.create_file("five.txt").unwrap().write("hello").unwrap();
    assert_eq!(dir.size().unwrap(), 5);
    cleanup(&base);
}

#[test]
fn dir_delete() {
    let base = setup("dir_delete");
    let dir = Dir::new(&format!("{}/victim", base)).unwrap();
    dir.create().unwrap();
    dir.create_file("inside.txt").unwrap();
    dir.delete().unwrap();
    assert_eq!(dir.exists_on_disk(), false);
    cleanup(&base);
}

#[test]
fn dir_copy() {
    let base = setup("dir_copy");
    let dir = Dir::new(&format!("{}/orig", base)).unwrap();
    dir.create().unwrap();
    dir.create_file("hi.txt").unwrap().write("hello world").unwrap();
    let dest = format!("{}/hi there6", base);
    let dir_copy = dir.copy(&dest, &fs_extra::dir::CopyOptions::new()).unwrap();
    assert_eq!(dir_copy.path, dest);
    assert_eq!(dir_copy.exists_on_disk(), true);
    cleanup(&base);
}

#[test]
fn dir_move_to() {
    let base = setup("dir_move_to");
    let dir = Dir::new(&format!("{}/orig", base)).unwrap();
    dir.create().unwrap();
    dir.create_file("hi.txt").unwrap().write("hello world").unwrap();
    let dest = format!("{}/hi there7", base);
    let dir_move = dir.move_to(&dest, &fs_extra::dir::CopyOptions::new()).unwrap();
    assert_eq!(dir_move.path, dest);
    assert_eq!(dir_move.exists_on_disk(), true);
    assert_eq!(dir.exists_on_disk(), false);
    cleanup(&base);
}
