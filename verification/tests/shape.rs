use fs_pro::Dir;
use fs_pro::File;
use fs_pro::Shape;
use fs_pro::schema::FieldDecl;
use fs_pro::schema::FieldKind;
use fs_pro::schema::ShapeItemStatic;
use fs_pro::schema::compile_schema;
use fs_pro::shape::ShapeDescribe;
use fs_pro::shape::ShapeInstItem;
use fs_pro::shape::create_shape_inst;
use fs_pro::shape::validate_dir;

fn setup(name: &str) -> String {
    let dir = format!("/tmp/fs_pro_checks/{}", name);
    let _ = fs_extra::dir::remove(&dir);
    fs_extra::dir::create_all(&dir, false).unwrap();
    dir
}

fn cleanup(dir: &str) {
    let _ = fs_extra::dir::remove(dir);
}

struct H {
    pub hi: File,
}

impl ShapeDescribe for H {
    fn shape_describe() -> Vec<ShapeItemStatic> {
        compile_schema(vec![FieldDecl {
            identifier: "hi".to_string(),
            kind: FieldKind::FileField,
            entry_name: Some("hi.txt".to_string()),
            pattern: None,
        }])
        .unwrap()
    }

    fn shape_new(mut inst: Vec<ShapeInstItem>) -> Self {
        match inst.remove(0) {
            ShapeInstItem::File(f) => H { hi: f },
            _ => panic!("expected a file item"),
        }
    }
}

struct TestShape {
    pub hi: File,
    pub my_dir: Dir,
    pub hi_dir: H,
}

impl ShapeDescribe for TestShape {
    fn shape_describe() -> Vec<ShapeItemStatic> {
        compile_schema(vec![
            FieldDecl {
                identifier: "hi".to_string(),
                kind: FieldKind::FileField,
                entry_name: Some("hi.txt".to_string()),
                pattern: None,
            },
            FieldDecl {
                identifier: "my_dir".to_string(),
                kind: FieldKind::DirField,
                entry_name: None,
                pattern: Some("*.txt".to_string()),
            },
            FieldDecl {
                identifier: "hi_dir".to_string(),
                kind: FieldKind::NestedField(H::shape_describe()),
                entry_name: None,
                pattern: None,
            },
        ])
        .unwrap()
    }

    fn shape_new(mut inst: Vec<ShapeInstItem>) -> Self {
        let hi = match inst.remove(0) {
            ShapeInstItem::File(f) => f,
            _ => panic!("expected a file item"),
        };
        let my_dir = match inst.remove(0) {
            ShapeInstItem::Directory(d) => d,
            _ => panic!("expected a directory item"),
        };
        let hi_dir = match inst.remove(0) {
            ShapeInstItem::ShapedDirectory(sub) => H::shape_new(sub),
            _ => panic!("expected a nested item"),
        };
        TestShape { hi, my_dir, hi_dir }
    }
}

#[test]
fn main_test() {
    let base = setup("shape_main");
    let target = Dir::new(&base).unwrap();
    let shape: Shape<TestShape> = Shape::new();
    let some = shape.create_at(&target.path).unwrap();

    assert_eq!(some.hi.path, format!("{}/hi.txt", target.path));
    assert_eq!(some.my_dir.path, format!("{}/my_dir", target.path));
    assert_eq!(some.hi_dir.hi.path, format!("{}/hi_dir/hi.txt", target.path));

    assert!(some.hi.exists_on_disk());
    assert!(some.my_dir.exists_on_disk());
    assert!(some.hi_dir.hi.exists_on_disk());

    let res = shape.validate(&target.path);
    if let Err(errors) = res {
        println!("{:?}", errors);
        panic!("validate returned errors");
    }

    cleanup(&base);
}

#[test]
fn create_twice_keeps_content() {
    let base = setup("shape_twice");
    let shape: Shape<TestShape> = Shape::new();
    let first = shape.create_at(&base).unwrap();
    first.hi.write("kept content").unwrap();
    let second = shape.create_at(&base).unwrap();
    assert_eq!(second.hi.read_to_string().unwrap(), "kept content".to_string());
    cleanup(&base);
}

#[test]
fn create_at_hook_reports_each_entry() {
    let base = setup("shape_hook");
    let seen = std::cell::RefCell::new(Vec::new());
    let hook = |path: String, created: bool| {
        seen.borrow_mut().push((path, created));
    };
    let shape: Shape<TestShape> = Shape::new();
    shape.create_at_hook(&base, &hook).unwrap();
    let got = seen.borrow();
    assert_eq!(got.len(), 4);
    assert_eq!(got[0], (format!("{}/hi.txt", base), true));
    assert_eq!(got[1], (format!("{}/my_dir", base), true));
    assert_eq!(got[2], (format!("{}/hi_dir", base), true));
    assert_eq!(got[3], (format!("{}/hi_dir/hi.txt", base), true));
    cleanup(&base);
}

#[test]
fn describe_without_create_touches_nothing() {
    let base = "/tmp/fs_pro_checks/shape_describe_only";
    let _ = fs_extra::dir::remove(base);
    let schema = TestShape::shape_describe();
    let inst = create_shape_inst(base, &schema, false, None::<&fn(String, bool)>).unwrap();
    assert_eq!(inst.len(), 3);
    match &inst[0] {
        ShapeInstItem::File(f) => assert_eq!(f.path, format!("{}/hi.txt", base)),
        _ => panic!("expected a file item"),
    }
    // nothing was created on disk
    assert!(!std::path::Path::new(base).exists());
}

#[test]
fn two_missing_entries_give_two_errors() {
    let base = setup("shape_two_missing");
    let schema = vec![
        ShapeItemStatic::File("a".to_string(), "a.txt".to_string()),
        ShapeItemStatic::File("b".to_string(), "b.txt".to_string()),
    ];
    let errors = validate_dir(Dir::new(&base).unwrap(), &schema);
    assert_eq!(errors.len(), 2);
    assert!(matches!(errors[0].kind, fs_pro::ErrorKind::NotFound));
    assert!(matches!(errors[1].kind, fs_pro::ErrorKind::NotFound));
    assert_eq!(errors[0].path.as_deref(), Some(format!("{}/a.txt", base).as_str()));
    assert_eq!(errors[1].path.as_deref(), Some(format!("{}/b.txt", base).as_str()));
    cleanup(&base);
}

#[test]
fn pattern_dir_flags_mismatched_file() {
    let base = setup("shape_pattern");
    let root = Dir::new(&base).unwrap();
    let my_dir = root.create_dir("my_dir").unwrap();
    my_dir.create_file("a.txt").unwrap();
    my_dir.create_file("b.png").unwrap();
    let schema = vec![ShapeItemStatic::DirectoryPattern(
        "my_dir".to_string(),
        "my_dir".to_string(),
        "*.txt".to_string(),
    )];
    let errors = validate_dir(root, &schema);
    assert_eq!(errors.len(), 1);
    assert!(matches!(errors[0].kind, fs_pro::ErrorKind::InvalidFile));
    assert_eq!(errors[0].path.as_deref(), Some(format!("{}/my_dir/b.png", base).as_str()));
    assert_eq!(errors[0].message, "file doesn't match pattern \"*.txt\"".to_string());
    cleanup(&base);
}

#[test]
fn folder_in_pattern_dir_is_rejected() {
    let base = setup("shape_folder_in_pattern");
    let root = Dir::new(&base).unwrap();
    let my_dir = root.create_dir("my_dir").unwrap();
    // the sub-directory's name matches the pattern, and is still an error
    my_dir.create_dir("sub.txt").unwrap();
    let schema = vec![ShapeItemStatic::DirectoryPattern(
        "my_dir".to_string(),
        "my_dir".to_string(),
        "*.txt".to_string(),
    )];
    let errors = validate_dir(root, &schema);
    assert_eq!(errors.len(), 1);
    assert!(matches!(errors[0].kind, fs_pro::ErrorKind::InvalidFolder));
    assert_eq!(errors[0].path.as_deref(), Some(format!("{}/my_dir/sub.txt", base).as_str()));
    cleanup(&base);
}

#[test]
fn nested_missing_file_is_reported_at_its_path() {
    let base = setup("shape_nested_missing");
    let root = Dir::new(&base).unwrap();
    root.create_dir("inner").unwrap();
    let schema = vec![ShapeItemStatic::DirectorySchema(
        "inner".to_string(),
        "inner".to_string(),
        vec![ShapeItemStatic::File("x".to_string(), "x.txt".to_string())],
    )];
    let errors = validate_dir(root, &schema);
    assert_eq!(errors.len(), 1);
    assert!(matches!(errors[0].kind, fs_pro::ErrorKind::NotFound));
    assert_eq!(errors[0].path.as_deref(), Some(format!("{}/inner/x.txt", base).as_str()));
    cleanup(&base);
}

#[test]
fn missing_root_gives_one_error() {
    let base = "/tmp/fs_pro_checks/shape_missing_root";
    let _ = fs_extra::dir::remove(base);
    let shape: Shape<TestShape> = Shape::new();
    let errors = shape.validate(base).unwrap_err();
    assert_eq!(errors.len(), 1);
    assert!(matches!(errors[0].kind, fs_pro::ErrorKind::NotFound));
    assert_eq!(errors[0].path.as_deref(), Some(base));
}

#[test]
fn dir_field_without_pattern_is_rejected() {
    let res = compile_schema(vec![FieldDecl {
        identifier: "my_dir".to_string(),
        kind: FieldKind::DirField,
        entry_name: None,
        pattern: None,
    }]);
    let err = res.unwrap_err();
    assert_eq!(err.message, "Dir fields must have pattern attribute".to_string());
}

#[test]
fn pattern_on_file_field_is_rejected() {
    let res = compile_schema(vec![FieldDecl {
        identifier: "hi".to_string(),
        kind: FieldKind::FileField,
        entry_name: None,
        pattern: Some("*.txt".to_string()),
    }]);
    let err = res.unwrap_err();
    assert_eq!(err.message, "pattern can only be used with Dir fields".to_string());
}

#[test]
fn bad_name_annotation_is_rejected() {
    let res = compile_schema(vec![FieldDecl {
        identifier: "hi".to_string(),
        kind: FieldKind::FileField,
        entry_name: Some("a/b".to_string()),
        pattern: None,
    }]);
    let err = res.unwrap_err();
    assert_eq!(err.message, "syntax error in name".to_string());
    assert!(matches!(err.kind, fs_pro::ErrorKind::InvalidFileName));
}

#[test]
fn bad_pattern_annotation_is_rejected() {
    let res = compile_schema(vec![FieldDecl {
        identifier: "my_dir".to_string(),
        kind: FieldKind::DirField,
        entry_name: None,
        pattern: Some("a\"b".to_string()),
    }]);
    let err = res.unwrap_err();
    assert_eq!(err.message, "syntax error in pattern".to_string());
}

#[test]
fn compiled_schema_carries_names_in_order() {
    let schema = TestShape::shape_describe();
    assert_eq!(schema.len(), 3);
    assert_eq!(schema[0].identifier(), "hi");
    assert_eq!(schema[0].entry_name(), "hi.txt");
    assert_eq!(schema[1].identifier(), "my_dir");
    assert_eq!(schema[1].entry_name(), "my_dir");
    assert_eq!(schema[2].entry_name(), "hi_dir");
    match &schema[1] {
        ShapeItemStatic::DirectoryPattern(_, _, p) => assert_eq!(p, "*.txt"),
        _ => panic!("expected a pattern-directory node"),
    }
}
