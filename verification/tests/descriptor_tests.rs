use outfiles::usize_to_dec;
use outfiles::FileManager;

#[test]
fn define_builder() {
    let file = FileManager::default()
        .set_header("Some header")
        .set_project_path(".")
        .set_output_path("test")
        .set_file_name("test")
        .set_extension("dat")
        .build();

    assert_eq!(
        FileManager {
            header: Some(String::from("Some header")),
            project_path: Some(String::from(".")),
            output_path: Some(String::from("test")),
            name: Some(String::from("test")),
            extension: Some(String::from("dat")),
            series: None,
            path: Some(String::from("./test/test.dat")),
            writable: false
        },
        file
    );
}

#[test]
fn setter_order_does_not_matter() {
    let one = FileManager::default()
        .set_project_path("proj")
        .set_output_path("dir")
        .set_file_name("out")
        .set_extension("dat")
        .build();

    let other = FileManager::default()
        .set_extension("dat")
        .set_file_name("out")
        .set_output_path("dir")
        .set_project_path("proj")
        .build();

    assert_eq!(one, other);
    assert_eq!("proj/dir/out.dat", one.path_string());
}

#[test]
fn first_write_wins() {
    let file = FileManager::default()
        .set_project_path("proj")
        .set_project_path("other_proj")
        .set_output_path("dir")
        .set_file_name("out")
        .set_file_name("other_name")
        .set_extension("dat")
        .build();

    assert_eq!("proj/dir/out.dat", file.path_string());
}

#[test]
fn setters_after_build_are_ignored() {
    let mut file = FileManager::default()
        .set_project_path("proj")
        .set_output_path("dir")
        .set_file_name("out")
        .set_extension("dat")
        .build();

    file.set_header("too late");
    assert_eq!(None, file.header);
    file.set_file_name("too_late");
    assert_eq!(Some(String::from("out")), file.name);
}

#[test]
fn resolution_gating() {
    // Missing extension: stays unresolved.
    let file = FileManager::default()
        .set_project_path("proj")
        .set_output_path("dir")
        .set_file_name("out")
        .build();
    assert!(!file.initialized());
    assert_eq!(None, file.path);

    // All four fields: resolved.
    let file = FileManager::default()
        .set_project_path("proj")
        .set_output_path("dir")
        .set_file_name("out")
        .set_extension("dat")
        .build();
    assert!(file.initialized());

    // No field at all: stays unresolved.
    let file = FileManager::default().build();
    assert!(!file.initialized());
}

#[test]
fn change_before_build_is_ignored() {
    let mut file = FileManager::default();
    file.set_project_path("proj")
        .set_output_path("dir")
        .set_file_name("out")
        .set_extension("dat");
    file.change_file_name("other");
    assert_eq!(Some(String::from("out")), file.name);
}

#[test]
fn change_after_build_re_resolves() {
    let mut file = FileManager::default()
        .set_project_path("proj")
        .set_output_path("dir")
        .set_file_name("out")
        .set_extension("dat")
        .build();
    assert_eq!("proj/dir/out.dat", file.path_string());

    file.change_file_name("renamed");
    assert_eq!("proj/dir/renamed.dat", file.path_string());

    file.change_output_path("elsewhere");
    assert_eq!("proj/elsewhere/renamed.dat", file.path_string());

    file.change_extension("csv");
    assert_eq!("proj/elsewhere/renamed.csv", file.path_string());

    file.change_project_path("other_proj");
    assert_eq!("other_proj/elsewhere/renamed.csv", file.path_string());
}

#[test]
fn series_path_carries_the_index() {
    let mut file = FileManager::default()
        .set_project_path("proj")
        .set_output_path("dir")
        .set_file_name("file")
        .set_extension("dat")
        .set_series(12)
        .build();
    assert_eq!("proj/dir/file_0.dat", file.path_string());

    file.change_file_index(7);
    assert_eq!("proj/dir/file_7.dat", file.path_string());

    file.change_file_index(11);
    assert_eq!("proj/dir/file_11.dat", file.path_string());
}

#[test]
fn change_file_index_without_series_is_ignored() {
    let mut file = FileManager::default()
        .set_project_path("proj")
        .set_output_path("dir")
        .set_file_name("out")
        .set_extension("dat")
        .build();
    file.change_file_index(3);
    assert_eq!("proj/dir/out.dat", file.path_string());
}

#[test]
fn write_permission_toggles() {
    let mut file = FileManager::default();
    assert!(!file.writable());
    file.change_write_permission(true);
    assert!(file.writable());
    file.change_write_permission(false);
    assert!(!file.writable());
}

#[test]
fn decimal_rendering() {
    assert_eq!("0", usize_to_dec(0));
    assert_eq!("7", usize_to_dec(7));
    assert_eq!("10", usize_to_dec(10));
    assert_eq!("12345", usize_to_dec(12345));
    assert_eq!("1000000", usize_to_dec(1000000));
}

#[test]
fn path_accessor_matches_path_string() {
    let file = outfiles::FileManager::default()
        .set_project_path("proj")
        .set_output_path("dir")
        .set_file_name("out")
        .set_extension("dat")
        .build();
    assert_eq!(*file.path(), file.path_string());
}

#[test]
fn initialize_output_directly() {
    let mut file = outfiles::FileManager::default()
        .set_project_path("proj")
        .set_output_path("dir")
        .set_file_name("out")
        .set_extension("dat")
        .set_header("direct")
        .build();
    let mut disk = outfiles::Disk::new();
    file.initialize_output(&mut disk);
    assert!(disk.has_file("proj/dir/out.dat"));
    assert_eq!(Some(String::from("direct\n")), disk.read("proj/dir/out.dat"));
    assert!(file.writable());
}
