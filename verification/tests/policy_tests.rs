use outfiles::Disk;
use outfiles::FileManager;
use outfiles::FsAction;
use outfiles::OverwriteType;
use outfiles::ProjectManager;

fn four_files() -> Vec<FileManager> {
    vec![
        FileManager::default()
            .set_output_path("dir_1")
            .set_file_name("file_1")
            .set_extension("dat")
            .build(),
        FileManager::default()
            .set_output_path("dir_1")
            .set_file_name("file_2")
            .set_extension("csv")
            .build(),
        FileManager::default()
            .set_output_path("dir_2")
            .set_file_name("file_3")
            .set_extension("txt")
            .build(),
        FileManager::default()
            .set_output_path("dir_3")
            .set_file_name("file_4")
            .build(),
    ]
}

#[test]
fn overwrite_files() {
    let project_manager = ProjectManager {
        path: "test_overwrite".to_owned(),
        extension: "dat".to_owned(),
        overwrite_type: OverwriteType::Overwrite,
    };

    let mut files = four_files();
    let mut disk = Disk::new();

    if let Err(reason) = project_manager.initialize_output_files(&mut files, &mut disk) {
        panic!("Could not initialize output files for Overwrite test: {reason}")
    }

    let first_paths: Vec<String> = files.iter().map(|f| f.path_string()).collect();

    // A second run with the Overwrite policy is idempotent.
    if let Err(reason) = project_manager.initialize_output_files(&mut files, &mut disk) {
        panic!("Could not initialize output files for Overwrite test: {reason}")
    }

    // Verify that the correct files were initialized.
    assert!(
        disk.has_file("test_overwrite/dir_1/file_1.dat"),
        "file_1.dat was not created!"
    );
    assert!(
        disk.has_file("test_overwrite/dir_1/file_2.csv"),
        "file_2.csv was not created!"
    );
    assert!(
        disk.has_file("test_overwrite/dir_2/file_3.txt"),
        "file_3.txt was not created!"
    );
    assert!(
        disk.has_file("test_overwrite/dir_3/file_4.dat"),
        "file_4.dat was not created!"
    );

    // Verify the final states of the FileManagers.
    assert_eq!(
        "test_overwrite/dir_1/file_1.dat",
        files[0].path_string(),
        "The path of file_1.dat does not match the expected one."
    );
    assert_eq!(
        "test_overwrite/dir_1/file_2.csv",
        files[1].path_string(),
        "The path of file_2.csv does not match the expected one."
    );
    assert_eq!(
        "test_overwrite/dir_2/file_3.txt",
        files[2].path_string(),
        "The path of file_3.txt does not match the expected one."
    );
    assert_eq!(
        "test_overwrite/dir_3/file_4.dat",
        files[3].path_string(),
        "The path of file_4.dat does not match the expected one."
    );

    // The re-run changed neither the resolved paths nor the permissions.
    for (file, first_path) in files.iter().zip(first_paths.iter()) {
        assert_eq!(first_path, &file.path_string());
        assert!(file.writable());
    }
}

#[test]
fn forbidden_overwrite() {
    let project_manager = ProjectManager {
        path: "test_panic".to_owned(),
        extension: "dat".to_owned(),
        overwrite_type: OverwriteType::Panic,
    };

    let mut files = four_files();
    let mut disk = Disk::new();

    if let Err(reason) = project_manager.initialize_output_files(&mut files, &mut disk) {
        panic!("Could not initialize output files for Panic test: {reason}")
    }

    let mut retry = vec![FileManager::default()
        .set_header("New file_1")
        .set_output_path("dir_1")
        .set_file_name("file_1")
        .set_extension("dat")
        .build()];

    assert_eq!(
        Err(String::from(
            "Permission denied to overwrite existing output files."
        )),
        project_manager.initialize_output_files(&mut retry, &mut disk)
    );

    // The colliding file is untouched: still empty, no header written.
    assert_eq!(
        Some(String::new()),
        disk.read("test_panic/dir_1/file_1.dat")
    );
}

#[test]
fn archive_files() {
    let project_manager = ProjectManager {
        path: "test_archive".to_owned(),
        extension: "dat".to_owned(),
        overwrite_type: OverwriteType::Archive,
    };

    let mut files = four_files();
    let mut disk = Disk::new();

    if let Err(reason) = project_manager.initialize_output_files(&mut files, &mut disk) {
        panic!("Could not initialize output files for Archive test: {reason}")
    }

    let mut retry = vec![FileManager::default()
        .set_header("New file_1")
        .set_output_path("dir_1")
        .set_file_name("file_1")
        .build()];

    if let Err(reason) = project_manager.initialize_output_files(&mut retry, &mut disk) {
        panic!("Could not initialize output files for Archive test: {reason}")
    }

    // Verify that the correct files were initialized.
    assert!(
        disk.has_file("test_archive/dir_1/file_1.dat"),
        "file_1.dat was not created!"
    );
    assert!(
        disk.has_file("test_archive/dir_1/file_2.csv"),
        "file_2.csv was not created!"
    );
    assert!(
        disk.has_file("test_archive/dir_2/file_3.txt"),
        "file_3.txt was not created!"
    );
    assert!(
        disk.has_file("test_archive/dir_3/file_4.dat"),
        "file_4.dat was not created!"
    );
    assert!(
        disk.has_file("test_archive/archive/dir_1/file_1.dat"),
        "file_1.dat was not archived!"
    );

    // The archived copy holds the old (empty) contents; the original was
    // truncated and rewritten with the new header.
    assert_eq!(
        Some(String::new()),
        disk.read("test_archive/archive/dir_1/file_1.dat")
    );
    assert_eq!(
        Some(String::from("New file_1\n")),
        disk.read("test_archive/dir_1/file_1.dat")
    );
    assert_eq!(
        "test_archive/dir_1/file_1.dat",
        retry[0].path_string(),
        "The path of file_1.dat does not match the expected one."
    );
}

#[test]
fn archive_copies_before_rewriting() {
    let project_manager = ProjectManager {
        path: "proj".to_owned(),
        extension: "dat".to_owned(),
        overwrite_type: OverwriteType::Archive,
    };

    let mut disk = Disk::new();
    disk.seed("proj/dir/out.dat", "old contents");

    let mut files = vec![FileManager::default()
        .set_header("fresh")
        .set_output_path("dir")
        .set_file_name("out")
        .build()];

    project_manager
        .initialize_output_files(&mut files, &mut disk)
        .unwrap();

    assert_eq!(
        Some(String::from("old contents")),
        disk.read("proj/archive/dir/out.dat")
    );
    assert_eq!(Some(String::from("fresh\n")), disk.read("proj/dir/out.dat"));

    // The log replays the copy before the truncating write.
    let copy_at = disk
        .log
        .iter()
        .position(|a| matches!(a, FsAction::CopyFile(from, _) if from == "proj/dir/out.dat"))
        .expect("no copy was logged");
    let write_at = disk
        .log
        .iter()
        .position(|a| matches!(a, FsAction::WriteFile(path, _) if path == "proj/dir/out.dat"))
        .expect("no write was logged");
    assert!(copy_at < write_at);
}

#[test]
fn archive_mirrors_the_leaf_directory() {
    let project_manager = ProjectManager {
        path: "proj".to_owned(),
        extension: "dat".to_owned(),
        overwrite_type: OverwriteType::Archive,
    };

    let mut disk = Disk::new();
    disk.seed("proj/a/deep/out.dat", "kept");

    let mut files = vec![FileManager::default()
        .set_output_path("a/deep")
        .set_file_name("out")
        .build()];

    project_manager
        .initialize_output_files(&mut files, &mut disk)
        .unwrap();

    // Only the immediate parent directory name is mirrored, not the whole
    // relative path.
    assert_eq!(Some(String::from("kept")), disk.read("proj/archive/deep/out.dat"));
    assert!(!disk.has_file("proj/archive/a/deep/out.dat"));
}

#[test]
fn ignore_files() {
    let project_manager = ProjectManager {
        path: "test_ignore".to_owned(),
        extension: "dat".to_owned(),
        overwrite_type: OverwriteType::Ignore,
    };

    let mut files = four_files();
    let mut disk = Disk::new();

    if let Err(reason) = project_manager.initialize_output_files(&mut files, &mut disk) {
        panic!("Could not initialize output files for Ignore test: {reason}")
    }

    let mut retry = vec![FileManager::default()
        .set_header("New file_1")
        .set_output_path("dir_1")
        .set_file_name("file_1")
        .set_extension("dat")
        .build()];

    if let Err(reason) = project_manager.initialize_output_files(&mut retry, &mut disk) {
        panic!("Could not initialize output files for Ignore test: {reason}")
    }

    assert!(
        disk.has_file("test_ignore/dir_1/file_1.dat"),
        "file_1.dat was not created!"
    );
    assert!(!retry[0].writable(), "{:?}", retry[0]);

    // The existing file's contents are untouched: the new header was not
    // written.
    assert_eq!(
        Some(String::new()),
        disk.read("test_ignore/dir_1/file_1.dat")
    );
}

#[test]
fn file_series() {
    let project_manager = ProjectManager {
        path: "test_series".to_owned(),
        extension: "dat".to_owned(),
        overwrite_type: OverwriteType::Overwrite,
    };

    let mut files = vec![FileManager::default()
        .set_output_path("dir")
        .set_file_name("file")
        .set_extension("dat")
        .set_series(10)
        .build()];

    let mut disk = Disk::new();
    if let Err(reason) = project_manager.initialize_output_files(&mut files, &mut disk) {
        panic!("Could not initialize output files for file series test: {reason}")
    }

    for i in 0..10 {
        assert!(
            disk.has_file(&format!("test_series/dir/file_{i}.dat")),
            "file_{i}.dat was not created!"
        );
    }

    // No unsuffixed file exists, and the descriptor rests at the last index.
    assert!(!disk.has_file("test_series/dir/file.dat"));
    assert_eq!("test_series/dir/file_9.dat", files[0].path_string());
    assert_eq!(Some((10, 9)), files[0].series);
    assert!(files[0].writable());
}

#[test]
fn header_written_as_first_line() {
    let project_manager = ProjectManager {
        path: "proj".to_owned(),
        extension: "dat".to_owned(),
        overwrite_type: OverwriteType::Overwrite,
    };

    let mut files = vec![
        FileManager::default()
            .set_header("H")
            .set_output_path("dir")
            .set_file_name("with_header")
            .build(),
        FileManager::default()
            .set_output_path("dir")
            .set_file_name("without_header")
            .build(),
    ];

    let mut disk = Disk::new();
    project_manager
        .initialize_output_files(&mut files, &mut disk)
        .unwrap();

    let contents = disk.read("proj/dir/with_header.dat").unwrap();
    assert_eq!("H\n", contents);
    assert_eq!(Some("H"), contents.lines().next());

    assert_eq!(Some(String::new()), disk.read("proj/dir/without_header.dat"));
}

#[test]
fn example_scenario() {
    let project_manager = ProjectManager {
        path: "proj".to_owned(),
        extension: "out".to_owned(),
        overwrite_type: OverwriteType::Overwrite,
    };

    let mut files = vec![FileManager::default()
        .set_output_path("dir")
        .set_file_name("out")
        .set_extension("dat")
        .set_header("id,value")
        .build()];

    let mut disk = Disk::new();
    project_manager
        .initialize_output_files(&mut files, &mut disk)
        .unwrap();

    assert!(disk.has_file("proj/dir/out.dat"));
    let contents = disk.read("proj/dir/out.dat").unwrap();
    assert_eq!(Some("id,value"), contents.lines().next());
    assert!(files[0].writable());
}

#[test]
fn project_manager_accessors() {
    let mut project_manager = ProjectManager {
        path: "proj".to_owned(),
        extension: "dat".to_owned(),
        overwrite_type: OverwriteType::Panic,
    };
    assert_eq!("proj", project_manager.path());
    project_manager.set_path("elsewhere".to_owned());
    assert_eq!("elsewhere", project_manager.path());

    assert_eq!(
        "Project path is elsewhere\nOutput files have extension .dat\n\
         Existing output files will interrupt the program (overwrite_typ = Panic).\n",
        project_manager.summary()
    );
}
