use save_me_files::{create_unique_filename, tmp_path, TmpDirectory, TmpFile};

#[test]
fn tmp_file_exist() {
    let tmp_file = TmpFile::new();
    assert!(std::path::Path::new(tmp_file.path()).is_file());
}

#[test]
fn tmp_file_is_removed() {
    let tmp_file_path;
    {
        let tmp_file = TmpFile::new();
        tmp_file_path = tmp_file.path().to_string();
        assert!(std::path::Path::new(&tmp_file_path).is_file());
    }
    assert!(!std::path::Path::new(&tmp_file_path).is_file());
}

#[test]
fn tmp_directory_exist() {
    let tmp_directory = TmpDirectory::new();
    assert!(std::path::Path::new(tmp_directory.path()).is_dir());
}

#[test]
fn tmp_directory_is_removed() {
    let tmp_directory_path;
    {
        let tmp_directory = TmpDirectory::new();
        tmp_directory_path = tmp_directory.path().to_string();
        assert!(std::path::Path::new(&tmp_directory_path).is_dir());
    }
    assert!(!std::path::Path::new(&tmp_directory_path).is_dir());
}

#[test]
fn tmp_path_file_not_exists() {
    let unique_path = tmp_path();
    assert!(!std::path::Path::new(&unique_path).exists());
}

#[test]
fn tmp_path_is_unique() {
    let first = tmp_path();
    let second = tmp_path();

    assert_ne!(first, second);
}

#[test]
fn create_unique_filename_name_is_unique() {
    let a = create_unique_filename();
    let b = create_unique_filename();

    assert_ne!(a, b);
}

#[test]
fn new_directory_exist() {
    let tmp_directory = TmpDirectory::new();
    assert!(std::path::Path::new(tmp_directory.path()).is_dir());
}

#[test]
fn drop_directory_is_removed() {
    let tmp_directory_path;
    {
        let tmp_directory = TmpDirectory::new();
        tmp_directory_path = tmp_directory.path().to_string();
        assert!(std::path::Path::new(&tmp_directory_path).is_dir());
    }
    assert!(!std::path::Path::new(&tmp_directory_path).is_dir());
}

#[test]
fn tmp_directoroy_new_with_parent_directory_exist() {
    let parent = TmpDirectory::new();

    let directory_exist;
    {
        let child = TmpDirectory::new_with_parent(parent.path());
        directory_exist = std::path::Path::new(child.path()).is_dir();
    }

    assert!(directory_exist);
}

#[test]
fn tmp_directoroy_new_with_parent_correct_parent() {
    let parent = TmpDirectory::new();

    let is_parent_correct;
    {
        let child = TmpDirectory::new_with_parent(parent.path());
        is_parent_correct = std::path::Path::new(child.path()).parent().unwrap()
            == std::path::Path::new(parent.path());
    }

    assert!(is_parent_correct);
}

#[test]
fn new_file_exist() {
    let tmp_file = TmpFile::new();
    assert!(std::path::Path::new(tmp_file.path()).is_file());
}

#[test]
fn drop_file_is_removed() {
    let tmp_file_path;
    {
        let tmp_file = TmpFile::new();
        tmp_file_path = tmp_file.path().to_string();
        assert!(std::path::Path::new(&tmp_file_path).is_file());
    }
    assert!(!std::path::Path::new(&tmp_file_path).is_file());
}

#[test]
fn tmp_file_new_with_parent_directory_exist() {
    let parent = TmpDirectory::new();

    let file_exist;
    {
        let child = TmpFile::new_with_parent(parent.path());
        file_exist = std::path::Path::new(child.path()).is_file();
    }

    assert!(file_exist);
}

#[test]
fn tmp_file_new_with_parent_correct_parent() {
    let parent = TmpDirectory::new();

    let is_parent_correct;
    {
        let child = TmpFile::new_with_parent(parent.path());
        is_parent_correct = std::path::Path::new(child.path()).parent().unwrap()
            == std::path::Path::new(parent.path());
    }

    assert!(is_parent_correct);
}

#[test]
fn new_with_parent_and_name_file_exist() {
    let parent = TmpDirectory::new();

    let file_exits;
    {
        let child = TmpFile::new_with_parent_and_name(parent.path(), "valid name.txt");
        file_exits = std::path::Path::new(child.path()).is_file();
    }

    assert!(file_exits);
}

#[test]
fn new_with_parent_and_name_correct_parent() {
    let parent = TmpDirectory::new();

    let is_parent_correct;
    {
        let child = TmpFile::new_with_parent_and_name(parent.path(), "valid name.txt");
        is_parent_correct = std::path::Path::new(child.path()).parent().unwrap()
            == std::path::Path::new(parent.path());
    }

    assert!(is_parent_correct);
}

#[test]
fn new_with_parent_and_name_correct_name() {
    let parent = TmpDirectory::new();
    let name = "filename.txt";

    let is_name_correct;
    {
        let child = TmpFile::new_with_parent_and_name(parent.path(), name);
        is_name_correct = std::path::Path::new(child.path()).file_name().unwrap().to_string_lossy()
            == name;
    }

    assert!(is_name_correct);
}
