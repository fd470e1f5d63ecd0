use save_me_files::exclusions::read_exclusions;
use save_me_files::lines::trim;
use save_me_files::paths::FsPath;
use save_me_files::TmpDirectory;

/// The probe the application would make: whether each trimmed line names
/// an existing directory.
fn probe_directories(lines: &Vec<String>) -> Vec<bool> {
    let mut flags = Vec::new();
    for line in lines {
        let trimmed = trim(line.as_str());
        flags.push(std::path::Path::new(&trimmed).is_dir());
    }
    flags
}

fn load(lines: Vec<String>) -> save_me_files::exclusions::ExclusionLoad {
    let flags = probe_directories(&lines);
    read_exclusions(&lines, &flags, "//")
}

#[test]
fn read_exclusions_all_exclusions() {
    let exclusions = [TmpDirectory::new(), TmpDirectory::new(), TmpDirectory::new()];
    let lines: Vec<String> = exclusions.iter().map(|d| d.path().to_string()).collect();

    let read = load(lines);

    for exclusion in &exclusions {
        assert!(read.kept.contains(&FsPath::parse(exclusion.path())));
    }
    assert_eq!(read.kept.len(), 3);
}

#[test]
fn read_exclusions_all_exclusions_trimmed() {
    let exclusions = [TmpDirectory::new(), TmpDirectory::new(), TmpDirectory::new()];
    let lines = vec![
        format!(" \t {}", exclusions[0].path()),
        format!("{} \t ", exclusions[1].path()),
        format!(" \t {} \t ", exclusions[2].path()),
    ];

    let read = load(lines);

    for exclusion in &exclusions {
        assert!(read.kept.contains(&FsPath::parse(exclusion.path())));
    }
    assert_eq!(read.kept.len(), 3);
}

#[test]
fn read_exclusions_ignore_comments() {
    let lines = vec![format!("{} {}", "//", "save-me-files.test.noexistent.file")];

    let read = load(lines);

    assert!(read.kept.is_empty());
    assert!(read.not_absolute.is_empty());
    assert!(read.not_directories.is_empty());
}

#[test]
fn read_exclusions_ignore_non_existent_directories() {
    let lines = vec![
        "save-me-files.test.noexistent.file1".to_string(),
        "save-me-files.test.noexistent.file2".to_string(),
        "save-me-files.test.noexistent.file3".to_string(),
    ];

    let read = load(lines);

    assert!(read.kept.is_empty());
}

#[test]
fn read_exclusions_ignore_relative_paths() {
    let exclusion = TmpDirectory::new();
    let name = std::path::Path::new(exclusion.path())
        .file_name()
        .unwrap()
        .to_string_lossy()
        .into_owned();

    let read = load(vec![name.clone()]);

    assert!(read.kept.is_empty());
    assert_eq!(read.not_absolute, vec![name]);
}

#[test]
fn read_exclusions_reports_missing_directories() {
    let gone = "/save-me-files.test.noexistent.file".to_string();

    let read = load(vec![gone.clone()]);

    assert!(read.kept.is_empty());
    assert!(read.not_absolute.is_empty());
    assert_eq!(read.not_directories, vec![gone]);
}
