use save_me_files::args::{validate_args, ArgProbes, Args, ArgsError};
use save_me_files::{TmpDirectory, TmpFile};

/// The probes the application would make on the argument paths.
fn probe(args: &Args) -> ArgProbes {
    let is_file = |path: &Option<String>| match path {
        Some(p) => std::path::Path::new(p).is_file(),
        None => false,
    };
    ArgProbes {
        src_is_directory: std::path::Path::new(&args.src_directory).is_dir(),
        dst_is_directory: std::path::Path::new(&args.dst_directory).is_dir(),
        include_suffixes_is_file: is_file(&args.include_suffixes_file),
        exclude_paths_is_file: is_file(&args.exclude_paths_file),
    }
}

#[test]
fn canonicalize_args_all_args_present() {
    let src_directory = TmpDirectory::new();
    let dst_directory = TmpDirectory::new();
    let include_suffixes_file = TmpFile::new();
    let exclude_paths_file = TmpFile::new();

    let args = Args {
        src_directory: src_directory.path().to_string(),
        dst_directory: dst_directory.path().to_string(),
        include_suffixes_file: Some(include_suffixes_file.path().to_string()),
        exclude_paths_file: Some(exclude_paths_file.path().to_string()),
        no_copy: false,
    };

    assert!(validate_args(&args, &probe(&args)).is_ok());
}

#[test]
fn canonicalize_args_no_optional_args() {
    let src_directory = TmpDirectory::new();
    let dst_directory = TmpDirectory::new();

    let args = Args {
        src_directory: src_directory.path().to_string(),
        dst_directory: dst_directory.path().to_string(),
        include_suffixes_file: None,
        exclude_paths_file: None,
        no_copy: false,
    };

    assert!(validate_args(&args, &probe(&args)).is_ok());
}

#[test]
fn canonicalize_args_src_directory_not_exist() {
    let dst_directory = TmpDirectory::new();

    let args = Args {
        src_directory: "save-me-files.test.noexistent.file".to_string(),
        dst_directory: dst_directory.path().to_string(),
        include_suffixes_file: None,
        exclude_paths_file: None,
        no_copy: false,
    };

    assert!(validate_args(&args, &probe(&args)).is_err());
}

#[test]
fn canonicalize_args_src_directory_is_file() {
    let src_directory = TmpFile::new();
    let dst_directory = TmpDirectory::new();

    let args = Args {
        src_directory: src_directory.path().to_string(),
        dst_directory: dst_directory.path().to_string(),
        include_suffixes_file: None,
        exclude_paths_file: None,
        no_copy: false,
    };

    assert_eq!(validate_args(&args, &probe(&args)), Err(ArgsError::SrcNotADirectory));
}

#[test]
fn canonicalize_args_dst_directory_not_exist() {
    let src_directory = TmpDirectory::new();

    let args = Args {
        src_directory: src_directory.path().to_string(),
        dst_directory: "save-me-files.test.noexistent.file".to_string(),
        include_suffixes_file: None,
        exclude_paths_file: None,
        no_copy: false,
    };

    assert!(validate_args(&args, &probe(&args)).is_err());
}

#[test]
fn canonicalize_args_dst_directory_is_file() {
    let src_directory = TmpDirectory::new();
    let dst_directory = TmpFile::new();

    let args = Args {
        src_directory: src_directory.path().to_string(),
        dst_directory: dst_directory.path().to_string(),
        include_suffixes_file: None,
        exclude_paths_file: None,
        no_copy: false,
    };

    assert_eq!(validate_args(&args, &probe(&args)), Err(ArgsError::DstNotADirectory));
}

#[test]
fn canonicalize_args_include_suffixes_file_not_exist() {
    let src_directory = TmpDirectory::new();
    let dst_directory = TmpDirectory::new();

    let args = Args {
        src_directory: src_directory.path().to_string(),
        dst_directory: dst_directory.path().to_string(),
        include_suffixes_file: Some("save-me-files.test.noexistent.file".to_string()),
        exclude_paths_file: None,
        no_copy: false,
    };

    assert!(validate_args(&args, &probe(&args)).is_err());
}

#[test]
fn canonicalize_args_include_suffixes_file_is_directory() {
    let src_directory = TmpDirectory::new();
    let dst_directory = TmpDirectory::new();
    let include_suffixes_file = TmpDirectory::new();

    let args = Args {
        src_directory: src_directory.path().to_string(),
        dst_directory: dst_directory.path().to_string(),
        include_suffixes_file: Some(include_suffixes_file.path().to_string()),
        exclude_paths_file: None,
        no_copy: false,
    };

    assert_eq!(validate_args(&args, &probe(&args)), Err(ArgsError::SuffixesNotAFile));
}

#[test]
fn canonicalize_args_exclude_paths_file_not_exist() {
    let src_directory = TmpDirectory::new();
    let dst_directory = TmpDirectory::new();

    let args = Args {
        src_directory: src_directory.path().to_string(),
        dst_directory: dst_directory.path().to_string(),
        include_suffixes_file: None,
        exclude_paths_file: Some("save-me-files.test.noexistent.file".to_string()),
        no_copy: false,
    };

    assert!(validate_args(&args, &probe(&args)).is_err());
}

#[test]
fn canonicalize_args_exclude_paths_file_is_directory() {
    let src_directory = TmpDirectory::new();
    let dst_directory = TmpDirectory::new();
    let exclude_paths_file = TmpDirectory::new();

    let args = Args {
        src_directory: src_directory.path().to_string(),
        dst_directory: dst_directory.path().to_string(),
        include_suffixes_file: None,
        exclude_paths_file: Some(exclude_paths_file.path().to_string()),
        no_copy: false,
    };

    assert_eq!(validate_args(&args, &probe(&args)), Err(ArgsError::ExclusionsNotAFile));
}
