use save_me_files::files::{copy_destination, directories_to_create, plan_copies};
use save_me_files::paths::FsPath;

#[test]
fn destinations_mirror_relative_paths() {
    let src_root = FsPath::parse("/srcroot");
    let dst_root = FsPath::parse("/dstroot");
    let paths = vec![
        FsPath::parse("/srcroot/a.txt"),
        FsPath::parse("/srcroot/sub/c.txt"),
    ];

    let plan = plan_copies(&src_root, &dst_root, &paths);

    assert_eq!(plan.len(), 2);
    assert_eq!(plan[0].source, paths[0]);
    assert_eq!(plan[0].destination, FsPath::parse("/dstroot/a.txt"));
    assert_eq!(plan[1].source, paths[1]);
    assert_eq!(plan[1].destination, FsPath::parse("/dstroot/sub/c.txt"));
}

#[test]
fn destination_keeps_deep_structure() {
    let src_root = FsPath::parse("/a/b");
    let dst_root = FsPath::parse("/x");

    let destination = copy_destination(&src_root, &dst_root, &FsPath::parse("/a/b/c/d/e.log"));

    assert_eq!(destination, FsPath::parse("/x/c/d/e.log"));
    assert_eq!(destination.to_path_string(), "/x/c/d/e.log".to_string());
}

#[test]
fn ancestor_directories_are_listed_shallowest_first() {
    let dst_root = FsPath::parse("/dstroot");
    let destination = FsPath::parse("/dstroot/a/b/c.txt");

    let chain = directories_to_create(&dst_root, &destination);

    assert_eq!(
        chain,
        vec![FsPath::parse("/dstroot/a"), FsPath::parse("/dstroot/a/b")],
    );
}

#[test]
fn file_directly_under_root_needs_no_directories() {
    let dst_root = FsPath::parse("/dstroot");
    let destination = FsPath::parse("/dstroot/a.txt");

    let chain = directories_to_create(&dst_root, &destination);

    assert!(chain.is_empty());
}
