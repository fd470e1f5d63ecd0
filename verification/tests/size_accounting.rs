use std::io::Write;

use save_me_files::files::calculate_files_size;

#[test]
fn calculate_files_size_correct_sum() {
    let mut files = [
        tempfile::NamedTempFile::new().unwrap(),
        tempfile::NamedTempFile::new().unwrap(),
        tempfile::NamedTempFile::new().unwrap(),
    ];
    files[0].write_all(b"some unimportant text").unwrap();
    files[1].write_all(b"event more text").unwrap();
    files[2].write_all(b"That's the last one").unwrap();

    let mut size_hints = Vec::new();
    let mut expected: u64 = 0;
    for file in &files {
        let len = file.as_file().metadata().unwrap().len();
        size_hints.push(Some(len));
        expected += len;
    }

    let calculated_size = calculate_files_size(&size_hints);

    assert_eq!(expected, calculated_size);
}

#[test]
fn size_of_known_lengths_is_their_sum() {
    let size_hints = vec![Some(21u64), Some(15u64), Some(19u64)];

    assert_eq!(calculate_files_size(&size_hints), 55);
}

#[test]
fn unreadable_file_counts_as_zero() {
    let all = vec![Some(21u64), Some(15u64), Some(19u64)];
    let one_gone = vec![Some(21u64), None, Some(19u64)];

    assert_eq!(calculate_files_size(&all) - calculate_files_size(&one_gone), 15);
}

#[test]
fn size_of_nothing_is_zero() {
    assert_eq!(calculate_files_size(&Vec::new()), 0);
    assert_eq!(calculate_files_size(&vec![None, None]), 0);
}

#[test]
fn size_saturates_instead_of_wrapping() {
    let size_hints = vec![Some(u64::MAX), Some(5u64)];

    assert_eq!(calculate_files_size(&size_hints), u64::MAX);
}
