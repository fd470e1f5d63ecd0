use save_me_files::suffixes::read_suffixes;

fn lines_of(texts: &[&str]) -> Vec<String> {
    let mut lines = Vec::new();
    for t in texts {
        lines.push(t.to_string());
    }
    lines
}

#[test]
fn read_suffixes_all_suffixes() {
    let suffixes = [".txt", "some.png", "-screenshot-19-05-1948"];
    let lines = lines_of(&suffixes);

    let load = read_suffixes(&lines, "//");

    for suffix in suffixes {
        assert!(load.kept.contains(&suffix.to_string()));
    }
    assert_eq!(load.kept.len(), 3);
    assert!(load.rejected.is_empty());
}

#[test]
fn read_suffixes_trimmed() {
    let suffixes = [".txt", "some.png", "-screenshot-19-05-1948"];
    let lines = lines_of(&[
        &format!("   {}", suffixes[0]),
        &format!("{}   ", suffixes[1]),
        &format!(" \t {}  \t", suffixes[2]),
    ]);

    let load = read_suffixes(&lines, "//");

    for suffix in suffixes {
        assert!(load.kept.contains(&suffix.to_string()));
    }
    assert_eq!(load.kept.len(), 3);
}

#[test]
fn read_suffixes_ignore_invalid() {
    let lines = lines_of(&["invalid:suffix", "// comment that's also invalid suffix"]);

    let load = read_suffixes(&lines, "//");

    assert!(load.kept.is_empty());
}

#[test]
fn read_suffixes_reports_invalid_but_not_comments() {
    let lines = lines_of(&["invalid:suffix", "// a comment", ".txt"]);

    let load = read_suffixes(&lines, "//");

    assert_eq!(load.kept, vec![".txt".to_string()]);
    assert_eq!(load.rejected, vec!["invalid:suffix".to_string()]);
}

#[test]
fn read_suffixes_drops_empty_lines() {
    let lines = lines_of(&["", "   ", ".txt"]);

    let load = read_suffixes(&lines, "//");

    assert_eq!(load.kept, vec![".txt".to_string()]);
    assert_eq!(load.rejected, vec!["".to_string(), "".to_string()]);
}

#[test]
fn read_suffixes_keeps_compound_suffixes() {
    let lines = lines_of(&["_backup.txt", ".drawio.png", "with space.txt"]);

    let load = read_suffixes(&lines, "//");

    assert_eq!(load.kept.len(), 3);
    assert!(load.rejected.is_empty());
}

#[test]
fn read_suffixes_comment_prefix_is_injectable() {
    let lines = lines_of(&["# not a suffix!", "%% also bad"]);

    let load = read_suffixes(&lines, "#");

    assert!(load.kept.is_empty());
    assert_eq!(load.rejected, vec!["%% also bad".to_string()]);
}
