use polaris_core::tree::{should_skip_entry, sort_file_nodes, str_le, FileNode};

fn node(name: &str, node_type: &str) -> FileNode {
    FileNode {
        name: name.to_string(),
        path: format!("/p/{}", name),
        node_type: node_type.to_string(),
        children: None,
    }
}

#[test]
fn hidden_and_bulky_entries_are_skipped() {
    assert!(should_skip_entry(".git"));
    assert!(should_skip_entry(".hidden"));
    assert!(should_skip_entry("node_modules"));
    assert!(should_skip_entry("target"));
    assert!(!should_skip_entry("src"));
    assert!(!should_skip_entry("Cargo.toml"));
    assert!(!should_skip_entry(""));
}

#[test]
fn directories_come_first_then_names() {
    let nodes = vec![
        node("zeta.rs", "file"),
        node("alpha", "dir"),
        node("beta.rs", "file"),
        node("gamma", "dir"),
    ];
    let sorted = sort_file_nodes(nodes);
    let order: Vec<(String, String)> = sorted
        .into_iter()
        .map(|n| (n.name, n.node_type))
        .collect();
    assert_eq!(
        order,
        vec![
            ("alpha".to_string(), "dir".to_string()),
            ("gamma".to_string(), "dir".to_string()),
            ("beta.rs".to_string(), "file".to_string()),
            ("zeta.rs".to_string(), "file".to_string()),
        ]
    );
}

#[test]
fn sorting_keeps_every_node() {
    let nodes = vec![node("b", "file"), node("a", "file"), node("a", "dir")];
    let sorted = sort_file_nodes(nodes);
    assert_eq!(sorted.len(), 3);
    assert_eq!(sorted[0].name, "a");
    assert_eq!(sorted[0].node_type, "dir");
    assert_eq!(sorted[1].name, "a");
    assert_eq!(sorted[1].node_type, "file");
    assert_eq!(sorted[2].name, "b");
}

#[test]
fn names_compare_by_code_point() {
    assert!(str_le("alpha", "beta"));
    assert!(!str_le("beta", "alpha"));
    assert!(str_le("abc", "abcd"));
    assert!(!str_le("abcd", "abc"));
    assert!(str_le("same", "same"));
    // upper-case letters sort before lower-case ones
    assert!(str_le("Zeta", "alpha"));
}
