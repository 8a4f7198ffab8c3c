use texdesk::tree::FileNode;
use texdesk::tree::build_tree;
use texdesk::tree::sort_nodes;
use texdesk::tree::visible_name;

fn leaf(name: &str, is_dir: bool) -> FileNode {
    FileNode {
        name: name.to_string(),
        path: format!("/ws/{}", name),
        is_dir,
        children: Vec::new(),
    }
}

fn names(nodes: &[FileNode]) -> Vec<String> {
    nodes.iter().map(|n| n.name.clone()).collect()
}

#[test]
fn directories_sort_before_files_then_by_name() {
    let children = vec![leaf("b.txt", false), leaf("A", true), leaf("a.txt", false)];
    let n = build_tree("ws".to_string(), "/ws".to_string(), true, children);
    assert_eq!(names(&n.children), vec!["A", "a.txt", "b.txt"]);
}

#[test]
fn snapshot_order_is_stable_across_calls() {
    let make = || vec![leaf("b.txt", false), leaf("A", true), leaf("a.txt", false)];
    let first = build_tree("ws".to_string(), "/ws".to_string(), true, make());
    let second = build_tree("ws".to_string(), "/ws".to_string(), true, make());
    assert_eq!(names(&first.children), names(&second.children));
}

#[test]
fn dotfiles_are_hidden_from_snapshots() {
    let children = vec![leaf(".git", true), leaf("src", true), leaf(".env", false)];
    let n = build_tree("ws".to_string(), "/ws".to_string(), true, children);
    assert_eq!(names(&n.children), vec!["src"]);
}

#[test]
fn non_directory_is_a_leaf() {
    let n = build_tree(
        "main.tex".to_string(),
        "/ws/main.tex".to_string(),
        false,
        vec![leaf("stray", false)],
    );
    assert!(!n.is_dir);
    assert!(n.children.is_empty());
}

#[test]
fn node_fields_are_preserved() {
    let n = build_tree("ws".to_string(), "/ws".to_string(), true, Vec::new());
    assert_eq!(n.name, "ws");
    assert_eq!(n.path, "/ws");
    assert!(n.is_dir);
    assert!(n.children.is_empty());
}

#[test]
fn sorting_is_case_sensitive_by_code_point() {
    let sorted = sort_nodes(vec![leaf("alpha", false), leaf("Beta", false), leaf("Zeta", false)]);
    assert_eq!(names(&sorted), vec!["Beta", "Zeta", "alpha"]);
}

#[test]
fn sorting_keeps_every_entry() {
    let sorted = sort_nodes(vec![
        leaf("c", false),
        leaf("a", true),
        leaf("b", false),
        leaf("d", true),
    ]);
    assert_eq!(names(&sorted), vec!["a", "d", "b", "c"]);
}

#[test]
fn equal_names_of_different_kinds_put_directory_first() {
    let sorted = sort_nodes(vec![leaf("x", false), leaf("x", true)]);
    assert!(sorted[0].is_dir);
    assert!(!sorted[1].is_dir);
}

#[test]
fn visibility_is_decided_by_the_leading_dot() {
    assert!(visible_name("src"));
    assert!(visible_name(""));
    assert!(!visible_name(".git"));
    assert!(!visible_name("."));
}
