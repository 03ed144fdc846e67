use codemerge::error::Error;
use codemerge::filters::{apply_budget_filters, combine_ignores, default_filters, merge_patterns};
use codemerge::record::FileData;
use codemerge::tree::{decimal_chars, format_tree, TreeNode};

fn rec(path: &str, tokens: usize) -> FileData {
    FileData { path: path.to_string(), content: "x".to_string(), tokens, error: None }
}

#[test]
fn combine_puts_static_filters_first() {
    let user = vec!["*.tmp".to_string()];
    let all = combine_ignores(&user);
    assert_eq!(all.len(), 46);
    assert_eq!(all[0], "**/.git/**");
    assert_eq!(all[45], "*.tmp");
    assert!(all.contains(&"**/node_modules/**".to_string()));
}

#[test]
fn merge_prefers_cli_patterns() {
    let cli = vec!["a".to_string()];
    let cfg = vec!["b".to_string()];
    assert_eq!(merge_patterns(&cli, &cfg), cli);
    assert_eq!(merge_patterns(&vec![], &cfg), cfg);
    assert_eq!(default_filters(), vec!["**".to_string()]);
}

#[test]
fn budget_filters_drop_empty_and_out_of_range() {
    let files = vec![rec("a", 0), rec("b", 5), rec("c", 50), rec("d", 500)];
    let kept = apply_budget_filters(files, 10, 100, true, true);
    let names: Vec<&str> = kept.iter().map(|r| r.path.as_str()).collect();
    assert_eq!(names, vec!["c"]);
    let files = vec![rec("a", 0), rec("b", 5)];
    let kept = apply_budget_filters(files, 10, 100, false, false);
    assert_eq!(kept.len(), 1);
}

#[test]
fn tree_formatting() {
    let mut src = TreeNode::new("src".to_string());
    src.add_child(TreeNode { path: "main.rs".to_string(), tokens: 12, children: vec![] });
    src.add_child(TreeNode { path: "lib.rs".to_string(), tokens: 30, children: vec![] });
    assert_eq!(src.tokens, 42);
    let mut root = TreeNode::new(String::new());
    root.add_child(src);
    let text = format_tree(&root, "", true);
    assert_eq!(
        text,
        "└── src (42 tokens)\n    ├── main.rs (12 tokens)\n    └── lib.rs (30 tokens)\n"
    );
}

#[test]
fn decimal_digits() {
    let s: String = decimal_chars(1204).into_iter().collect();
    assert_eq!(s, "1204");
    let z: String = decimal_chars(0).into_iter().collect();
    assert_eq!(z, "0");
}

#[test]
fn error_description_names_kind() {
    assert_eq!(Error::Filter("bad".to_string()).describe(), "Filter error: bad");
}
