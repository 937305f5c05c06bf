use move_mv_llvm_compiler::cstr_cache::CStrCache;
use move_mv_llvm_compiler::naming::{
    block_name, cfg_dot_file, dot_view_requested, label_cfg_graph, local_name,
    replace_first_occurrence,
};

#[test]
fn cache_gives_each_string_one_value() {
    let mut c: CStrCache<u32> = CStrCache::new();
    assert_eq!(c.get("a"), None);
    assert!(c.insert("a", 1));
    assert_eq!(c.get("a"), Some(&1));
    // A second request for the same string keeps the first value.
    assert!(!c.insert("a", 2));
    assert_eq!(c.get("a"), Some(&1));
    assert!(c.insert("b", 3));
    assert_eq!(c.get("a"), Some(&1));
    assert_eq!(c.get("b"), Some(&3));
    assert_eq!(c.get("c"), None);
}

#[test]
fn block_and_local_names() {
    assert_eq!(block_name(0), "bb_0");
    assert_eq!(block_name(12), "bb_12");
    assert_eq!(block_name(305), "bb_305");
    assert_eq!(local_name(7), "local_7");
    assert_eq!(local_name(10), "local_10");
}

#[test]
fn dot_files() {
    assert_eq!(cfg_dot_file("v:out/dir", "m_f"), "out/dir/m_f_cfg.dot");
    assert_eq!(cfg_dot_file("w:", "m_f"), "m_f_cfg.dot");
    assert!(dot_view_requested("v:out"));
    assert!(!dot_view_requested("w:out"));
    assert!(!dot_view_requested("vv"));
}

#[test]
fn graph_labels() {
    assert_eq!(
        label_cfg_graph("digraph {\n  a -> b\n}\n", "m_f"),
        "digraph { label=\"Function: m_f\"\n\n  a -> b\n}\n"
    );
    assert_eq!(label_cfg_graph("graph {}", "f"), "graph {}");
    assert_eq!(replace_first_occurrence("abab", "ab", "X"), "Xab");
    assert_eq!(replace_first_occurrence("abc", "", "X"), "Xabc");
    assert_eq!(replace_first_occurrence("abc", "zz", "X"), "abc");
}
