use yarn_autocompletions::modules::{list_node_modules, ModuleEntry, ScopedEntry};
use yarn_autocompletions::names::contains_name;
use yarn_autocompletions::render::render_lines;

fn plain_dir(name: &str) -> ModuleEntry {
    ModuleEntry { name: name.to_string(), is_dir: true, entries: Vec::new() }
}

fn scope_dir(name: &str, children: &[(&str, bool)]) -> ModuleEntry {
    let entries = children
        .iter()
        .map(|(child, is_dir)| ScopedEntry { name: child.to_string(), is_dir: *is_dir })
        .collect();
    ModuleEntry { name: name.to_string(), is_dir: true, entries }
}

#[test]
fn scoped_modules_are_reconstructed_and_noise_is_excluded() {
    let entries = vec![
        scope_dir("@scope", &[("pkg-a", true), ("pkg-b", true)]),
        plain_dir("pkg-c"),
        plain_dir(".cache"),
        ModuleEntry { name: "README.md".to_string(), is_dir: false, entries: Vec::new() },
    ];
    let output = list_node_modules(&entries);
    let mut names: Vec<&str> = output.lines().collect();
    names.sort();
    assert_eq!(names, ["@scope/pkg-a", "@scope/pkg-b", "pkg-c"]);
}

#[test]
fn scope_directory_skips_non_directory_children() {
    let entries = vec![scope_dir("@types", &[("node", true), ("LICENSE", false)])];
    assert_eq!(list_node_modules(&entries), "@types/node");
}

#[test]
fn empty_scope_directory_contributes_nothing() {
    let entries = vec![scope_dir("@empty", &[]), plain_dir("lodash")];
    assert_eq!(list_node_modules(&entries), "lodash");
}

#[test]
fn empty_modules_root_renders_empty_string() {
    let entries: Vec<ModuleEntry> = Vec::new();
    assert_eq!(list_node_modules(&entries), "");
}

#[test]
fn enumeration_order_is_kept() {
    let entries = vec![plain_dir("zebra"), plain_dir("apple")];
    assert_eq!(list_node_modules(&entries), "zebra\napple");
}

#[test]
fn render_lines_joins_without_trailing_newline() {
    let names: Vec<String> = Vec::new();
    assert_eq!(render_lines(&names), "");
    let names = vec!["one".to_string()];
    assert_eq!(render_lines(&names), "one");
    let names = vec!["one".to_string(), "two".to_string()];
    assert_eq!(render_lines(&names), "one\ntwo");
}

#[test]
fn contains_name_finds_exact_strings_only() {
    let names = vec!["vue".to_string(), "react".to_string()];
    assert!(contains_name(&names, &"vue".to_string()));
    assert!(!contains_name(&names, &"vu".to_string()));
    assert!(!contains_name(&names, &"vuex".to_string()));
}
