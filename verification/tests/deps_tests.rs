use yarn_autocompletions::manifest::fetch_installed_packages;
use yarn_autocompletions::resolver::{return_dependencies, return_dev_dependencies};

fn strings(names: &[&str]) -> Vec<String> {
    names.iter().map(|n| n.to_string()).collect()
}

#[test]
fn test_fetch_installed_packages() {
    let dependencies = strings(&["a", "b"]);
    let dev_dependencies = strings(&["c", "d"]);
    let output = fetch_installed_packages(&dependencies, &dev_dependencies);
    let output = output.trim();
    let mut packages: Vec<&str> = output.split('\n').collect();
    packages.sort();
    assert_eq!(packages, ["a", "b", "c", "d"]);
}

#[test]
fn test_return_dependencies() {
    let custom = strings(&["vue"]);
    let exclude = strings(&["axios"]);
    let output = return_dependencies(&custom, &exclude);
    assert!(output.contains("vue"));
    assert!(!output.contains("axios"));
}

#[test]
fn test_return_dev_dependencies() {
    let custom = strings(&["@babel/core"]);
    let exclude = strings(&["gulp"]);
    let output = return_dev_dependencies(&custom, &exclude);
    assert!(output.contains("@babel/core"));
    assert!(!output.contains("gulp"));
}

#[test]
fn manifest_with_empty_sections_renders_bare_newline() {
    let none: Vec<String> = Vec::new();
    assert_eq!(fetch_installed_packages(&none, &none), "\n");
    assert_eq!(fetch_installed_packages(&strings(&["a"]), &none), "a\n");
    assert_eq!(fetch_installed_packages(&none, &strings(&["b"])), "\nb");
}

#[test]
fn duplicate_addition_collapses_to_one_entry() {
    let custom = strings(&["vue"]);
    let exclude: Vec<String> = Vec::new();
    let output = return_dependencies(&custom, &exclude);
    let occurrences = output.lines().filter(|line| *line == "vue").count();
    assert_eq!(occurrences, 1);
}

#[test]
fn excluding_an_absent_name_changes_nothing() {
    let custom = strings(&["svelte"]);
    let with_exclusion = return_dependencies(&custom, &strings(&["left-pad"]));
    let without_exclusion = return_dependencies(&custom, &Vec::new());
    assert_eq!(with_exclusion, without_exclusion);
}

#[test]
fn missing_override_yields_curated_list_exactly() {
    let none: Vec<String> = Vec::new();
    let output = return_dependencies(&none, &none);
    assert_eq!(output, "vue\nvuex\nreact\nlodash\nexpress\nreact-dom");
}

#[test]
fn missing_override_yields_curated_dev_list_exactly() {
    let none: Vec<String> = Vec::new();
    let output = return_dev_dependencies(&none, &none);
    assert_eq!(output, "gulp\nmocha\neslint\nwebpack\nprettier\ntypescript");
}

#[test]
fn exclusion_removes_curated_and_custom_names_alike() {
    let custom = strings(&["svelte", "react"]);
    let exclude = strings(&["react", "svelte", "lodash"]);
    let output = return_dependencies(&custom, &exclude);
    let lines: Vec<&str> = output.lines().collect();
    assert_eq!(lines, ["vue", "vuex", "express", "react-dom"]);
}

#[test]
fn custom_additions_follow_curated_names_in_order() {
    let custom = strings(&["axios", "vue", "svelte"]);
    let exclude: Vec<String> = Vec::new();
    let output = return_dependencies(&custom, &exclude);
    let lines: Vec<&str> = output.lines().collect();
    assert_eq!(
        lines,
        ["vue", "vuex", "react", "lodash", "express", "react-dom", "axios", "svelte"]
    );
}

#[test]
fn dev_exclusion_does_not_touch_other_dev_names() {
    let custom: Vec<String> = Vec::new();
    let exclude = strings(&["webpack"]);
    let output = return_dev_dependencies(&custom, &exclude);
    let lines: Vec<&str> = output.lines().collect();
    assert_eq!(lines, ["gulp", "mocha", "eslint", "prettier", "typescript"]);
}
