//! The curated table of well-known package names, compiled into the library
//! and partitioned into the normal and dev flavors.

use vstd::prelude::*;
use crate::names::name_views;

verus! {

/// The curated names offered for the normal dependency flavor.
pub open spec fn curated_dependency_names() -> Seq<Seq<char>> {
    seq!["vue"@, "vuex"@, "react"@, "lodash"@, "express"@, "react-dom"@]
}

/// The curated names offered for the dev dependency flavor.
pub open spec fn curated_dev_dependency_names() -> Seq<Seq<char>> {
    seq!["gulp"@, "mocha"@, "eslint"@, "webpack"@, "prettier"@, "typescript"@]
}

/// The curated normal table repeats no name.
pub proof fn lemma_curated_dependency_names_no_duplicates()
    ensures
        curated_dependency_names().no_duplicates(),
{
    reveal_strlit("vue");
    reveal_strlit("vuex");
    reveal_strlit("react");
    reveal_strlit("lodash");
    reveal_strlit("express");
    reveal_strlit("react-dom");
    let s = curated_dependency_names();
    assert forall|i: int, j: int| 0 <= i < s.len() && 0 <= j < s.len() && i != j
        implies s[i] != s[j] by {
        let left = s[i].len();
        let right = s[j].len();
        assert(left != right);
    }
}

/// The curated dev table repeats no name.
pub proof fn lemma_curated_dev_dependency_names_no_duplicates()
    ensures
        curated_dev_dependency_names().no_duplicates(),
{
    reveal_strlit("gulp");
    reveal_strlit("mocha");
    reveal_strlit("eslint");
    reveal_strlit("webpack");
    reveal_strlit("prettier");
    reveal_strlit("typescript");
    let s = curated_dev_dependency_names();
    assert forall|i: int, j: int| 0 <= i < s.len() && 0 <= j < s.len() && i != j
        implies s[i] != s[j] by {
        let left = s[i].len();
        let right = s[j].len();
        assert(left != right);
    }
}

/// The curated normal table as strings.
pub fn curated_dependencies() -> (curated: Vec<String>)
    ensures
        name_views(curated@) == curated_dependency_names(),
{
    let mut curated: Vec<String> = Vec::new();
    curated.push(String::from_str("vue"));
    curated.push(String::from_str("vuex"));
    curated.push(String::from_str("react"));
    curated.push(String::from_str("lodash"));
    curated.push(String::from_str("express"));
    curated.push(String::from_str("react-dom"));
    proof {
        assert(name_views(curated@) =~= curated_dependency_names());
    }
    curated
}

/// The curated dev table as strings.
pub fn curated_dev_dependencies() -> (curated: Vec<String>)
    ensures
        name_views(curated@) == curated_dev_dependency_names(),
{
    let mut curated: Vec<String> = Vec::new();
    curated.push(String::from_str("gulp"));
    curated.push(String::from_str("mocha"));
    curated.push(String::from_str("eslint"));
    curated.push(String::from_str("webpack"));
    curated.push(String::from_str("prettier"));
    curated.push(String::from_str("typescript"));
    proof {
        assert(name_views(curated@) =~= curated_dev_dependency_names());
    }
    curated
}

} // verus!
