//! Project-layout detection: a small fixed rule set over the set of
//! top-level entry names, producing a sorted list of layout tags.

use vstd::prelude::*;

verus! {

use vstd::string::StringExecFns;
use crate::sorting::lemma_push_contains;
use crate::strings::contains_name;

/// The layout tags for a set of top-level names. Every rule fires
/// independently; the tags are listed in their lexicographic order.
pub open spec fn structure_tags(names: Seq<Seq<char>>) -> Seq<Seq<char>> {
    let r = Seq::<Seq<char>>::empty();
    let r = if names.contains("Makefile"@) {
        r.push("makefile"@)
    } else {
        r
    };
    let r = if names.contains("packages"@) || names.contains("libs"@) {
        r.push("monorepo"@)
    } else {
        r
    };
    let r = if names.contains("package.json"@) {
        r.push("node_project"@)
    } else {
        r
    };
    let r = if names.contains("setup.py"@) || names.contains("pyproject.toml"@) {
        r.push("python_package"@)
    } else {
        r
    };
    let r = if names.contains("src"@) {
        r.push("src_layout"@)
    } else {
        r
    };
    r
}

/// Detect project structures from the top-level entry names: a `src`
/// directory, a monorepo aggregation directory, Python packaging markers, a
/// Node package manifest and a build-automation file each yield their tag.
/// The output is sorted and free of duplicates.
pub fn detect_structures(top_level_names: &Vec<String>) -> (r: Vec<String>)
    ensures
        r.deep_view() == structure_tags(top_level_names.deep_view()),
{
    let mut r: Vec<String> = Vec::new();
    if contains_name(top_level_names, "Makefile") {
        r.push(String::from_str("makefile"));
    }
    if contains_name(top_level_names, "packages") || contains_name(top_level_names, "libs") {
        r.push(String::from_str("monorepo"));
    }
    if contains_name(top_level_names, "package.json") {
        r.push(String::from_str("node_project"));
    }
    if contains_name(top_level_names, "setup.py") || contains_name(
        top_level_names,
        "pyproject.toml",
    ) {
        r.push(String::from_str("python_package"));
    }
    if contains_name(top_level_names, "src") {
        r.push(String::from_str("src_layout"));
    }
    proof {
        assert(r.deep_view() =~= structure_tags(top_level_names.deep_view()));
    }
    r
}


/// Which names each layout tag stands for: a tag occurs in the output
/// exactly when its rule fires.
pub proof fn lemma_structure_tag_conditions(names: Seq<Seq<char>>)
    ensures
        structure_tags(names).contains("makefile"@) == names.contains("Makefile"@),
        structure_tags(names).contains("monorepo"@) == (names.contains("packages"@)
            || names.contains("libs"@)),
        structure_tags(names).contains("node_project"@) == names.contains("package.json"@),
        structure_tags(names).contains("python_package"@) == (names.contains("setup.py"@)
            || names.contains("pyproject.toml"@)),
        structure_tags(names).contains("src_layout"@) == names.contains("src"@),
{
    reveal_strlit("makefile");
    reveal_strlit("monorepo");
    reveal_strlit("node_project");
    reveal_strlit("python_package");
    reveal_strlit("src_layout");
    assert("makefile"@.len() == 8 && "monorepo"@.len() == 8 && "node_project"@.len() == 12
        && "python_package"@.len() == 14 && "src_layout"@.len() == 10);
    assert("makefile"@[1] == 'a' && "monorepo"@[1] == 'o');
    let tags = seq!["makefile"@, "monorepo"@, "node_project"@, "python_package"@, "src_layout"@];
    let r0 = Seq::<Seq<char>>::empty();
    let r1 = if names.contains("Makefile"@) {
        r0.push("makefile"@)
    } else {
        r0
    };
    let r2 = if names.contains("packages"@) || names.contains("libs"@) {
        r1.push("monorepo"@)
    } else {
        r1
    };
    let r3 = if names.contains("package.json"@) {
        r2.push("node_project"@)
    } else {
        r2
    };
    let r4 = if names.contains("setup.py"@) || names.contains("pyproject.toml"@) {
        r3.push("python_package"@)
    } else {
        r3
    };
    let r5 = if names.contains("src"@) {
        r4.push("src_layout"@)
    } else {
        r4
    };
    assert(r5 == structure_tags(names));
    assert forall|k: int| 0 <= k < tags.len() implies !r0.contains(#[trigger] tags[k]) by {}
    lemma_push_contains(r0, "makefile"@, tags[0]);
    lemma_push_contains(r0, "makefile"@, tags[1]);
    lemma_push_contains(r0, "makefile"@, tags[2]);
    lemma_push_contains(r0, "makefile"@, tags[3]);
    lemma_push_contains(r0, "makefile"@, tags[4]);
    lemma_push_contains(r1, "monorepo"@, tags[0]);
    lemma_push_contains(r1, "monorepo"@, tags[1]);
    lemma_push_contains(r1, "monorepo"@, tags[2]);
    lemma_push_contains(r1, "monorepo"@, tags[3]);
    lemma_push_contains(r1, "monorepo"@, tags[4]);
    lemma_push_contains(r2, "node_project"@, tags[0]);
    lemma_push_contains(r2, "node_project"@, tags[1]);
    lemma_push_contains(r2, "node_project"@, tags[2]);
    lemma_push_contains(r2, "node_project"@, tags[3]);
    lemma_push_contains(r2, "node_project"@, tags[4]);
    lemma_push_contains(r3, "python_package"@, tags[0]);
    lemma_push_contains(r3, "python_package"@, tags[1]);
    lemma_push_contains(r3, "python_package"@, tags[2]);
    lemma_push_contains(r3, "python_package"@, tags[3]);
    lemma_push_contains(r3, "python_package"@, tags[4]);
    lemma_push_contains(r4, "src_layout"@, tags[0]);
    lemma_push_contains(r4, "src_layout"@, tags[1]);
    lemma_push_contains(r4, "src_layout"@, tags[2]);
    lemma_push_contains(r4, "src_layout"@, tags[3]);
    lemma_push_contains(r4, "src_layout"@, tags[4]);
}

} // verus!
