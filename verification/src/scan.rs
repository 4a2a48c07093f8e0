//! Aggregation: turning the raw data a directory walk produced — top-level
//! names, recovered hidden indicators, file extensions and sizes, manifest
//! texts — into one report, and merging several roots byte-exactly.

use vstd::prelude::*;

verus! {

use vstd::string::StringExecFns;
use crate::dependencies::{detect_all, opt_view, spec_detect_all, Manifests};
use crate::frameworks::{
    detect_file_indicators, into_sorted_entries, sig_set, spec_file_indicators_fw,
    spec_file_indicators_infra, spec_infra_indicators_a, SignalMap,
};
use crate::languages::{
    assoc_contains, assoc_idx, build_language_list, is_binary_extension, record_language,
    spec_language_list, tally_files, LangBytes,
};
use crate::output::{lang_views, sig_view, sig_views, ScanResult, SignalEntry};
use crate::sorting::{lemma_sig_order_total, sig_order};
use crate::strings::contains_name;
use crate::structures::{detect_structures, structure_tags};

/// One file the walk reported: its extension — empty for a file without
/// one — and its size in bytes.
pub struct FileRecord {
    pub ext: String,
    pub size: u64,
}

/// The views of a file list as (extension, size) pairs.
pub open spec fn file_views(files: Seq<FileRecord>) -> Seq<(Seq<char>, u64)> {
    files.map_values(|f: FileRecord| (f.ext@, f.size))
}

/// The raw per-root data a directory walk produces: the names of the root's
/// direct children, the hidden indicator paths found present on disk, every
/// walked file's extension and size, and the root-level manifest texts.
pub struct RawScan {
    pub top_level_names: Vec<String>,
    pub hidden_present: Vec<String>,
    pub files: Vec<FileRecord>,
    pub manifests: Manifests,
}

/// The fixed list of conventionally noisy directory names a walk skips.
pub open spec fn is_skip_dir_name(name: Seq<char>) -> bool {
    ||| name == "node_modules"@
    ||| name == "vendor"@
    ||| name == "__pycache__"@
    ||| name == "target"@
    ||| name == "build"@
    ||| name == "dist"@
    ||| name == ".git"@
}

/// Whether a directory name stands in the fixed skip list.
pub fn is_skip_dir(name: &str) -> (r: bool)
    ensures
        r == is_skip_dir_name(name@),
{
    crate::strings::str_eq(name, "node_modules") || crate::strings::str_eq(name, "vendor")
        || crate::strings::str_eq(name, "__pycache__") || crate::strings::str_eq(name, "target")
        || crate::strings::str_eq(name, "build") || crate::strings::str_eq(name, "dist")
        || crate::strings::str_eq(name, ".git")
}

/// The fixed list of dotted paths that carry detection value although the
/// walk suppresses hidden entries.
pub open spec fn hidden_indicator_list() -> Seq<Seq<char>> {
    seq![
        ".github/workflows"@,
        ".gitlab-ci.yml"@,
        ".circleci"@,
        ".eslintrc.js"@,
        ".eslintrc.json"@,
        ".prettierrc"@,
        ".travis.yml"@,
    ]
}

/// The hidden indicator paths to probe on disk after the walk.
pub fn hidden_indicator_paths() -> (r: Vec<String>)
    ensures
        r.deep_view() == hidden_indicator_list(),
{
    let mut r: Vec<String> = Vec::new();
    r.push(String::from_str(".github/workflows"));
    r.push(String::from_str(".gitlab-ci.yml"));
    r.push(String::from_str(".circleci"));
    r.push(String::from_str(".eslintrc.js"));
    r.push(String::from_str(".eslintrc.json"));
    r.push(String::from_str(".prettierrc"));
    r.push(String::from_str(".travis.yml"));
    proof {
        assert(r.deep_view() =~= hidden_indicator_list());
    }
    r
}

/// Injecting recovered hidden indicators into the top-level name list: each
/// present indicator that the list does not hold yet is appended, in order.
pub open spec fn inject_hidden(names: Seq<Seq<char>>, present: Seq<Seq<char>>) -> Seq<Seq<char>>
    decreases present.len(),
{
    if present.len() == 0 {
        names
    } else {
        let prev = inject_hidden(names, present.drop_last());
        if prev.contains(present.last()) {
            prev
        } else {
            prev.push(present.last())
        }
    }
}

/// Append each hidden indicator that was found present on disk and is not
/// already among the top-level names, compensating for the walk's default
/// hidden-path suppression.
pub fn check_hidden_indicators(top_level_names: &mut Vec<String>, present: &Vec<String>)
    ensures
        final(top_level_names).deep_view() == inject_hidden(
            old(top_level_names).deep_view(),
            present.deep_view(),
        ),
{
    let n: usize = present.len();
    let mut i: usize = 0;
    proof {
        assert(present.deep_view().take(0) =~= Seq::<Seq<char>>::empty());
    }
    while i < n
        invariant
            n == present.len(),
            n == present.deep_view().len(),
            0 <= i <= n,
            top_level_names.deep_view() == inject_hidden(
                old(top_level_names).deep_view(),
                present.deep_view().take(i as int),
            ),
            forall|j: int| 0 <= j < n ==> present.deep_view()[j] == present[j]@,
        decreases n - i,
    {
        let ghost prev = top_level_names.deep_view();
        proof {
            assert(present.deep_view().take(i + 1).drop_last() =~= present.deep_view().take(
                i as int,
            ));
            assert(present.deep_view().take(i + 1).last() == present.deep_view()[i as int]);
        }
        if !contains_name(top_level_names, present[i].as_str()) {
            let item: String = present[i].clone();
            top_level_names.push(item);
            proof {
                assert(top_level_names.deep_view() =~= prev.push(present.deep_view()[i as int]));
            }
        }
        i = i + 1;
    }
    proof {
        assert(present.deep_view().take(n as int) =~= present.deep_view());
    }
}

/// A copy of a name list, view for view.
fn clone_names(v: &Vec<String>) -> (r: Vec<String>)
    ensures
        r.deep_view() == v.deep_view(),
{
    let n: usize = v.len();
    let mut r: Vec<String> = Vec::new();
    let mut i: usize = 0;
    while i < n
        invariant
            n == v.len(),
            n == v.deep_view().len(),
            0 <= i <= n,
            r.deep_view().len() == i,
            forall|j: int| 0 <= j < i ==> r.deep_view()[j] == v.deep_view()[j],
            forall|j: int| 0 <= j < n ==> v.deep_view()[j] == v[j]@,
        decreases n - i,
    {
        let item: String = v[i].clone();
        r.push(item);
        i = i + 1;
    }
    proof {
        assert(r.deep_view() =~= v.deep_view());
    }
    r
}

/// The single-root report as a function of the raw scan data: the four
/// report fields in their final order.
pub open spec fn spec_scan_root(
    names: Seq<Seq<char>>,
    hidden: Seq<Seq<char>>,
    files: Seq<(Seq<char>, u64)>,
    package_json: Option<Seq<char>>,
    requirements_txt: Option<Seq<char>>,
    pyproject_toml: Option<Seq<char>>,
    cargo_toml: Option<Seq<char>>,
    gemfile: Option<Seq<char>>,
    go_mod: Option<Seq<char>>,
    composer_json: Option<Seq<char>>,
) -> (
    Seq<(Seq<char>, Seq<char>, u64)>,
    Seq<(Seq<char>, Seq<char>)>,
    Seq<Seq<char>>,
    Seq<(Seq<char>, Seq<char>)>,
) {
    let names2 = inject_hidden(names, hidden);
    (
        spec_language_list(tally_files(Seq::<(Seq<char>, u64)>::empty(), files)),
        spec_detect_all(
            spec_file_indicators_fw(Seq::<(Seq<char>, Seq<char>)>::empty(), names2),
            package_json,
            requirements_txt,
            pyproject_toml,
            cargo_toml,
            gemfile,
            go_mod,
            composer_json,
        ).sort_by(sig_order()),
        structure_tags(names2),
        spec_file_indicators_infra(Seq::<(Seq<char>, Seq<char>)>::empty(), names2).sort_by(
            sig_order(),
        ),
    )
}

/// The views of a report's four fields.
pub open spec fn result_views(r: ScanResult) -> (
    Seq<(Seq<char>, Seq<char>, u64)>,
    Seq<(Seq<char>, Seq<char>)>,
    Seq<Seq<char>>,
    Seq<(Seq<char>, Seq<char>)>,
) {
    (
        lang_views(r.languages@),
        sig_views(r.frameworks@),
        r.project_structures.deep_view(),
        sig_views(r.infrastructure_signals@),
    )
}

/// Aggregate one root's raw scan data into the report: accumulate the byte
/// tally over the non-binary files, recover the hidden indicators, run the
/// indicator, structure and dependency detectors, and present the sorted
/// report.
pub fn scan_root(raw: &RawScan) -> (r: ScanResult)
    ensures
        result_views(r) == spec_scan_root(
            raw.top_level_names.deep_view(),
            raw.hidden_present.deep_view(),
            file_views(raw.files@),
            opt_view(raw.manifests.package_json),
            opt_view(raw.manifests.requirements_txt),
            opt_view(raw.manifests.pyproject_toml),
            opt_view(raw.manifests.cargo_toml),
            opt_view(raw.manifests.gemfile),
            opt_view(raw.manifests.go_mod),
            opt_view(raw.manifests.composer_json),
        ),
{
    let ghost fviews = file_views(raw.files@);
    let mut bytes_by_lang = LangBytes::new();
    let nf: usize = raw.files.len();
    let mut i: usize = 0;
    proof {
        assert(fviews.take(0) =~= Seq::<(Seq<char>, u64)>::empty());
    }
    while i < nf
        invariant
            nf == raw.files.len(),
            nf == fviews.len(),
            fviews == file_views(raw.files@),
            0 <= i <= nf,
            bytes_by_lang.wf(),
            bytes_by_lang.pairs() == tally_files(
                Seq::<(Seq<char>, u64)>::empty(),
                fviews.take(i as int),
            ),
            forall|j: int| 0 <= j < nf ==> fviews[j] == (raw.files@[j].ext@, raw.files@[j].size),
        decreases nf - i,
    {
        proof {
            assert(fviews.take(i + 1).drop_last() =~= fviews.take(i as int));
            assert(fviews.take(i + 1).last() == fviews[i as int]);
        }
        if !is_binary_extension(raw.files[i].ext.as_str()) {
            record_language(raw.files[i].ext.as_str(), raw.files[i].size, &mut bytes_by_lang);
        }
        i = i + 1;
    }
    proof {
        assert(fviews.take(nf as int) =~= fviews);
    }
    let mut names = clone_names(&raw.top_level_names);
    check_hidden_indicators(&mut names, &raw.hidden_present);
    let mut frameworks = SignalMap::new();
    let mut infra = SignalMap::new();
    detect_file_indicators(&names, &mut frameworks, &mut infra);
    let project_structures = detect_structures(&names);
    detect_all(&raw.manifests, &mut frameworks);
    let languages = build_language_list(&bytes_by_lang);
    let frameworks_sorted = into_sorted_entries(&frameworks);
    let infra_sorted = into_sorted_entries(&infra);
    ScanResult {
        languages,
        frameworks: frameworks_sorted,
        project_structures,
        infrastructure_signals: infra_sorted,
    }
}

/// Setting each of a list of resolved signals in turn, in list order.
pub open spec fn sig_set_all(
    p0: Seq<(Seq<char>, Seq<char>)>,
    es: Seq<(Seq<char>, Seq<char>)>,
) -> Seq<(Seq<char>, Seq<char>)>
    decreases es.len(),
{
    if es.len() == 0 {
        p0
    } else {
        let prev = sig_set_all(p0, es.drop_last());
        crate::frameworks::sig_set(prev, es.last().0, es.last().1)
    }
}

/// Record every entry of a per-root signal list in the merged map, in list
/// order, so that on a name held by several roots the later root wins.
fn insert_entries(m: &mut SignalMap, entries: &Vec<SignalEntry>)
    requires
        old(m).wf(),
    ensures
        final(m).wf(),
        final(m).pairs() == sig_set_all(old(m).pairs(), sig_views(entries@)),
{
    let ghost es = sig_views(entries@);
    let n: usize = entries.len();
    let mut i: usize = 0;
    proof {
        assert(es.take(0) =~= Seq::<(Seq<char>, Seq<char>)>::empty());
    }
    while i < n
        invariant
            n == entries.len(),
            n == es.len(),
            es == sig_views(entries@),
            0 <= i <= n,
            m.wf(),
            m.pairs() == sig_set_all(old(m).pairs(), es.take(i as int)),
            forall|j: int| 0 <= j < n ==> es[j] == sig_view(entries@[j]),
        decreases n - i,
    {
        proof {
            assert(es.take(i + 1).drop_last() =~= es.take(i as int));
            assert(es.take(i + 1).last() == es[i as int]);
        }
        m.insert(entries[i].name.as_str(), entries[i].category.as_str());
        i = i + 1;
    }
    proof {
        assert(es.take(n as int) =~= es);
    }
}

/// The top-level names of a root after hidden-indicator injection.
pub open spec fn root_names2(raw: RawScan) -> Seq<Seq<char>> {
    inject_hidden(raw.top_level_names.deep_view(), raw.hidden_present.deep_view())
}

/// One root's sorted generic signal list.
pub open spec fn root_fw_sorted(raw: RawScan) -> Seq<(Seq<char>, Seq<char>)> {
    spec_detect_all(
        spec_file_indicators_fw(Seq::<(Seq<char>, Seq<char>)>::empty(), root_names2(raw)),
        opt_view(raw.manifests.package_json),
        opt_view(raw.manifests.requirements_txt),
        opt_view(raw.manifests.pyproject_toml),
        opt_view(raw.manifests.cargo_toml),
        opt_view(raw.manifests.gemfile),
        opt_view(raw.manifests.go_mod),
        opt_view(raw.manifests.composer_json),
    ).sort_by(sig_order())
}

/// One root's sorted infrastructure signal list.
pub open spec fn root_infra_sorted(raw: RawScan) -> Seq<(Seq<char>, Seq<char>)> {
    spec_file_indicators_infra(Seq::<(Seq<char>, Seq<char>)>::empty(), root_names2(raw)).sort_by(
        sig_order(),
    )
}

/// The byte tally over all roots' files: counts are summed across roots
/// before any percentage is computed.
pub open spec fn merged_tally(raws: Seq<RawScan>) -> Seq<(Seq<char>, u64)>
    decreases raws.len(),
{
    if raws.len() == 0 {
        Seq::<(Seq<char>, u64)>::empty()
    } else {
        tally_files(merged_tally(raws.drop_last()), file_views(raws.last().files@))
    }
}

/// The merged generic signal map: every root's resolved signals set in root
/// order, so a later root wins the category on a name collision.
pub open spec fn merged_fw_pairs(raws: Seq<RawScan>) -> Seq<(Seq<char>, Seq<char>)>
    decreases raws.len(),
{
    if raws.len() == 0 {
        Seq::<(Seq<char>, Seq<char>)>::empty()
    } else {
        sig_set_all(merged_fw_pairs(raws.drop_last()), root_fw_sorted(raws.last()))
    }
}

/// The merged infrastructure signal map.
pub open spec fn merged_infra_pairs(raws: Seq<RawScan>) -> Seq<(Seq<char>, Seq<char>)>
    decreases raws.len(),
{
    if raws.len() == 0 {
        Seq::<(Seq<char>, Seq<char>)>::empty()
    } else {
        sig_set_all(merged_infra_pairs(raws.drop_last()), root_infra_sorted(raws.last()))
    }
}

/// Whether any root's layout detection yields the given tag.
pub open spec fn any_root_tag(raws: Seq<RawScan>, tag: Seq<char>) -> bool {
    exists|i: int|
        0 <= i < raws.len() && #[trigger] structure_tags(root_names2(raws[i])).contains(tag)
}

/// The union of all roots' layout tags, in the fixed lexicographic order.
pub open spec fn merged_tags(raws: Seq<RawScan>) -> Seq<Seq<char>> {
    let r = Seq::<Seq<char>>::empty();
    let r = if any_root_tag(raws, "makefile"@) {
        r.push("makefile"@)
    } else {
        r
    };
    let r = if any_root_tag(raws, "monorepo"@) {
        r.push("monorepo"@)
    } else {
        r
    };
    let r = if any_root_tag(raws, "node_project"@) {
        r.push("node_project"@)
    } else {
        r
    };
    let r = if any_root_tag(raws, "python_package"@) {
        r.push("python_package"@)
    } else {
        r
    };
    let r = if any_root_tag(raws, "src_layout"@) {
        r.push("src_layout"@)
    } else {
        r
    };
    r
}

proof fn lemma_any_tag_step(raws: Seq<RawScan>, i: int, tag: Seq<char>)
    requires
        0 <= i < raws.len(),
    ensures
        any_root_tag(raws.take(i + 1), tag) == (any_root_tag(raws.take(i), tag)
            || structure_tags(root_names2(raws[i])).contains(tag)),
{
    let a = raws.take(i);
    let b = raws.take(i + 1);
    assert(b[i] == raws[i]);
    if any_root_tag(b, tag) {
        let j = choose|j: int|
            0 <= j < b.len() && #[trigger] structure_tags(root_names2(b[j])).contains(tag);
        if j < i {
            assert(a[j] == b[j]);
            assert(structure_tags(root_names2(a[j])).contains(tag));
        } else {
            assert(b[j] == raws[i]);
        }
    }
    if any_root_tag(a, tag) {
        let j = choose|j: int|
            0 <= j < a.len() && #[trigger] structure_tags(root_names2(a[j])).contains(tag);
        assert(b[j] == a[j]);
        assert(structure_tags(root_names2(b[j])).contains(tag));
    }
    if structure_tags(root_names2(raws[i])).contains(tag) {
        assert(structure_tags(root_names2(b[i])).contains(tag));
    }
}

/// Scan several roots and merge the reports: byte counts are summed across
/// roots before the single percentage conversion, signal maps are unioned
/// with the later root winning a name collision, and layout tags are
/// unioned into one sorted set.
pub fn scan_roots(raws: &Vec<RawScan>) -> (r: ScanResult)
    ensures
        result_views(r) == (
            spec_language_list(merged_tally(raws@)),
            merged_fw_pairs(raws@).sort_by(sig_order()),
            merged_tags(raws@),
            merged_infra_pairs(raws@).sort_by(sig_order()),
        ),
{
    let n: usize = raws.len();
    let mut bytes_by_lang = LangBytes::new();
    let mut frameworks = SignalMap::new();
    let mut infra = SignalMap::new();
    let mut has_makefile: bool = false;
    let mut has_monorepo: bool = false;
    let mut has_node: bool = false;
    let mut has_python: bool = false;
    let mut has_src: bool = false;
    let mut i: usize = 0;
    proof {
        assert(raws@.take(0) =~= Seq::<RawScan>::empty());
        assert(bytes_by_lang.pairs() =~= merged_tally(raws@.take(0)));
        assert(frameworks.pairs() =~= merged_fw_pairs(raws@.take(0)));
        assert(infra.pairs() =~= merged_infra_pairs(raws@.take(0)));
    }
    while i < n
        invariant
            n == raws.len(),
            0 <= i <= n,
            bytes_by_lang.wf(),
            frameworks.wf(),
            infra.wf(),
            bytes_by_lang.pairs() == merged_tally(raws@.take(i as int)),
            frameworks.pairs() == merged_fw_pairs(raws@.take(i as int)),
            infra.pairs() == merged_infra_pairs(raws@.take(i as int)),
            has_makefile == any_root_tag(raws@.take(i as int), "makefile"@),
            has_monorepo == any_root_tag(raws@.take(i as int), "monorepo"@),
            has_node == any_root_tag(raws@.take(i as int), "node_project"@),
            has_python == any_root_tag(raws@.take(i as int), "python_package"@),
            has_src == any_root_tag(raws@.take(i as int), "src_layout"@),
        decreases n - i,
    {
        let ri = scan_root(&raws[i]);
        proof {
            assert(sig_views(ri.frameworks@) == root_fw_sorted(raws@[i as int]));
            assert(sig_views(ri.infrastructure_signals@) == root_infra_sorted(raws@[i as int]));
            assert(ri.project_structures.deep_view() == structure_tags(root_names2(
                raws@[i as int],
            )));
        }
        insert_entries(&mut frameworks, &ri.frameworks);
        insert_entries(&mut infra, &ri.infrastructure_signals);
        let m1 = contains_name(&ri.project_structures, "makefile");
        has_makefile = has_makefile || m1;
        let m2 = contains_name(&ri.project_structures, "monorepo");
        has_monorepo = has_monorepo || m2;
        let m3 = contains_name(&ri.project_structures, "node_project");
        has_node = has_node || m3;
        let m4 = contains_name(&ri.project_structures, "python_package");
        has_python = has_python || m4;
        let m5 = contains_name(&ri.project_structures, "src_layout");
        has_src = has_src || m5;
        let ghost tprev = bytes_by_lang.pairs();
        let ghost fv = file_views(raws@[i as int].files@);
        let nf: usize = raws[i].files.len();
        let mut j: usize = 0;
        proof {
            assert(fv.take(0) =~= Seq::<(Seq<char>, u64)>::empty());
            assert(tally_files(tprev, fv.take(0)) == tprev);
        }
        while j < nf
            invariant
                n == raws.len(),
                0 <= i < n,
                nf == raws@[i as int].files.len(),
                nf == fv.len(),
                fv == file_views(raws@[i as int].files@),
                0 <= j <= nf,
                bytes_by_lang.wf(),
                bytes_by_lang.pairs() == tally_files(tprev, fv.take(j as int)),
                forall|k: int|
                    0 <= k < nf ==> fv[k] == (raws@[i as int].files@[k].ext@,
                    raws@[i as int].files@[k].size),
            decreases nf - j,
        {
            proof {
                assert(fv.take(j + 1).drop_last() =~= fv.take(j as int));
                assert(fv.take(j + 1).last() == fv[j as int]);
            }
            if !is_binary_extension(raws[i].files[j].ext.as_str()) {
                record_language(
                    raws[i].files[j].ext.as_str(),
                    raws[i].files[j].size,
                    &mut bytes_by_lang,
                );
            }
            j = j + 1;
        }
        proof {
            assert(fv.take(nf as int) =~= fv);
            assert(raws@.take(i + 1).drop_last() =~= raws@.take(i as int));
            assert(raws@.take(i + 1).last() == raws@[i as int]);
            lemma_any_tag_step(raws@, i as int, "makefile"@);
            lemma_any_tag_step(raws@, i as int, "monorepo"@);
            lemma_any_tag_step(raws@, i as int, "node_project"@);
            lemma_any_tag_step(raws@, i as int, "python_package"@);
            lemma_any_tag_step(raws@, i as int, "src_layout"@);
        }
        i = i + 1;
    }
    proof {
        assert(raws@.take(n as int) =~= raws@);
    }
    let mut project_structures: Vec<String> = Vec::new();
    if has_makefile {
        project_structures.push(String::from_str("makefile"));
    }
    if has_monorepo {
        project_structures.push(String::from_str("monorepo"));
    }
    if has_node {
        project_structures.push(String::from_str("node_project"));
    }
    if has_python {
        project_structures.push(String::from_str("python_package"));
    }
    if has_src {
        project_structures.push(String::from_str("src_layout"));
    }
    proof {
        assert(project_structures.deep_view() =~= merged_tags(raws@));
    }
    let languages = build_language_list(&bytes_by_lang);
    let frameworks_sorted = into_sorted_entries(&frameworks);
    let infra_sorted = into_sorted_entries(&infra);
    let r = ScanResult {
        languages,
        frameworks: frameworks_sorted,
        project_structures,
        infrastructure_signals: infra_sorted,
    };
    proof {
        assert(result_views(r) == (
            spec_language_list(merged_tally(raws@)),
            merged_fw_pairs(raws@).sort_by(sig_order()),
            merged_tags(raws@),
            merged_infra_pairs(raws@).sort_by(sig_order()),
        ));
    }
    r
}


/// Setting a list of pairs with pairwise distinct keys into an empty map
/// reproduces the list itself.
proof fn lemma_sig_set_all_identity(es: Seq<(Seq<char>, Seq<char>)>)
    requires
        crate::languages::keys_distinct(es),
    ensures
        sig_set_all(Seq::<(Seq<char>, Seq<char>)>::empty(), es) == es,
    decreases es.len(),
{
    if es.len() == 0 {
        assert(sig_set_all(Seq::<(Seq<char>, Seq<char>)>::empty(), es) =~= es);
    } else {
        let dl = es.drop_last();
        assert(forall|i: int| 0 <= i < dl.len() ==> dl[i] == es[i]);
        lemma_sig_set_all_identity(dl);
        let k = es.last().0;
        assert(!assoc_contains(dl, k)) by {
            if assoc_contains(dl, k) {
                let i = assoc_idx(dl, k);
                assert(0 <= i < dl.len() && dl[i].0 == k);
                assert(es[i].0 == es[es.len() - 1].0);
                assert(false);
            }
        }
        assert((k, es.last().1) == es.last());
        assert(dl.push(es.last()) =~= es);
    }
}

/// Sorting a sequence that is already in report order leaves it unchanged.
proof fn lemma_sort_sorted_identity(es: Seq<(Seq<char>, Seq<char>)>)
    requires
        vstd::relations::sorted_by(es, sig_order()),
    ensures
        es.sort_by(sig_order()) == es,
{
    lemma_sig_order_total();
    es.lemma_sort_by_ensures(sig_order());
    vstd::seq_lib::lemma_sorted_unique(es.sort_by(sig_order()), es, sig_order());
}

/// One root's sorted generic signal list has pairwise distinct names.
proof fn lemma_root_fw_sorted_distinct(raw: RawScan)
    ensures
        crate::languages::keys_distinct(root_fw_sorted(raw)),
{
    let base = spec_file_indicators_fw(Seq::<(Seq<char>, Seq<char>)>::empty(), root_names2(raw));
    crate::frameworks::lemma_file_indicators_fw_distinct(
        Seq::<(Seq<char>, Seq<char>)>::empty(),
        root_names2(raw),
    );
    crate::dependencies::lemma_detect_all_distinct(
        base,
        opt_view(raw.manifests.package_json),
        opt_view(raw.manifests.requirements_txt),
        opt_view(raw.manifests.pyproject_toml),
        opt_view(raw.manifests.cargo_toml),
        opt_view(raw.manifests.gemfile),
        opt_view(raw.manifests.go_mod),
        opt_view(raw.manifests.composer_json),
    );
    let chain = spec_detect_all(
        base,
        opt_view(raw.manifests.package_json),
        opt_view(raw.manifests.requirements_txt),
        opt_view(raw.manifests.pyproject_toml),
        opt_view(raw.manifests.cargo_toml),
        opt_view(raw.manifests.gemfile),
        opt_view(raw.manifests.go_mod),
        opt_view(raw.manifests.composer_json),
    );
    lemma_sig_order_total();
    chain.lemma_sort_by_ensures(sig_order());
    crate::frameworks::lemma_keys_distinct_permutation(chain, chain.sort_by(sig_order()));
}

/// One root's sorted infrastructure signal list has pairwise distinct names.
proof fn lemma_root_infra_sorted_distinct(raw: RawScan)
    ensures
        crate::languages::keys_distinct(root_infra_sorted(raw)),
{
    let chain = spec_file_indicators_infra(
        Seq::<(Seq<char>, Seq<char>)>::empty(),
        root_names2(raw),
    );
    crate::frameworks::lemma_file_indicators_infra_distinct(
        Seq::<(Seq<char>, Seq<char>)>::empty(),
        root_names2(raw),
    );
    lemma_sig_order_total();
    chain.lemma_sort_by_ensures(sig_order());
    crate::frameworks::lemma_keys_distinct_permutation(chain, chain.sort_by(sig_order()));
}

/// LAW: a multi-root merge of a single root equals the single-root scan:
/// every one of the four report fields comes out identical, so scanning one
/// directory through the merge path changes nothing.
pub proof fn lemma_single_root_merge(raw: RawScan)
    ensures
        ({
            let merged = (
                spec_language_list(merged_tally(seq![raw])),
                merged_fw_pairs(seq![raw]).sort_by(sig_order()),
                merged_tags(seq![raw]),
                merged_infra_pairs(seq![raw]).sort_by(sig_order()),
            );
            merged == spec_scan_root(
                raw.top_level_names.deep_view(),
                raw.hidden_present.deep_view(),
                file_views(raw.files@),
                opt_view(raw.manifests.package_json),
                opt_view(raw.manifests.requirements_txt),
                opt_view(raw.manifests.pyproject_toml),
                opt_view(raw.manifests.cargo_toml),
                opt_view(raw.manifests.gemfile),
                opt_view(raw.manifests.go_mod),
                opt_view(raw.manifests.composer_json),
            )
        }),
{
    let s1: Seq<RawScan> = seq![raw];
    assert(s1.drop_last() =~= Seq::<RawScan>::empty());
    assert(s1.last() == raw);
    let names2 = root_names2(raw);
    assert(merged_tally(Seq::<RawScan>::empty()) == Seq::<(Seq<char>, u64)>::empty());
    assert(merged_fw_pairs(Seq::<RawScan>::empty()) == Seq::<(Seq<char>, Seq<char>)>::empty());
    assert(merged_infra_pairs(Seq::<RawScan>::empty()) == Seq::<(Seq<char>, Seq<char>)>::empty());
    assert(sig_set_all(
        Seq::<(Seq<char>, Seq<char>)>::empty(),
        root_fw_sorted(raw),
    ) == sig_set_all(merged_fw_pairs(s1.drop_last()), root_fw_sorted(s1.last())));

    assert(merged_tally(s1) == tally_files(
        Seq::<(Seq<char>, u64)>::empty(),
        file_views(raw.files@),
    ));

    lemma_root_fw_sorted_distinct(raw);
    assert(merged_fw_pairs(s1) == sig_set_all(
        Seq::<(Seq<char>, Seq<char>)>::empty(),
        root_fw_sorted(raw),
    ));
    lemma_sig_set_all_identity(root_fw_sorted(raw));
    let fw_chain = spec_detect_all(
        spec_file_indicators_fw(Seq::<(Seq<char>, Seq<char>)>::empty(), names2),
        opt_view(raw.manifests.package_json),
        opt_view(raw.manifests.requirements_txt),
        opt_view(raw.manifests.pyproject_toml),
        opt_view(raw.manifests.cargo_toml),
        opt_view(raw.manifests.gemfile),
        opt_view(raw.manifests.go_mod),
        opt_view(raw.manifests.composer_json),
    );
    lemma_sig_order_total();
    fw_chain.lemma_sort_by_ensures(sig_order());
    lemma_sort_sorted_identity(root_fw_sorted(raw));

    lemma_root_infra_sorted_distinct(raw);
    assert(merged_infra_pairs(s1) == sig_set_all(
        Seq::<(Seq<char>, Seq<char>)>::empty(),
        root_infra_sorted(raw),
    ));
    lemma_sig_set_all_identity(root_infra_sorted(raw));
    let infra_chain = spec_file_indicators_infra(
        Seq::<(Seq<char>, Seq<char>)>::empty(),
        names2,
    );
    infra_chain.lemma_sort_by_ensures(sig_order());
    lemma_sort_sorted_identity(root_infra_sorted(raw));

    crate::structures::lemma_structure_tag_conditions(names2);
    let st = structure_tags(names2);
    assert(any_root_tag(s1, "makefile"@) == st.contains("makefile"@)) by {
        if any_root_tag(s1, "makefile"@) {
            let i = choose|i: int|
                0 <= i < s1.len() && #[trigger] structure_tags(root_names2(s1[i])).contains(
                    "makefile"@,
                );
            assert(s1[i] == raw);
        }
        if st.contains("makefile"@) {
            assert(structure_tags(root_names2(s1[0])).contains("makefile"@));
        }
    }
    assert(any_root_tag(s1, "monorepo"@) == st.contains("monorepo"@)) by {
        if any_root_tag(s1, "monorepo"@) {
            let i = choose|i: int|
                0 <= i < s1.len() && #[trigger] structure_tags(root_names2(s1[i])).contains(
                    "monorepo"@,
                );
            assert(s1[i] == raw);
        }
        if st.contains("monorepo"@) {
            assert(structure_tags(root_names2(s1[0])).contains("monorepo"@));
        }
    }
    assert(any_root_tag(s1, "node_project"@) == st.contains("node_project"@)) by {
        if any_root_tag(s1, "node_project"@) {
            let i = choose|i: int|
                0 <= i < s1.len() && #[trigger] structure_tags(root_names2(s1[i])).contains(
                    "node_project"@,
                );
            assert(s1[i] == raw);
        }
        if st.contains("node_project"@) {
            assert(structure_tags(root_names2(s1[0])).contains("node_project"@));
        }
    }
    assert(any_root_tag(s1, "python_package"@) == st.contains("python_package"@)) by {
        if any_root_tag(s1, "python_package"@) {
            let i = choose|i: int|
                0 <= i < s1.len() && #[trigger] structure_tags(root_names2(s1[i])).contains(
                    "python_package"@,
                );
            assert(s1[i] == raw);
        }
        if st.contains("python_package"@) {
            assert(structure_tags(root_names2(s1[0])).contains("python_package"@));
        }
    }
    assert(any_root_tag(s1, "src_layout"@) == st.contains("src_layout"@)) by {
        if any_root_tag(s1, "src_layout"@) {
            let i = choose|i: int|
                0 <= i < s1.len() && #[trigger] structure_tags(root_names2(s1[i])).contains(
                    "src_layout"@,
                );
            assert(s1[i] == raw);
        }
        if st.contains("src_layout"@) {
            assert(structure_tags(root_names2(s1[0])).contains("src_layout"@));
        }
    }
    assert(merged_tags(s1) == structure_tags(names2));
}

/// LAW: the aggregation is deterministic. For one raw input there is
/// exactly one report: the ordering rules, including the language
/// tie-break, leave no freedom, so two scans of an unmodified directory
/// produce identical results.
pub proof fn lemma_scan_deterministic(
    names: Seq<Seq<char>>,
    hidden: Seq<Seq<char>>,
    files: Seq<(Seq<char>, u64)>,
    package_json: Option<Seq<char>>,
    requirements_txt: Option<Seq<char>>,
    pyproject_toml: Option<Seq<char>>,
    cargo_toml: Option<Seq<char>>,
    gemfile: Option<Seq<char>>,
    go_mod: Option<Seq<char>>,
    composer_json: Option<Seq<char>>,
    r1: (
        Seq<(Seq<char>, Seq<char>, u64)>,
        Seq<(Seq<char>, Seq<char>)>,
        Seq<Seq<char>>,
        Seq<(Seq<char>, Seq<char>)>,
    ),
    r2: (
        Seq<(Seq<char>, Seq<char>, u64)>,
        Seq<(Seq<char>, Seq<char>)>,
        Seq<Seq<char>>,
        Seq<(Seq<char>, Seq<char>)>,
    ),
)
    requires
        r1 == spec_scan_root(
            names,
            hidden,
            files,
            package_json,
            requirements_txt,
            pyproject_toml,
            cargo_toml,
            gemfile,
            go_mod,
            composer_json,
        ),
        r2 == spec_scan_root(
            names,
            hidden,
            files,
            package_json,
            requirements_txt,
            pyproject_toml,
            cargo_toml,
            gemfile,
            go_mod,
            composer_json,
        ),
    ensures
        r1 == r2,
{
}

proof fn lemma_inject_keeps(names: Seq<Seq<char>>, present: Seq<Seq<char>>, x: Seq<char>)
    requires
        present.contains(x),
    ensures
        inject_hidden(names, present).contains(x),
    decreases present.len(),
{
    let r = inject_hidden(names, present);
    let prev = inject_hidden(names, present.drop_last());
    if present.last() == x {
        if prev.contains(x) {
        } else {
            assert(r[r.len() - 1] == x);
        }
    } else {
        let k = choose|k: int| 0 <= k < present.len() && present[k] == x;
        assert(present.drop_last()[k] == x);
        lemma_inject_keeps(names, present.drop_last(), x);
        if !prev.contains(present.last()) {
            let idx = choose|idx: int| 0 <= idx < prev.len() && prev[idx] == x;
            assert(r[idx] == x);
        }
    }
}

proof fn lemma_sig_set_keeps_infra(s: Seq<(Seq<char>, Seq<char>)>, k: Seq<char>, x: Seq<char>)
    requires
        exists|i: int| 0 <= i < s.len() && s[i] == (x, "infrastructure"@),
    ensures
        exists|i: int|
            0 <= i < sig_set(s, k, "infrastructure"@).len() && sig_set(s, k, "infrastructure"@)[i]
                == (x, "infrastructure"@),
{
    let c = "infrastructure"@;
    let i0 = choose|i: int| 0 <= i < s.len() && s[i] == (x, c);
    if assoc_contains(s, k) {
        let ci = assoc_idx(s, k);
        if ci == i0 {
            assert(sig_set(s, k, c)[i0] == (k, c));
            assert(s[i0].0 == x && s[ci].0 == k);
        } else {
            assert(sig_set(s, k, c)[i0] == s[i0]);
        }
    } else {
        assert(sig_set(s, k, c)[i0] == s[i0]);
    }
}

#[verifier::rlimit(100)]
proof fn lemma_infra_a_has_github(p0: Seq<(Seq<char>, Seq<char>)>, names: Seq<Seq<char>>)
    requires
        names.contains(".github/workflows"@),
    ensures
        exists|i: int|
            0 <= i < spec_infra_indicators_a(p0, names).len() && spec_infra_indicators_a(
                p0,
                names,
            )[i] == ("GitHub Actions"@, "infrastructure"@),
{
    let c = "infrastructure"@;
    let gh = "GitHub Actions"@;
    let p1 = if names.contains("Dockerfile"@) {
        sig_set(p0, "Docker"@, c)
    } else {
        p0
    };
    let p2 = if names.contains("docker-compose.yml"@) {
        sig_set(p1, "Docker Compose"@, c)
    } else {
        p1
    };
    let p3 = if names.contains("docker-compose.yaml"@) {
        sig_set(p2, "Docker Compose"@, c)
    } else {
        p2
    };
    let p4 = sig_set(p3, gh, c);
    if assoc_contains(p3, gh) {
        let ci = assoc_idx(p3, gh);
        assert(p4[ci] == (gh, c));
    } else {
        assert(p4[p3.len() as int] == (gh, c));
    }
    assert(exists|i: int| 0 <= i < p4.len() && p4[i] == (gh, c));
    let p5 = if names.contains(".gitlab-ci.yml"@) {
        lemma_sig_set_keeps_infra(p4, "GitLab CI"@, gh);
        sig_set(p4, "GitLab CI"@, c)
    } else {
        p4
    };
    let p6 = if names.contains(".circleci"@) {
        lemma_sig_set_keeps_infra(p5, "CircleCI"@, gh);
        sig_set(p5, "CircleCI"@, c)
    } else {
        p5
    };
    let p7 = if names.contains("Jenkinsfile"@) {
        lemma_sig_set_keeps_infra(p6, "Jenkins"@, gh);
        sig_set(p6, "Jenkins"@, c)
    } else {
        p6
    };
    let p8 = if names.contains("terraform"@) {
        lemma_sig_set_keeps_infra(p7, "Terraform"@, gh);
        sig_set(p7, "Terraform"@, c)
    } else {
        p7
    };
    let p9 = if names.contains("kubernetes"@) {
        lemma_sig_set_keeps_infra(p8, "Kubernetes"@, gh);
        sig_set(p8, "Kubernetes"@, c)
    } else {
        p8
    };
    let p10 = if names.contains("k8s"@) {
        lemma_sig_set_keeps_infra(p9, "Kubernetes"@, gh);
        sig_set(p9, "Kubernetes"@, c)
    } else {
        p9
    };
    assert(p10 == spec_infra_indicators_a(p0, names));
}

#[verifier::rlimit(100)]
proof fn lemma_infra_b_keeps_github(p10: Seq<(Seq<char>, Seq<char>)>, names: Seq<Seq<char>>)
    requires
        exists|i: int| 0 <= i < p10.len() && p10[i] == ("GitHub Actions"@, "infrastructure"@),
    ensures
        exists|i: int|
            0 <= i < crate::frameworks::spec_infra_indicators_b(p10, names).len()
                && crate::frameworks::spec_infra_indicators_b(p10, names)[i] == (
            "GitHub Actions"@, "infrastructure"@),
{
    let c = "infrastructure"@;
    let gh = "GitHub Actions"@;
    let p11 = if names.contains("helm"@) {
        lemma_sig_set_keeps_infra(p10, "Helm"@, gh);
        sig_set(p10, "Helm"@, c)
    } else {
        p10
    };
    let p12 = if names.contains(".travis.yml"@) {
        lemma_sig_set_keeps_infra(p11, "Travis CI"@, gh);
        sig_set(p11, "Travis CI"@, c)
    } else {
        p11
    };
    let p13 = if names.contains("netlify.toml"@) {
        lemma_sig_set_keeps_infra(p12, "Netlify"@, gh);
        sig_set(p12, "Netlify"@, c)
    } else {
        p12
    };
    let p14 = if names.contains("vercel.json"@) {
        lemma_sig_set_keeps_infra(p13, "Vercel"@, gh);
        sig_set(p13, "Vercel"@, c)
    } else {
        p13
    };
    let p15 = if names.contains("fly.toml"@) {
        lemma_sig_set_keeps_infra(p14, "Fly.io"@, gh);
        sig_set(p14, "Fly.io"@, c)
    } else {
        p14
    };
    let p16 = if names.contains("render.yaml"@) {
        lemma_sig_set_keeps_infra(p15, "Render"@, gh);
        sig_set(p15, "Render"@, c)
    } else {
        p15
    };
    let p17 = if names.contains("nginx.conf"@) {
        lemma_sig_set_keeps_infra(p16, "Nginx"@, gh);
        sig_set(p16, "Nginx"@, c)
    } else {
        p16
    };
    let p18 = if names.contains("Vagrantfile"@) {
        lemma_sig_set_keeps_infra(p17, "Vagrant"@, gh);
        sig_set(p17, "Vagrant"@, c)
    } else {
        p17
    };
    let p19 = if names.contains("ansible"@) {
        lemma_sig_set_keeps_infra(p18, "Ansible"@, gh);
        sig_set(p18, "Ansible"@, c)
    } else {
        p18
    };
    assert(p19 == crate::frameworks::spec_infra_indicators_b(p10, names));
}

proof fn lemma_infra_has_github(p0: Seq<(Seq<char>, Seq<char>)>, names: Seq<Seq<char>>)
    requires
        names.contains(".github/workflows"@),
    ensures
        exists|i: int|
            0 <= i < spec_file_indicators_infra(p0, names).len() && spec_file_indicators_infra(
                p0,
                names,
            )[i] == ("GitHub Actions"@, "infrastructure"@),
{
    lemma_infra_a_has_github(p0, names);
    let a = spec_infra_indicators_a(p0, names);
    lemma_infra_b_keeps_github(a, names);
    let b = crate::frameworks::spec_infra_indicators_b(a, names);
    assert(spec_file_indicators_infra(p0, names) == b);
    let w = choose|i: int| 0 <= i < b.len() && b[i] == ("GitHub Actions"@, "infrastructure"@);
    assert(spec_file_indicators_infra(p0, names)[w] == ("GitHub Actions"@, "infrastructure"@));
}

/// LAW: a hidden continuous-integration workflow directory is detected as
/// an infrastructure signal despite the walk's default hidden-path
/// suppression: whenever the on-disk probe found ".github/workflows", the
/// report's infrastructure signals include GitHub Actions, whatever names
/// the walk itself reported.
pub proof fn lemma_hidden_ci_detected(names: Seq<Seq<char>>, hidden: Seq<Seq<char>>)
    requires
        hidden.contains(".github/workflows"@),
    ensures
        ({
            let sorted = spec_file_indicators_infra(
                Seq::<(Seq<char>, Seq<char>)>::empty(),
                inject_hidden(names, hidden),
            ).sort_by(sig_order());
            exists|i: int|
                0 <= i < sorted.len() && sorted[i] == ("GitHub Actions"@, "infrastructure"@)
        }),
{
    broadcast use vstd::seq_lib::group_to_multiset_ensures;
    broadcast use vstd::multiset::group_multiset_axioms;

    lemma_inject_keeps(names, hidden, ".github/workflows"@);
    let names2 = inject_hidden(names, hidden);
    let infra = spec_file_indicators_infra(Seq::<(Seq<char>, Seq<char>)>::empty(), names2);
    lemma_infra_has_github(Seq::<(Seq<char>, Seq<char>)>::empty(), names2);
    lemma_sig_order_total();
    infra.lemma_sort_by_ensures(sig_order());
    let pair = ("GitHub Actions"@, "infrastructure"@);
    assert(infra.contains(pair));
    assert(infra.to_multiset().count(pair) > 0);
    let sorted = infra.sort_by(sig_order());
    assert(sorted.to_multiset().count(pair) > 0);
    assert(sorted.contains(pair));
}

} // verus!
