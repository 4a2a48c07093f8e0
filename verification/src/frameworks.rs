//! The name-to-category signal map, the fixed file/directory indicator table,
//! and the conversion of a signal map into the report's sorted entry list.

use vstd::prelude::*;

verus! {

use vstd::relations::sorted_by;
use vstd::string::StringExecFns;
use crate::languages::{assoc_contains, assoc_idx, keys_distinct};
use crate::output::{sig_view, sig_views, SignalEntry};
use crate::sorting::{lemma_insert_to_multiset, lemma_sig_order_total, sig_le, sig_order};
use crate::strings::{contains_name, str_eq, str_le_dec};

/// Setting a key in an association sequence: an existing entry's value is
/// replaced — the last writer wins — and a new key is appended.
pub open spec fn sig_set(
    s: Seq<(Seq<char>, Seq<char>)>,
    k: Seq<char>,
    v: Seq<char>,
) -> Seq<(Seq<char>, Seq<char>)> {
    if assoc_contains(s, k) {
        s.update(assoc_idx(s, k), (k, v))
    } else {
        s.push((k, v))
    }
}

/// A set of detected signals: category keyed by display name, each name held
/// at most once, insertion order kept.
pub struct SignalMap {
    entries: Vec<(String, String)>,
}

impl SignalMap {
    /// The signals as (name, category) pairs, in insertion order.
    pub closed spec fn pairs(&self) -> Seq<(Seq<char>, Seq<char>)> {
        self.entries@.map_values(|p: (String, String)| (p.0@, p.1@))
    }

    /// Every display name occurs at most once.
    pub open spec fn wf(&self) -> bool {
        keys_distinct(self.pairs())
    }

    /// An empty signal map.
    pub fn new() -> (r: Self)
        ensures
            r.pairs() == Seq::<(Seq<char>, Seq<char>)>::empty(),
            r.wf(),
    {
        let r = SignalMap { entries: Vec::new() };
        proof {
            assert(r.pairs() =~= Seq::<(Seq<char>, Seq<char>)>::empty());
        }
        r
    }

    /// Record a signal. A name recorded before keeps its place and takes the
    /// new category; a new name is appended.
    pub fn insert(&mut self, name: &str, category: &str)
        requires
            old(self).wf(),
        ensures
            final(self).wf(),
            final(self).pairs() == sig_set(old(self).pairs(), name@, category@),
    {
        let ghost s0 = self.pairs();
        let n: usize = self.entries.len();
        let mut i: usize = 0;
        while i < n
            invariant
                n == self.entries.len(),
                0 <= i <= n,
                self.pairs() == s0,
                old(self).pairs() == s0,
                keys_distinct(s0),
                forall|j: int| 0 <= j < i ==> s0[j].0 != name@,
            decreases n - i,
        {
            if str_eq(self.entries[i].0.as_str(), name) {
                proof {
                    assert(s0[i as int].0 == name@);
                    assert(assoc_contains(s0, name@));
                    let ci = assoc_idx(s0, name@);
                    assert(0 <= ci < s0.len() && s0[ci].0 == name@);
                    if ci != i as int {
                        if ci < i as int {
                            assert(s0[ci].0 != s0[i as int].0);
                        } else {
                            assert(s0[i as int].0 != s0[ci].0);
                        }
                        assert(false);
                    }
                }
                let pair = self.entries.remove(i);
                self.entries.insert(i, (pair.0, String::from_str(category)));
                proof {
                    assert(self.pairs() =~= sig_set(s0, name@, category@));
                    assert forall|a: int, b: int| 0 <= a < b < self.pairs().len()
                        implies self.pairs()[a].0 != self.pairs()[b].0 by {
                        assert(self.pairs()[a].0 == s0[a].0);
                        assert(self.pairs()[b].0 == s0[b].0);
                    }
                }
                return;
            }
            i = i + 1;
        }
        self.entries.push((String::from_str(name), String::from_str(category)));
        proof {
            assert(!assoc_contains(s0, name@));
            assert(self.pairs() =~= s0.push((name@, category@)));
            assert forall|a: int, b: int| 0 <= a < b < self.pairs().len()
                implies self.pairs()[a].0 != self.pairs()[b].0 by {
                if b < s0.len() {
                    assert(self.pairs()[a].0 == s0[a].0);
                    assert(self.pairs()[b].0 == s0[b].0);
                } else {
                    assert(self.pairs()[b].0 == name@);
                    assert(self.pairs()[a].0 == s0[a].0);
                }
            }
        }
    }

    /// How many signals are recorded.
    pub fn len(&self) -> (n: usize)
        ensures
            n == self.pairs().len(),
    {
        self.entries.len()
    }

    /// Look a signal's category up by its display name.
    pub fn get(&self, name: &str) -> (r: Option<&String>)
        ensures
            match r {
                Some(c) => exists|i: int|
                    0 <= i < self.pairs().len() && self.pairs()[i] == (name@, c@),
                None => !assoc_contains(self.pairs(), name@),
            },
    {
        let n: usize = self.entries.len();
        let mut i: usize = 0;
        while i < n
            invariant
                n == self.entries.len(),
                0 <= i <= n,
                forall|j: int| 0 <= j < i ==> self.pairs()[j].0 != name@,
            decreases n - i,
        {
            if str_eq(self.entries[i].0.as_str(), name) {
                proof {
                    assert(self.pairs()[i as int] == (name@, self.entries@[i as int].1@));
                }
                return Some(&self.entries[i].1);
            }
            i = i + 1;
        }
        None
    }
}

/// The first half of the non-infrastructure indicator table.
pub open spec fn spec_fw_indicators_a(
    p0: Seq<(Seq<char>, Seq<char>)>,
    names: Seq<Seq<char>>,
) -> Seq<(Seq<char>, Seq<char>)> {
    let p = p0;
    let p = if names.contains(".eslintrc.js"@) { sig_set(p, "ESLint"@, "tool"@) } else { p };
    let p = if names.contains(".eslintrc.json"@) { sig_set(p, "ESLint"@, "tool"@) } else { p };
    let p = if names.contains("tailwind.config.js"@) {
        sig_set(p, "Tailwind CSS"@, "framework"@)
    } else {
        p
    };
    let p = if names.contains("tailwind.config.ts"@) {
        sig_set(p, "Tailwind CSS"@, "framework"@)
    } else {
        p
    };
    let p = if names.contains("tsconfig.json"@) {
        sig_set(p, "TypeScript"@, "language"@)
    } else {
        p
    };
    let p = if names.contains("webpack.config.js"@) { sig_set(p, "Webpack"@, "tool"@) } else { p };
    let p = if names.contains("vite.config.ts"@) { sig_set(p, "Vite"@, "tool"@) } else { p };
    let p = if names.contains("vite.config.js"@) { sig_set(p, "Vite"@, "tool"@) } else { p };
    let p = if names.contains(".prettierrc"@) { sig_set(p, "Prettier"@, "tool"@) } else { p };
    let p = if names.contains("jest.config.js"@) { sig_set(p, "Jest"@, "tool"@) } else { p };
    let p = if names.contains("jest.config.ts"@) { sig_set(p, "Jest"@, "tool"@) } else { p };
    p
}

/// The second half of the non-infrastructure indicator table.
pub open spec fn spec_fw_indicators_b(
    p0: Seq<(Seq<char>, Seq<char>)>,
    names: Seq<Seq<char>>,
) -> Seq<(Seq<char>, Seq<char>)> {
    let p = p0;
    let p = if names.contains("pytest.ini"@) { sig_set(p, "pytest"@, "tool"@) } else { p };
    let p = if names.contains("pyproject.toml"@) {
        sig_set(p, "Python Package"@, "tool"@)
    } else {
        p
    };
    let p = if names.contains("Cargo.toml"@) { sig_set(p, "Rust"@, "language"@) } else { p };
    let p = if names.contains("go.mod"@) { sig_set(p, "Go"@, "language"@) } else { p };
    let p = if names.contains("Gemfile"@) { sig_set(p, "Ruby"@, "language"@) } else { p };
    let p = if names.contains("composer.json"@) { sig_set(p, "PHP"@, "language"@) } else { p };
    let p = if names.contains("build.gradle"@) { sig_set(p, "Gradle"@, "tool"@) } else { p };
    let p = if names.contains("pom.xml"@) { sig_set(p, "Maven"@, "tool"@) } else { p };
    p
}

/// What the fixed indicator table adds to the generic signal map for a given
/// set of top-level names: every non-infrastructure indicator that is
/// present records its display name and category, in table order.
pub open spec fn spec_file_indicators_fw(
    p0: Seq<(Seq<char>, Seq<char>)>,
    names: Seq<Seq<char>>,
) -> Seq<(Seq<char>, Seq<char>)> {
    spec_fw_indicators_b(spec_fw_indicators_a(p0, names), names)
}

/// The first half of the infrastructure indicator table.
pub open spec fn spec_infra_indicators_a(
    p0: Seq<(Seq<char>, Seq<char>)>,
    names: Seq<Seq<char>>,
) -> Seq<(Seq<char>, Seq<char>)> {
    let c = "infrastructure"@;
    let p = p0;
    let p = if names.contains("Dockerfile"@) { sig_set(p, "Docker"@, c) } else { p };
    let p = if names.contains("docker-compose.yml"@) {
        sig_set(p, "Docker Compose"@, c)
    } else {
        p
    };
    let p = if names.contains("docker-compose.yaml"@) {
        sig_set(p, "Docker Compose"@, c)
    } else {
        p
    };
    let p = if names.contains(".github/workflows"@) { sig_set(p, "GitHub Actions"@, c) } else { p };
    let p = if names.contains(".gitlab-ci.yml"@) { sig_set(p, "GitLab CI"@, c) } else { p };
    let p = if names.contains(".circleci"@) { sig_set(p, "CircleCI"@, c) } else { p };
    let p = if names.contains("Jenkinsfile"@) { sig_set(p, "Jenkins"@, c) } else { p };
    let p = if names.contains("terraform"@) { sig_set(p, "Terraform"@, c) } else { p };
    let p = if names.contains("kubernetes"@) { sig_set(p, "Kubernetes"@, c) } else { p };
    let p = if names.contains("k8s"@) { sig_set(p, "Kubernetes"@, c) } else { p };
    p
}

/// The second half of the infrastructure indicator table.
pub open spec fn spec_infra_indicators_b(
    p0: Seq<(Seq<char>, Seq<char>)>,
    names: Seq<Seq<char>>,
) -> Seq<(Seq<char>, Seq<char>)> {
    let c = "infrastructure"@;
    let p = p0;
    let p = if names.contains("helm"@) { sig_set(p, "Helm"@, c) } else { p };
    let p = if names.contains(".travis.yml"@) { sig_set(p, "Travis CI"@, c) } else { p };
    let p = if names.contains("netlify.toml"@) { sig_set(p, "Netlify"@, c) } else { p };
    let p = if names.contains("vercel.json"@) { sig_set(p, "Vercel"@, c) } else { p };
    let p = if names.contains("fly.toml"@) { sig_set(p, "Fly.io"@, c) } else { p };
    let p = if names.contains("render.yaml"@) { sig_set(p, "Render"@, c) } else { p };
    let p = if names.contains("nginx.conf"@) { sig_set(p, "Nginx"@, c) } else { p };
    let p = if names.contains("Vagrantfile"@) { sig_set(p, "Vagrant"@, c) } else { p };
    let p = if names.contains("ansible"@) { sig_set(p, "Ansible"@, c) } else { p };
    p
}

/// What the fixed indicator table adds to the infrastructure signal map:
/// every infrastructure indicator that is present records its display name
/// under the category "infrastructure", in table order.
pub open spec fn spec_file_indicators_infra(
    p0: Seq<(Seq<char>, Seq<char>)>,
    names: Seq<Seq<char>>,
) -> Seq<(Seq<char>, Seq<char>)> {
    spec_infra_indicators_b(spec_infra_indicators_a(p0, names), names)
}

fn detect_infra_a(top_level_names: &Vec<String>, infra: &mut SignalMap)
    requires
        old(infra).wf(),
    ensures
        final(infra).wf(),
        final(infra).pairs() == spec_infra_indicators_a(
            old(infra).pairs(),
            top_level_names.deep_view(),
        ),
{
    if contains_name(top_level_names, "Dockerfile") {
        infra.insert("Docker", "infrastructure");
    }
    if contains_name(top_level_names, "docker-compose.yml") {
        infra.insert("Docker Compose", "infrastructure");
    }
    if contains_name(top_level_names, "docker-compose.yaml") {
        infra.insert("Docker Compose", "infrastructure");
    }
    if contains_name(top_level_names, ".github/workflows") {
        infra.insert("GitHub Actions", "infrastructure");
    }
    if contains_name(top_level_names, ".gitlab-ci.yml") {
        infra.insert("GitLab CI", "infrastructure");
    }
    if contains_name(top_level_names, ".circleci") {
        infra.insert("CircleCI", "infrastructure");
    }
    if contains_name(top_level_names, "Jenkinsfile") {
        infra.insert("Jenkins", "infrastructure");
    }
    if contains_name(top_level_names, "terraform") {
        infra.insert("Terraform", "infrastructure");
    }
    if contains_name(top_level_names, "kubernetes") {
        infra.insert("Kubernetes", "infrastructure");
    }
    if contains_name(top_level_names, "k8s") {
        infra.insert("Kubernetes", "infrastructure");
    }
}

fn detect_infra_b(top_level_names: &Vec<String>, infra: &mut SignalMap)
    requires
        old(infra).wf(),
    ensures
        final(infra).wf(),
        final(infra).pairs() == spec_infra_indicators_b(
            old(infra).pairs(),
            top_level_names.deep_view(),
        ),
{
    if contains_name(top_level_names, "helm") {
        infra.insert("Helm", "infrastructure");
    }
    if contains_name(top_level_names, ".travis.yml") {
        infra.insert("Travis CI", "infrastructure");
    }
    if contains_name(top_level_names, "netlify.toml") {
        infra.insert("Netlify", "infrastructure");
    }
    if contains_name(top_level_names, "vercel.json") {
        infra.insert("Vercel", "infrastructure");
    }
    if contains_name(top_level_names, "fly.toml") {
        infra.insert("Fly.io", "infrastructure");
    }
    if contains_name(top_level_names, "render.yaml") {
        infra.insert("Render", "infrastructure");
    }
    if contains_name(top_level_names, "nginx.conf") {
        infra.insert("Nginx", "infrastructure");
    }
    if contains_name(top_level_names, "Vagrantfile") {
        infra.insert("Vagrant", "infrastructure");
    }
    if contains_name(top_level_names, "ansible") {
        infra.insert("Ansible", "infrastructure");
    }
}

fn detect_fw_a(top_level_names: &Vec<String>, frameworks: &mut SignalMap)
    requires
        old(frameworks).wf(),
    ensures
        final(frameworks).wf(),
        final(frameworks).pairs() == spec_fw_indicators_a(
            old(frameworks).pairs(),
            top_level_names.deep_view(),
        ),
{
    if contains_name(top_level_names, ".eslintrc.js") {
        frameworks.insert("ESLint", "tool");
    }
    if contains_name(top_level_names, ".eslintrc.json") {
        frameworks.insert("ESLint", "tool");
    }
    if contains_name(top_level_names, "tailwind.config.js") {
        frameworks.insert("Tailwind CSS", "framework");
    }
    if contains_name(top_level_names, "tailwind.config.ts") {
        frameworks.insert("Tailwind CSS", "framework");
    }
    if contains_name(top_level_names, "tsconfig.json") {
        frameworks.insert("TypeScript", "language");
    }
    if contains_name(top_level_names, "webpack.config.js") {
        frameworks.insert("Webpack", "tool");
    }
    if contains_name(top_level_names, "vite.config.ts") {
        frameworks.insert("Vite", "tool");
    }
    if contains_name(top_level_names, "vite.config.js") {
        frameworks.insert("Vite", "tool");
    }
    if contains_name(top_level_names, ".prettierrc") {
        frameworks.insert("Prettier", "tool");
    }
    if contains_name(top_level_names, "jest.config.js") {
        frameworks.insert("Jest", "tool");
    }
    if contains_name(top_level_names, "jest.config.ts") {
        frameworks.insert("Jest", "tool");
    }
}

fn detect_fw_b(top_level_names: &Vec<String>, frameworks: &mut SignalMap)
    requires
        old(frameworks).wf(),
    ensures
        final(frameworks).wf(),
        final(frameworks).pairs() == spec_fw_indicators_b(
            old(frameworks).pairs(),
            top_level_names.deep_view(),
        ),
{
    if contains_name(top_level_names, "pytest.ini") {
        frameworks.insert("pytest", "tool");
    }
    if contains_name(top_level_names, "pyproject.toml") {
        frameworks.insert("Python Package", "tool");
    }
    if contains_name(top_level_names, "Cargo.toml") {
        frameworks.insert("Rust", "language");
    }
    if contains_name(top_level_names, "go.mod") {
        frameworks.insert("Go", "language");
    }
    if contains_name(top_level_names, "Gemfile") {
        frameworks.insert("Ruby", "language");
    }
    if contains_name(top_level_names, "composer.json") {
        frameworks.insert("PHP", "language");
    }
    if contains_name(top_level_names, "build.gradle") {
        frameworks.insert("Gradle", "tool");
    }
    if contains_name(top_level_names, "pom.xml") {
        frameworks.insert("Maven", "tool");
    }
}

/// Match the fixed indicator table against the top-level names: each present
/// infrastructure indicator records its signal in `infra`, every other
/// present indicator records its signal in `frameworks`.
pub fn detect_file_indicators(
    top_level_names: &Vec<String>,
    frameworks: &mut SignalMap,
    infra: &mut SignalMap,
)
    requires
        old(frameworks).wf(),
        old(infra).wf(),
    ensures
        final(frameworks).wf(),
        final(infra).wf(),
        final(frameworks).pairs() == spec_file_indicators_fw(
            old(frameworks).pairs(),
            top_level_names.deep_view(),
        ),
        final(infra).pairs() == spec_file_indicators_infra(
            old(infra).pairs(),
            top_level_names.deep_view(),
        ),
{
    detect_infra_a(top_level_names, infra);
    detect_infra_b(top_level_names, infra);
    detect_fw_a(top_level_names, frameworks);
    detect_fw_b(top_level_names, frameworks);
}

/// Setting a key keeps the keys pairwise distinct.
pub proof fn lemma_sig_set_distinct(s: Seq<(Seq<char>, Seq<char>)>, k: Seq<char>, v: Seq<char>)
    requires
        keys_distinct(s),
    ensures
        keys_distinct(sig_set(s, k, v)),
{
    let r = sig_set(s, k, v);
    if assoc_contains(s, k) {
        let ci = assoc_idx(s, k);
        assert(0 <= ci < s.len() && s[ci].0 == k);
        assert forall|a: int, b: int| 0 <= a < b < r.len() implies r[a].0 != r[b].0 by {
            assert(r[a].0 == s[a].0);
            assert(r[b].0 == s[b].0);
        }
    } else {
        assert forall|a: int, b: int| 0 <= a < b < r.len() implies r[a].0 != r[b].0 by {
            if b < s.len() {
                assert(r[a].0 == s[a].0);
                assert(r[b].0 == s[b].0);
            } else {
                assert(r[b].0 == k);
                assert(r[a].0 == s[a].0);
            }
        }
    }
}

/// Distinctness of keys carries over to any reordering.
pub proof fn lemma_keys_distinct_permutation(
    es1: Seq<(Seq<char>, Seq<char>)>,
    es2: Seq<(Seq<char>, Seq<char>)>,
)
    requires
        es1.to_multiset() == es2.to_multiset(),
        keys_distinct(es1),
    ensures
        keys_distinct(es2),
{
    broadcast use vstd::seq_lib::group_to_multiset_ensures;
    broadcast use vstd::multiset::group_multiset_axioms;

    assert forall|i: int, j: int| 0 <= i < j < es2.len() implies es2[i].0 != es2[j].0 by {
        if es2[i].0 == es2[j].0 {
            let x = es2[i];
            let y = es2[j];
            assert(es2.contains(x) && es2.contains(y));
            assert(es1.to_multiset().count(x) > 0 && es1.to_multiset().count(y) > 0);
            assert(es1.contains(x) && es1.contains(y));
            if x == y {
                assert(es2.remove(i).to_multiset() =~= es2.to_multiset().remove(x));
                es2.remove_ensures(i);
                assert(es2.remove(i)[j - 1] == y);
                assert(es2.remove(i).contains(y));
                assert(es2.remove(i).to_multiset().count(y) > 0);
                assert(es2.to_multiset().remove(x).count(x) == es2.to_multiset().count(x) - 1);
                assert(es1.to_multiset().count(x) >= 2);
                let a = choose|a: int| 0 <= a < es1.len() && es1[a] == x;
                assert(es1.remove(a).to_multiset() =~= es1.to_multiset().remove(x));
                assert(es1.remove(a).to_multiset().count(x) > 0);
                assert(es1.remove(a).contains(x));
                let b = choose|b: int| 0 <= b < es1.remove(a).len() && es1.remove(a)[b] == x;
                es1.remove_ensures(a);
                if b < a {
                    assert(es1[b] == x && b != a);
                } else {
                    assert(es1[b + 1] == x && b + 1 != a);
                }
            } else {
                let a = choose|a: int| 0 <= a < es1.len() && es1[a] == x;
                let b = choose|b: int| 0 <= b < es1.len() && es1[b] == y;
                assert(a != b);
            }
            assert(false);
        }
    }
}

#[verifier::rlimit(100)]
proof fn lemma_fw_indicators_a_distinct(p0: Seq<(Seq<char>, Seq<char>)>, names: Seq<Seq<char>>)
    requires
        keys_distinct(p0),
    ensures
        keys_distinct(spec_fw_indicators_a(p0, names)),
{
    let p1 = if names.contains(".eslintrc.js"@) {
        lemma_sig_set_distinct(p0, "ESLint"@, "tool"@);
        sig_set(p0, "ESLint"@, "tool"@)
    } else {
        p0
    };
    let p2 = if names.contains(".eslintrc.json"@) {
        lemma_sig_set_distinct(p1, "ESLint"@, "tool"@);
        sig_set(p1, "ESLint"@, "tool"@)
    } else {
        p1
    };
    let p3 = if names.contains("tailwind.config.js"@) {
        lemma_sig_set_distinct(p2, "Tailwind CSS"@, "framework"@);
        sig_set(p2, "Tailwind CSS"@, "framework"@)
    } else {
        p2
    };
    let p4 = if names.contains("tailwind.config.ts"@) {
        lemma_sig_set_distinct(p3, "Tailwind CSS"@, "framework"@);
        sig_set(p3, "Tailwind CSS"@, "framework"@)
    } else {
        p3
    };
    let p5 = if names.contains("tsconfig.json"@) {
        lemma_sig_set_distinct(p4, "TypeScript"@, "language"@);
        sig_set(p4, "TypeScript"@, "language"@)
    } else {
        p4
    };
    let p6 = if names.contains("webpack.config.js"@) {
        lemma_sig_set_distinct(p5, "Webpack"@, "tool"@);
        sig_set(p5, "Webpack"@, "tool"@)
    } else {
        p5
    };
    let p7 = if names.contains("vite.config.ts"@) {
        lemma_sig_set_distinct(p6, "Vite"@, "tool"@);
        sig_set(p6, "Vite"@, "tool"@)
    } else {
        p6
    };
    let p8 = if names.contains("vite.config.js"@) {
        lemma_sig_set_distinct(p7, "Vite"@, "tool"@);
        sig_set(p7, "Vite"@, "tool"@)
    } else {
        p7
    };
    let p9 = if names.contains(".prettierrc"@) {
        lemma_sig_set_distinct(p8, "Prettier"@, "tool"@);
        sig_set(p8, "Prettier"@, "tool"@)
    } else {
        p8
    };
    let p10 = if names.contains("jest.config.js"@) {
        lemma_sig_set_distinct(p9, "Jest"@, "tool"@);
        sig_set(p9, "Jest"@, "tool"@)
    } else {
        p9
    };
    let p11 = if names.contains("jest.config.ts"@) {
        lemma_sig_set_distinct(p10, "Jest"@, "tool"@);
        sig_set(p10, "Jest"@, "tool"@)
    } else {
        p10
    };
    assert(p11 == spec_fw_indicators_a(p0, names));
}

#[verifier::rlimit(100)]
proof fn lemma_fw_indicators_b_distinct(p0: Seq<(Seq<char>, Seq<char>)>, names: Seq<Seq<char>>)
    requires
        keys_distinct(p0),
    ensures
        keys_distinct(spec_fw_indicators_b(p0, names)),
{
    let p1 = if names.contains("pytest.ini"@) {
        lemma_sig_set_distinct(p0, "pytest"@, "tool"@);
        sig_set(p0, "pytest"@, "tool"@)
    } else {
        p0
    };
    let p2 = if names.contains("pyproject.toml"@) {
        lemma_sig_set_distinct(p1, "Python Package"@, "tool"@);
        sig_set(p1, "Python Package"@, "tool"@)
    } else {
        p1
    };
    let p3 = if names.contains("Cargo.toml"@) {
        lemma_sig_set_distinct(p2, "Rust"@, "language"@);
        sig_set(p2, "Rust"@, "language"@)
    } else {
        p2
    };
    let p4 = if names.contains("go.mod"@) {
        lemma_sig_set_distinct(p3, "Go"@, "language"@);
        sig_set(p3, "Go"@, "language"@)
    } else {
        p3
    };
    let p5 = if names.contains("Gemfile"@) {
        lemma_sig_set_distinct(p4, "Ruby"@, "language"@);
        sig_set(p4, "Ruby"@, "language"@)
    } else {
        p4
    };
    let p6 = if names.contains("composer.json"@) {
        lemma_sig_set_distinct(p5, "PHP"@, "language"@);
        sig_set(p5, "PHP"@, "language"@)
    } else {
        p5
    };
    let p7 = if names.contains("build.gradle"@) {
        lemma_sig_set_distinct(p6, "Gradle"@, "tool"@);
        sig_set(p6, "Gradle"@, "tool"@)
    } else {
        p6
    };
    let p8 = if names.contains("pom.xml"@) {
        lemma_sig_set_distinct(p7, "Maven"@, "tool"@);
        sig_set(p7, "Maven"@, "tool"@)
    } else {
        p7
    };
    assert(p8 == spec_fw_indicators_b(p0, names));
}

#[verifier::rlimit(100)]
proof fn lemma_infra_indicators_a_distinct(p0: Seq<(Seq<char>, Seq<char>)>, names: Seq<Seq<char>>)
    requires
        keys_distinct(p0),
    ensures
        keys_distinct(spec_infra_indicators_a(p0, names)),
{
    let c = "infrastructure"@;
    let p1 = if names.contains("Dockerfile"@) {
        lemma_sig_set_distinct(p0, "Docker"@, c);
        sig_set(p0, "Docker"@, c)
    } else {
        p0
    };
    let p2 = if names.contains("docker-compose.yml"@) {
        lemma_sig_set_distinct(p1, "Docker Compose"@, c);
        sig_set(p1, "Docker Compose"@, c)
    } else {
        p1
    };
    let p3 = if names.contains("docker-compose.yaml"@) {
        lemma_sig_set_distinct(p2, "Docker Compose"@, c);
        sig_set(p2, "Docker Compose"@, c)
    } else {
        p2
    };
    let p4 = if names.contains(".github/workflows"@) {
        lemma_sig_set_distinct(p3, "GitHub Actions"@, c);
        sig_set(p3, "GitHub Actions"@, c)
    } else {
        p3
    };
    let p5 = if names.contains(".gitlab-ci.yml"@) {
        lemma_sig_set_distinct(p4, "GitLab CI"@, c);
        sig_set(p4, "GitLab CI"@, c)
    } else {
        p4
    };
    let p6 = if names.contains(".circleci"@) {
        lemma_sig_set_distinct(p5, "CircleCI"@, c);
        sig_set(p5, "CircleCI"@, c)
    } else {
        p5
    };
    let p7 = if names.contains("Jenkinsfile"@) {
        lemma_sig_set_distinct(p6, "Jenkins"@, c);
        sig_set(p6, "Jenkins"@, c)
    } else {
        p6
    };
    let p8 = if names.contains("terraform"@) {
        lemma_sig_set_distinct(p7, "Terraform"@, c);
        sig_set(p7, "Terraform"@, c)
    } else {
        p7
    };
    let p9 = if names.contains("kubernetes"@) {
        lemma_sig_set_distinct(p8, "Kubernetes"@, c);
        sig_set(p8, "Kubernetes"@, c)
    } else {
        p8
    };
    let p10 = if names.contains("k8s"@) {
        lemma_sig_set_distinct(p9, "Kubernetes"@, c);
        sig_set(p9, "Kubernetes"@, c)
    } else {
        p9
    };
    assert(p10 == spec_infra_indicators_a(p0, names));
}

#[verifier::rlimit(100)]
proof fn lemma_infra_indicators_b_distinct(p0: Seq<(Seq<char>, Seq<char>)>, names: Seq<Seq<char>>)
    requires
        keys_distinct(p0),
    ensures
        keys_distinct(spec_infra_indicators_b(p0, names)),
{
    let c = "infrastructure"@;
    let p1 = if names.contains("helm"@) {
        lemma_sig_set_distinct(p0, "Helm"@, c);
        sig_set(p0, "Helm"@, c)
    } else {
        p0
    };
    let p2 = if names.contains(".travis.yml"@) {
        lemma_sig_set_distinct(p1, "Travis CI"@, c);
        sig_set(p1, "Travis CI"@, c)
    } else {
        p1
    };
    let p3 = if names.contains("netlify.toml"@) {
        lemma_sig_set_distinct(p2, "Netlify"@, c);
        sig_set(p2, "Netlify"@, c)
    } else {
        p2
    };
    let p4 = if names.contains("vercel.json"@) {
        lemma_sig_set_distinct(p3, "Vercel"@, c);
        sig_set(p3, "Vercel"@, c)
    } else {
        p3
    };
    let p5 = if names.contains("fly.toml"@) {
        lemma_sig_set_distinct(p4, "Fly.io"@, c);
        sig_set(p4, "Fly.io"@, c)
    } else {
        p4
    };
    let p6 = if names.contains("render.yaml"@) {
        lemma_sig_set_distinct(p5, "Render"@, c);
        sig_set(p5, "Render"@, c)
    } else {
        p5
    };
    let p7 = if names.contains("nginx.conf"@) {
        lemma_sig_set_distinct(p6, "Nginx"@, c);
        sig_set(p6, "Nginx"@, c)
    } else {
        p6
    };
    let p8 = if names.contains("Vagrantfile"@) {
        lemma_sig_set_distinct(p7, "Vagrant"@, c);
        sig_set(p7, "Vagrant"@, c)
    } else {
        p7
    };
    let p9 = if names.contains("ansible"@) {
        lemma_sig_set_distinct(p8, "Ansible"@, c);
        sig_set(p8, "Ansible"@, c)
    } else {
        p8
    };
    assert(p9 == spec_infra_indicators_b(p0, names));
}

/// The indicator chains keep the generic signal map's keys distinct.
pub proof fn lemma_file_indicators_fw_distinct(
    p0: Seq<(Seq<char>, Seq<char>)>,
    names: Seq<Seq<char>>,
)
    requires
        keys_distinct(p0),
    ensures
        keys_distinct(spec_file_indicators_fw(p0, names)),
{
    lemma_fw_indicators_a_distinct(p0, names);
    lemma_fw_indicators_b_distinct(spec_fw_indicators_a(p0, names), names);
}

/// The indicator chains keep the infrastructure map's keys distinct.
pub proof fn lemma_file_indicators_infra_distinct(
    p0: Seq<(Seq<char>, Seq<char>)>,
    names: Seq<Seq<char>>,
)
    requires
        keys_distinct(p0),
    ensures
        keys_distinct(spec_file_indicators_infra(p0, names)),
{
    lemma_infra_indicators_a_distinct(p0, names);
    lemma_infra_indicators_b_distinct(spec_infra_indicators_a(p0, names), names);
}

/// Decide the report order on two signal entries.
fn sig_le_dec(a: &SignalEntry, b: &SignalEntry) -> (r: bool)
    ensures
        r == sig_le(sig_view(*a), sig_view(*b)),
{
    if !str_eq(a.name.as_str(), b.name.as_str()) {
        str_le_dec(a.name.as_str(), b.name.as_str())
    } else {
        str_le_dec(a.category.as_str(), b.category.as_str())
    }
}

/// Insert an entry into a name-ordered vector, keeping it ordered.
fn insert_sig_sorted(v: &mut Vec<SignalEntry>, e: SignalEntry)
    requires
        sorted_by(sig_views(old(v)@), sig_order()),
    ensures
        sorted_by(sig_views(final(v)@), sig_order()),
        sig_views(final(v)@).to_multiset() == sig_views(old(v)@).to_multiset().insert(sig_view(e)),
{
    proof {
        lemma_sig_order_total();
    }
    let n: usize = v.len();
    let mut idx: usize = 0;
    while idx < n && !sig_le_dec(&e, &v[idx])
        invariant
            n == v.len(),
            0 <= idx <= n,
            forall|j: int| 0 <= j < idx ==> !sig_order()(sig_view(e), sig_views(v@)[j]),
            forall|j: int| 0 <= j < n ==> sig_views(v@)[j] == sig_view(v@[j]),
        decreases n - idx,
    {
        idx = idx + 1;
    }
    let ghost vs0 = sig_views(v@);
    v.insert(idx, e);
    proof {
        lemma_sig_order_total();
        assert(sig_views(v@) =~= vs0.insert(idx as int, sig_view(e)));
        vs0.insert_ensures(idx as int, sig_view(e));
        lemma_insert_to_multiset(vs0, idx as int, sig_view(e));
        let leq = sig_order();
        let vs1 = sig_views(v@);
        assert forall|a: int, b: int| 0 <= a < b < vs1.len() implies leq(vs1[a], vs1[b]) by {
            if b < idx {
                assert(vs1[a] == vs0[a] && vs1[b] == vs0[b]);
            } else if a > idx {
                assert(vs1[a] == vs0[a - 1] && vs1[b] == vs0[b - 1]);
            } else if a < idx && b == idx {
                assert(vs1[a] == vs0[a]);
                assert(!leq(sig_view(e), vs0[a]));
            } else if a == idx && b > idx {
                assert(vs1[b] == vs0[b - 1]);
                if idx < vs0.len() {
                    assert(leq(sig_view(e), vs0[idx as int]));
                    assert(leq(vs0[idx as int], vs0[b - 1]) || idx as int == b - 1);
                }
            } else if a < idx && b > idx {
                assert(vs1[a] == vs0[a] && vs1[b] == vs0[b - 1]);
            }
        }
    }
}

/// Turn a signal map into the report's entry list, sorted by name and
/// category.
pub fn into_sorted_entries(map: &SignalMap) -> (r: Vec<SignalEntry>)
    ensures
        sig_views(r@) == map.pairs().sort_by(sig_order()),
{
    let ghost s = map.pairs();
    let n: usize = map.entries.len();
    let mut r: Vec<SignalEntry> = Vec::new();
    let mut i: usize = 0;
    proof {
        assert(sig_views(r@) =~= Seq::<(Seq<char>, Seq<char>)>::empty());
        assert(s.take(0) =~= Seq::<(Seq<char>, Seq<char>)>::empty());
    }
    while i < n
        invariant
            n == map.entries.len(),
            n == s.len(),
            s == map.pairs(),
            0 <= i <= n,
            sorted_by(sig_views(r@), sig_order()),
            sig_views(r@).to_multiset() == s.take(i as int).to_multiset(),
        decreases n - i,
    {
        let e = SignalEntry {
            name: map.entries[i].0.clone(),
            category: map.entries[i].1.clone(),
        };
        proof {
            assert(sig_view(e) == s[i as int]);
        }
        insert_sig_sorted(&mut r, e);
        proof {
            broadcast use vstd::seq_lib::group_to_multiset_ensures;

            assert(s.take(i + 1).drop_last() =~= s.take(i as int));
            assert(s.take(i + 1) =~= s.take(i as int).push(s[i as int]));
        }
        i = i + 1;
    }
    proof {
        assert(s.take(n as int) =~= s);
        lemma_sig_order_total();
        s.lemma_sort_by_ensures(sig_order());
        vstd::seq_lib::lemma_sorted_unique(sig_views(r@), s.sort_by(sig_order()), sig_order());
    }
    r
}

} // verus!
