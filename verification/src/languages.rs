//! Extension-to-language classification, the binary-extension filter, and the
//! per-language byte tally with its conversion to the reported, sorted
//! permille list.

use vstd::prelude::*;

verus! {

use vstd::arithmetic::div_mod::{lemma_basic_div, lemma_fundamental_div_mod, lemma_mod_bound};
use vstd::arithmetic::mul::{lemma_mul_inequality, lemma_mul_is_distributive_add};
use vstd::relations::sorted_by;
use vstd::string::StringExecFns;
use crate::output::{lang_view, lang_views, LanguageEntry};
use crate::sorting::{lang_le, lang_order, lemma_insert_to_multiset, lemma_lang_order_total};
use crate::strings::str_eq;
use crate::strings::str_le_dec;

/// The fixed classification table: which language a file extension stands
/// for. Matching is case-sensitive except for the single-letter statistical
/// language, where both cases are accepted.
pub open spec fn lang_of_ext(ext: Seq<char>) -> Option<Seq<char>> {
    if ext == "py"@ {
        Some("Python"@)
    } else if ext == "js"@ || ext == "jsx"@ {
        Some("JavaScript"@)
    } else if ext == "ts"@ || ext == "tsx"@ {
        Some("TypeScript"@)
    } else if ext == "rs"@ {
        Some("Rust"@)
    } else if ext == "go"@ {
        Some("Go"@)
    } else if ext == "rb"@ {
        Some("Ruby"@)
    } else if ext == "java"@ {
        Some("Java"@)
    } else if ext == "kt"@ {
        Some("Kotlin"@)
    } else if ext == "swift"@ {
        Some("Swift"@)
    } else if ext == "c"@ || ext == "h"@ {
        Some("C"@)
    } else if ext == "cpp"@ || ext == "cc"@ || ext == "cxx"@ || ext == "hpp"@ {
        Some("C++"@)
    } else if ext == "cs"@ {
        Some("C#"@)
    } else if ext == "php"@ {
        Some("PHP"@)
    } else if ext == "scala"@ {
        Some("Scala"@)
    } else if ext == "r"@ || ext == "R"@ {
        Some("R"@)
    } else if ext == "dart"@ {
        Some("Dart"@)
    } else if ext == "lua"@ {
        Some("Lua"@)
    } else if ext == "ex"@ || ext == "exs"@ {
        Some("Elixir"@)
    } else if ext == "erl"@ || ext == "hrl"@ {
        Some("Erlang"@)
    } else if ext == "hs"@ {
        Some("Haskell"@)
    } else if ext == "ml"@ || ext == "mli"@ {
        Some("OCaml"@)
    } else if ext == "clj"@ || ext == "cljs"@ {
        Some("Clojure"@)
    } else if ext == "jl"@ {
        Some("Julia"@)
    } else if ext == "zig"@ {
        Some("Zig"@)
    } else if ext == "svelte"@ {
        Some("Svelte"@)
    } else if ext == "vue"@ {
        Some("Vue"@)
    } else if ext == "html"@ || ext == "htm"@ {
        Some("HTML"@)
    } else if ext == "css"@ {
        Some("CSS"@)
    } else if ext == "scss"@ || ext == "sass"@ {
        Some("SCSS"@)
    } else if ext == "less"@ {
        Some("Less"@)
    } else if ext == "sql"@ {
        Some("SQL"@)
    } else if ext == "sh"@ || ext == "bash"@ || ext == "zsh"@ {
        Some("Shell"@)
    } else if ext == "ps1"@ {
        Some("PowerShell"@)
    } else {
        None
    }
}

/// Map a file extension to its language name, or `None` for an extension the
/// table does not list.
pub fn extension_to_language(ext: &str) -> (r: Option<&'static str>)
    ensures
        match r {
            Some(l) => lang_of_ext(ext@) == Some(l@),
            None => lang_of_ext(ext@) is None,
        },
{
    if str_eq(ext, "py") {
        Some("Python")
    } else if str_eq(ext, "js") || str_eq(ext, "jsx") {
        Some("JavaScript")
    } else if str_eq(ext, "ts") || str_eq(ext, "tsx") {
        Some("TypeScript")
    } else if str_eq(ext, "rs") {
        Some("Rust")
    } else if str_eq(ext, "go") {
        Some("Go")
    } else if str_eq(ext, "rb") {
        Some("Ruby")
    } else if str_eq(ext, "java") {
        Some("Java")
    } else if str_eq(ext, "kt") {
        Some("Kotlin")
    } else if str_eq(ext, "swift") {
        Some("Swift")
    } else if str_eq(ext, "c") || str_eq(ext, "h") {
        Some("C")
    } else if str_eq(ext, "cpp") || str_eq(ext, "cc") || str_eq(ext, "cxx") || str_eq(ext, "hpp") {
        Some("C++")
    } else if str_eq(ext, "cs") {
        Some("C#")
    } else if str_eq(ext, "php") {
        Some("PHP")
    } else if str_eq(ext, "scala") {
        Some("Scala")
    } else if str_eq(ext, "r") || str_eq(ext, "R") {
        Some("R")
    } else if str_eq(ext, "dart") {
        Some("Dart")
    } else if str_eq(ext, "lua") {
        Some("Lua")
    } else if str_eq(ext, "ex") || str_eq(ext, "exs") {
        Some("Elixir")
    } else if str_eq(ext, "erl") || str_eq(ext, "hrl") {
        Some("Erlang")
    } else if str_eq(ext, "hs") {
        Some("Haskell")
    } else if str_eq(ext, "ml") || str_eq(ext, "mli") {
        Some("OCaml")
    } else if str_eq(ext, "clj") || str_eq(ext, "cljs") {
        Some("Clojure")
    } else if str_eq(ext, "jl") {
        Some("Julia")
    } else if str_eq(ext, "zig") {
        Some("Zig")
    } else if str_eq(ext, "svelte") {
        Some("Svelte")
    } else if str_eq(ext, "vue") {
        Some("Vue")
    } else if str_eq(ext, "html") || str_eq(ext, "htm") {
        Some("HTML")
    } else if str_eq(ext, "css") {
        Some("CSS")
    } else if str_eq(ext, "scss") || str_eq(ext, "sass") {
        Some("SCSS")
    } else if str_eq(ext, "less") {
        Some("Less")
    } else if str_eq(ext, "sql") {
        Some("SQL")
    } else if str_eq(ext, "sh") || str_eq(ext, "bash") || str_eq(ext, "zsh") {
        Some("Shell")
    } else if str_eq(ext, "ps1") {
        Some("PowerShell")
    } else {
        None
    }
}

/// The fixed filter table of binary, compiled, media and archive extensions:
/// a file with one of these never takes part in byte accounting.
pub open spec fn is_binary_ext(ext: Seq<char>) -> bool {
    ||| ext == "png"@
    ||| ext == "jpg"@
    ||| ext == "jpeg"@
    ||| ext == "gif"@
    ||| ext == "bmp"@
    ||| ext == "ico"@
    ||| ext == "svg"@
    ||| ext == "webp"@
    ||| ext == "woff"@
    ||| ext == "woff2"@
    ||| ext == "ttf"@
    ||| ext == "eot"@
    ||| ext == "otf"@
    ||| ext == "mp3"@
    ||| ext == "mp4"@
    ||| ext == "wav"@
    ||| ext == "avi"@
    ||| ext == "mov"@
    ||| ext == "mkv"@
    ||| ext == "zip"@
    ||| ext == "tar"@
    ||| ext == "gz"@
    ||| ext == "bz2"@
    ||| ext == "xz"@
    ||| ext == "7z"@
    ||| ext == "rar"@
    ||| ext == "exe"@
    ||| ext == "dll"@
    ||| ext == "so"@
    ||| ext == "dylib"@
    ||| ext == "a"@
    ||| ext == "o"@
    ||| ext == "obj"@
    ||| ext == "wasm"@
    ||| ext == "pyc"@
    ||| ext == "pyo"@
    ||| ext == "class"@
    ||| ext == "pdf"@
    ||| ext == "doc"@
    ||| ext == "docx"@
    ||| ext == "xls"@
    ||| ext == "xlsx"@
    ||| ext == "db"@
    ||| ext == "sqlite"@
    ||| ext == "sqlite3"@
}

/// Whether the extension names a binary file that byte accounting skips.
pub fn is_binary_extension(ext: &str) -> (r: bool)
    ensures
        r == is_binary_ext(ext@),
{
    str_eq(ext, "png") || str_eq(ext, "jpg") || str_eq(ext, "jpeg") || str_eq(ext, "gif")
        || str_eq(ext, "bmp") || str_eq(ext, "ico") || str_eq(ext, "svg") || str_eq(ext, "webp")
        || str_eq(ext, "woff") || str_eq(ext, "woff2") || str_eq(ext, "ttf") || str_eq(ext, "eot")
        || str_eq(ext, "otf") || str_eq(ext, "mp3") || str_eq(ext, "mp4") || str_eq(ext, "wav")
        || str_eq(ext, "avi") || str_eq(ext, "mov") || str_eq(ext, "mkv") || str_eq(ext, "zip")
        || str_eq(ext, "tar") || str_eq(ext, "gz") || str_eq(ext, "bz2") || str_eq(ext, "xz")
        || str_eq(ext, "7z") || str_eq(ext, "rar") || str_eq(ext, "exe") || str_eq(ext, "dll")
        || str_eq(ext, "so") || str_eq(ext, "dylib") || str_eq(ext, "a") || str_eq(ext, "o")
        || str_eq(ext, "obj") || str_eq(ext, "wasm") || str_eq(ext, "pyc") || str_eq(ext, "pyo")
        || str_eq(ext, "class") || str_eq(ext, "pdf") || str_eq(ext, "doc") || str_eq(ext, "docx")
        || str_eq(ext, "xls") || str_eq(ext, "xlsx") || str_eq(ext, "db") || str_eq(ext, "sqlite")
        || str_eq(ext, "sqlite3")
}

/// Whether an association sequence has pairwise distinct keys.
pub open spec fn keys_distinct<V>(s: Seq<(Seq<char>, V)>) -> bool {
    forall|i: int, j: int| 0 <= i < j < s.len() ==> s[i].0 != s[j].0
}

/// Whether an association sequence holds the given key.
pub open spec fn assoc_contains<V>(s: Seq<(Seq<char>, V)>, k: Seq<char>) -> bool {
    exists|i: int| 0 <= i < s.len() && s[i].0 == k
}

/// The index of the given key in an association sequence.
pub open spec fn assoc_idx<V>(s: Seq<(Seq<char>, V)>, k: Seq<char>) -> int {
    choose|i: int| 0 <= i < s.len() && s[i].0 == k
}

/// `u64` addition that stops at the largest representable value.
pub open spec fn sat_add(a: u64, b: u64) -> u64 {
    if a + b > u64::MAX {
        u64::MAX
    } else {
        (a + b) as u64
    }
}

/// Accumulating `n` more bytes under key `k`: the existing entry grows, or a
/// new entry is appended.
pub open spec fn bytes_add(
    s: Seq<(Seq<char>, u64)>,
    k: Seq<char>,
    n: u64,
) -> Seq<(Seq<char>, u64)> {
    if assoc_contains(s, k) {
        let i = assoc_idx(s, k);
        s.update(i, (k, sat_add(s[i].1, n)))
    } else {
        s.push((k, n))
    }
}

/// The total number of bytes over all entries of a tally.
pub open spec fn total_bytes(s: Seq<(Seq<char>, u64)>) -> int
    decreases s.len(),
{
    if s.len() == 0 {
        0
    } else {
        total_bytes(s.drop_last()) + s.last().1
    }
}

/// A byte count per language name, with each name held at most once.
pub struct LangBytes {
    entries: Vec<(String, u64)>,
}

impl LangBytes {
    /// The tally as a sequence of (language name, byte count) pairs, in
    /// insertion order.
    pub closed spec fn pairs(&self) -> Seq<(Seq<char>, u64)> {
        self.entries@.map_values(|p: (String, u64)| (p.0@, p.1))
    }

    /// Every language name occurs at most once.
    pub open spec fn wf(&self) -> bool {
        keys_distinct(self.pairs())
    }

    /// An empty tally.
    pub fn new() -> (r: Self)
        ensures
            r.pairs() == Seq::<(Seq<char>, u64)>::empty(),
            r.wf(),
    {
        let r = LangBytes { entries: Vec::new() };
        proof {
            assert(r.pairs() =~= Seq::<(Seq<char>, u64)>::empty());
        }
        r
    }

    /// Accumulate `size` more bytes under the language `lang`; the count
    /// saturates at `u64::MAX` rather than overflow.
    pub fn add_bytes(&mut self, lang: &str, size: u64)
        requires
            old(self).wf(),
        ensures
            final(self).wf(),
            final(self).pairs() == bytes_add(old(self).pairs(), lang@, size),
    {
        let ghost s0 = self.pairs();
        let n: usize = self.entries.len();
        let mut i: usize = 0;
        while i < n
            invariant
                n == self.entries.len(),
                0 <= i <= n,
                self.pairs() == s0,
                old(self).pairs() == s0,
                keys_distinct(s0),
                forall|j: int| 0 <= j < i ==> s0[j].0 != lang@,
            decreases n - i,
        {
            if str_eq(self.entries[i].0.as_str(), lang) {
                proof {
                    assert(s0[i as int].0 == lang@);
                    assert(assoc_contains(s0, lang@));
                    let ci = assoc_idx(s0, lang@);
                    assert(0 <= ci < s0.len() && s0[ci].0 == lang@);
                    if ci != i as int {
                        if ci < i as int {
                            assert(s0[ci].0 != s0[i as int].0);
                        } else {
                            assert(s0[i as int].0 != s0[ci].0);
                        }
                        assert(false);
                    }
                }
                let cur: u64 = self.entries[i].1;
                let newv: u64 = if size > u64::MAX - cur {
                    u64::MAX
                } else {
                    cur + size
                };
                let pair = self.entries.remove(i);
                self.entries.insert(i, (pair.0, newv));
                proof {
                    assert(self.pairs() =~= bytes_add(s0, lang@, size));
                    assert forall|a: int, b: int| 0 <= a < b < self.pairs().len()
                        implies self.pairs()[a].0 != self.pairs()[b].0 by {
                        assert(self.pairs()[a].0 == s0[a].0);
                        assert(self.pairs()[b].0 == s0[b].0);
                    }
                }
                return;
            }
            i = i + 1;
        }
        self.entries.push((String::from_str(lang), size));
        proof {
            assert(!assoc_contains(s0, lang@));
            assert(self.pairs() =~= s0.push((lang@, size)));
            assert forall|a: int, b: int| 0 <= a < b < self.pairs().len()
                implies self.pairs()[a].0 != self.pairs()[b].0 by {
                if b < s0.len() {
                    assert(self.pairs()[a].0 == s0[a].0);
                    assert(self.pairs()[b].0 == s0[b].0);
                } else {
                    assert(self.pairs()[b].0 == lang@);
                    assert(self.pairs()[a].0 == s0[a].0);
                }
            }
        }
    }

    /// The total byte count over all languages; exact, computed in 128 bits.
    pub fn total(&self) -> (t: u128)
        ensures
            t as int == total_bytes(self.pairs()),
    {
        let n: usize = self.entries.len();
        let mut acc: u128 = 0;
        let mut i: usize = 0;
        proof {
            assert(self.pairs().take(0) =~= Seq::<(Seq<char>, u64)>::empty());
        }
        while i < n
            invariant
                n == self.entries.len(),
                n == self.pairs().len(),
                0 <= i <= n,
                acc as int == total_bytes(self.pairs().take(i as int)),
                acc as int <= (i as int) * (u64::MAX as int),
            decreases n - i,
        {
            let v: u64 = self.entries[i].1;
            proof {
                vstd::arithmetic::mul::lemma_mul_inequality(
                    i as int,
                    n as int,
                    u64::MAX as int,
                );
                vstd::arithmetic::mul::lemma_mul_upper_bound(
                    n as int,
                    usize::MAX as int,
                    u64::MAX as int,
                    u64::MAX as int,
                );
                let t1 = self.pairs().take(i + 1);
                assert(t1.drop_last() =~= self.pairs().take(i as int));
                assert(t1.last() == self.pairs()[i as int]);
                assert((i as int) * (u64::MAX as int) + (u64::MAX as int) == (i as int + 1) * (
                u64::MAX as int)) by (nonlinear_arith);
            }
            acc = acc + (v as u128);
            i = i + 1;
        }
        proof {
            assert(self.pairs().take(n as int) =~= self.pairs());
        }
        acc
    }
}

/// The recording step for one file: if the extension names a language, its
/// size joins that language's byte count; otherwise the tally is unchanged.
pub open spec fn spec_record(
    s: Seq<(Seq<char>, u64)>,
    ext: Seq<char>,
    size: u64,
) -> Seq<(Seq<char>, u64)> {
    match lang_of_ext(ext) {
        Some(l) => bytes_add(s, l, size),
        None => s,
    }
}

/// Accumulate one file's bytes into the per-language tally, keyed by the
/// file's extension.
pub fn record_language(ext: &str, size: u64, bytes_by_lang: &mut LangBytes)
    requires
        old(bytes_by_lang).wf(),
    ensures
        final(bytes_by_lang).wf(),
        final(bytes_by_lang).pairs() == spec_record(old(bytes_by_lang).pairs(), ext@, size),
{
    match extension_to_language(ext) {
        Some(lang) => {
            bytes_by_lang.add_bytes(lang, size);
        },
        None => {},
    }
}

/// A language's share of `t` total bytes in tenths of a percent, rounded
/// half away from zero: the integer nearest to 1000 * b / t.
pub open spec fn permille_of(b: int, t: int) -> int {
    (2000 * b + t) / (2 * t)
}

pub proof fn lemma_total_nonneg(s: Seq<(Seq<char>, u64)>)
    ensures
        total_bytes(s) >= 0,
    decreases s.len(),
{
    if s.len() > 0 {
        lemma_total_nonneg(s.drop_last());
    }
}

/// Each entry's byte count is at most the tally's total.
pub proof fn lemma_elem_le_total(s: Seq<(Seq<char>, u64)>, i: int)
    requires
        0 <= i < s.len(),
    ensures
        0 <= s[i].1 <= total_bytes(s),
    decreases s.len(),
{
    if i == s.len() - 1 {
        lemma_total_nonneg(s.drop_last());
    } else {
        lemma_elem_le_total(s.drop_last(), i);
        assert(s.drop_last()[i] == s[i]);
    }
}

pub proof fn lemma_permille_range(b: int, t: int)
    requires
        0 < t,
        0 <= b <= t,
    ensures
        0 <= permille_of(b, t) <= 1000,
{
    let x = 2000 * b + t;
    let d = 2 * t;
    let q = x / d;
    lemma_fundamental_div_mod(x, d);
    lemma_mod_bound(x, d);
    if q < 0 {
        lemma_mul_inequality(q, -1, d);
        assert(false);
    }
    if q > 1000 {
        lemma_mul_inequality(1001, q, d);
        assert(1001 * d == 2002 * t) by (nonlinear_arith)
            requires d == 2 * t;
        assert(false);
    }
}

/// Compute `permille_of` in 128-bit arithmetic.
fn permille_calc(b: u128, t: u128) -> (p: u64)
    requires
        0 < t,
        b <= t,
        b <= u64::MAX as u128,
    ensures
        p as int == permille_of(b as int, t as int),
        p <= 1000,
{
    proof {
        lemma_permille_range(b as int, t as int);
    }
    if 2000 * b < t {
        proof {
            lemma_basic_div(2000 * (b as int) + t as int, 2 * (t as int));
        }
        0
    } else {
        let q: u128 = (2000 * b + t) / (2 * t);
        q as u64
    }
}

/// The view of the report entry made for one tally pair.
pub open spec fn perm_entry(p: (Seq<char>, u64), t: int) -> (Seq<char>, Seq<char>, u64) {
    (p.0, "language"@, permille_of(p.1 as int, t) as u64)
}

pub open spec fn perm_entries(
    s: Seq<(Seq<char>, u64)>,
    t: int,
) -> Seq<(Seq<char>, Seq<char>, u64)> {
    s.map_values(|p: (Seq<char>, u64)| perm_entry(p, t))
}

/// The reported language list for a tally: empty when no byte was
/// classified, else one entry per language with its rounded permille share,
/// ordered by share descending and name ascending.
pub open spec fn spec_language_list(s: Seq<(Seq<char>, u64)>) -> Seq<(Seq<char>, Seq<char>, u64)> {
    if total_bytes(s) == 0 {
        Seq::<(Seq<char>, Seq<char>, u64)>::empty()
    } else {
        perm_entries(s, total_bytes(s)).sort_by(lang_order())
    }
}

/// Decide the report order on two language entries.
fn lang_le_dec(a: &LanguageEntry, b: &LanguageEntry) -> (r: bool)
    ensures
        r == lang_le(lang_view(*a), lang_view(*b)),
{
    if a.permille != b.permille {
        a.permille > b.permille
    } else if !str_eq(a.name.as_str(), b.name.as_str()) {
        str_le_dec(a.name.as_str(), b.name.as_str())
    } else {
        str_le_dec(a.category.as_str(), b.category.as_str())
    }
}

/// Insert an entry into a report-ordered vector, keeping it ordered.
fn insert_lang_sorted(v: &mut Vec<LanguageEntry>, e: LanguageEntry)
    requires
        sorted_by(lang_views(old(v)@), lang_order()),
    ensures
        sorted_by(lang_views(final(v)@), lang_order()),
        lang_views(final(v)@).to_multiset() == lang_views(old(v)@).to_multiset().insert(
            lang_view(e),
        ),
{
    proof {
        lemma_lang_order_total();
    }
    let n: usize = v.len();
    let mut idx: usize = 0;
    while idx < n && !lang_le_dec(&e, &v[idx])
        invariant
            n == v.len(),
            0 <= idx <= n,
            forall|j: int| 0 <= j < idx ==> !lang_order()(lang_view(e), lang_views(v@)[j]),
            forall|j: int| 0 <= j < n ==> lang_views(v@)[j] == lang_view(v@[j]),
        decreases n - idx,
    {
        idx = idx + 1;
    }
    let ghost vs0 = lang_views(v@);
    v.insert(idx, e);
    proof {
        lemma_lang_order_total();
        assert(lang_views(v@) =~= vs0.insert(idx as int, lang_view(e)));
        vs0.insert_ensures(idx as int, lang_view(e));
        lemma_insert_to_multiset(vs0, idx as int, lang_view(e));
        let leq = lang_order();
        let vs1 = lang_views(v@);
        assert forall|a: int, b: int| 0 <= a < b < vs1.len() implies leq(vs1[a], vs1[b]) by {
            if b < idx {
                assert(vs1[a] == vs0[a] && vs1[b] == vs0[b]);
            } else if a > idx {
                assert(vs1[a] == vs0[a - 1] && vs1[b] == vs0[b - 1]);
            } else if a < idx && b == idx {
                assert(vs1[a] == vs0[a]);
                assert(!leq(lang_view(e), vs0[a]));
            } else if a == idx && b > idx {
                assert(vs1[b] == vs0[b - 1]);
                if idx < vs0.len() {
                    assert(leq(lang_view(e), vs0[idx as int]));
                    assert(leq(vs0[idx as int], vs0[b - 1]) || idx as int == b - 1);
                }
            } else if a < idx && b > idx {
                assert(vs1[a] == vs0[a] && vs1[b] == vs0[b - 1]);
            }
        }
    }
}

/// Turn the accumulated byte tally into the report's language list:
/// one entry per language holding its rounded permille of the total, sorted
/// by share descending and name ascending; empty when nothing was classified.
pub fn build_language_list(bytes_by_lang: &LangBytes) -> (r: Vec<LanguageEntry>)
    requires
        bytes_by_lang.wf(),
    ensures
        lang_views(r@) == spec_language_list(bytes_by_lang.pairs()),
{
    let ghost s = bytes_by_lang.pairs();
    let ghost t = total_bytes(s);
    let total: u128 = bytes_by_lang.total();
    if total == 0 {
        let r: Vec<LanguageEntry> = Vec::new();
        proof {
            assert(lang_views(r@) =~= spec_language_list(s));
        }
        return r;
    }
    let n: usize = bytes_by_lang.entries.len();
    let mut r: Vec<LanguageEntry> = Vec::new();
    let mut i: usize = 0;
    proof {
        assert(perm_entries(s.take(0), t) =~= Seq::<(Seq<char>, Seq<char>, u64)>::empty());
        assert(lang_views(r@) =~= Seq::<(Seq<char>, Seq<char>, u64)>::empty());
        vstd::seq_lib::lemma_seq_empty_equality::<(Seq<char>, Seq<char>, u64)>(lang_views(r@));
    }
    while i < n
        invariant
            n == bytes_by_lang.entries.len(),
            n == s.len(),
            s == bytes_by_lang.pairs(),
            t == total_bytes(s),
            total as int == t,
            0 < t,
            0 <= i <= n,
            sorted_by(lang_views(r@), lang_order()),
            lang_views(r@).to_multiset() == perm_entries(s.take(i as int), t).to_multiset(),
        decreases n - i,
    {
        let name: String = bytes_by_lang.entries[i].0.clone();
        let b: u64 = bytes_by_lang.entries[i].1;
        proof {
            lemma_elem_le_total(s, i as int);
            assert(s[i as int] == (bytes_by_lang.entries@[i as int].0@,
            bytes_by_lang.entries@[i as int].1));
        }
        let p: u64 = permille_calc(b as u128, total);
        let e = LanguageEntry { name, category: String::from_str("language"), permille: p };
        proof {
            assert(lang_view(e) == perm_entry(s[i as int], t));
        }
        let ghost before = lang_views(r@);
        insert_lang_sorted(&mut r, e);
        proof {
            broadcast use vstd::seq_lib::group_to_multiset_ensures;

            assert(s.take(i + 1).drop_last() =~= s.take(i as int));
            assert(perm_entries(s.take(i + 1), t) =~= perm_entries(s.take(i as int), t).push(
                perm_entry(s[i as int], t),
            ));
        }
        i = i + 1;
    }
    proof {
        assert(s.take(n as int) =~= s);
        lemma_lang_order_total();
        perm_entries(s, t).lemma_sort_by_ensures(lang_order());
        vstd::seq_lib::lemma_sorted_unique(
            lang_views(r@),
            perm_entries(s, t).sort_by(lang_order()),
            lang_order(),
        );
    }
    r
}

/// The sum of the permille shares over a tally's entries.
pub open spec fn permille_sum(s: Seq<(Seq<char>, u64)>, t: int) -> int
    decreases s.len(),
{
    if s.len() == 0 {
        0
    } else {
        permille_sum(s.drop_last(), t) + permille_of(s.last().1 as int, t)
    }
}

/// The sum of the rounding remainders over a tally's entries.
pub open spec fn rem_sum(s: Seq<(Seq<char>, u64)>, t: int) -> int
    decreases s.len(),
{
    if s.len() == 0 {
        0
    } else {
        rem_sum(s.drop_last(), t) + (2000 * s.last().1 + t) % (2 * t)
    }
}

proof fn lemma_permille_sum_identity(s: Seq<(Seq<char>, u64)>, t: int)
    requires
        t > 0,
    ensures
        (2 * t) * permille_sum(s, t) == 2000 * total_bytes(s) + s.len() * t - rem_sum(s, t),
        0 <= rem_sum(s, t),
        rem_sum(s, t) <= s.len() * (2 * t - 1),
    decreases s.len(),
{
    if s.len() == 0 {
    } else {
        let s0 = s.drop_last();
        lemma_permille_sum_identity(s0, t);
        let b = s.last().1 as int;
        let x = 2000 * b + t;
        let d = 2 * t;
        let q = permille_of(b, t);
        let r = x % d;
        lemma_fundamental_div_mod(x, d);
        lemma_mod_bound(x, d);
        lemma_mul_is_distributive_add(d, permille_sum(s0, t), q);
        assert(total_bytes(s) == total_bytes(s0) + b);
        assert(s.len() * t == s0.len() * t + t) by (nonlinear_arith)
            requires s.len() == s0.len() + 1;
        assert(s.len() * (2 * t - 1) == s0.len() * (2 * t - 1) + (2 * t - 1))
            by (nonlinear_arith)
            requires s.len() == s0.len() + 1;
    }
}

/// For any tally with at least one classified byte, the permille sum
/// deviates from 1000 by no more than the number of languages: each entry
/// contributes at most half a permille of rounding error.
pub proof fn lemma_permille_sum_bounded(s: Seq<(Seq<char>, u64)>)
    requires
        total_bytes(s) > 0,
    ensures
        1000 - s.len() <= permille_sum(s, total_bytes(s)) <= 1000 + s.len(),
{
    let t = total_bytes(s);
    let n = s.len() as int;
    let sum = permille_sum(s, t);
    let rem = rem_sum(s, t);
    lemma_permille_sum_identity(s, t);
    assert((2 * t) * sum == 2000 * t + n * t - rem);
    assert(n * t - n * (2 * t - 1) == n - n * t) by (nonlinear_arith);
    if sum > 1000 + n {
        lemma_mul_inequality(1001 + n, sum, 2 * t);
        assert((1001 + n) * (2 * t) == 2002 * t + n * (2 * t)) by (nonlinear_arith);
        assert(n * (2 * t) >= 2 * (n * t)) by (nonlinear_arith);
        assert(false);
    }
    if sum < 1000 - n {
        lemma_mul_inequality(sum, 999 - n, 2 * t);
        assert((999 - n) * (2 * t) == 1998 * t - n * (2 * t)) by (nonlinear_arith);
        assert(n * (2 * t) == 2 * (n * t)) by (nonlinear_arith);
        assert((2 * t) * sum >= 2000 * t + n - n * t);
        assert(n * t <= n * (2 * t - 1) + t) by (nonlinear_arith)
            requires n >= 0, t > 0;
        assert(false);
    }
}

/// LAW: whenever at least one byte was classified and at most three
/// languages occur, the permille shares in the report sum to a value
/// within one tenth of a percent of 100%, that is, to [999, 1001].
pub proof fn lemma_permille_sum_near_total(s: Seq<(Seq<char>, u64)>)
    requires
        total_bytes(s) > 0,
        s.len() <= 3,
    ensures
        999 <= permille_sum(s, total_bytes(s)) <= 1001,
{
    let t = total_bytes(s);
    let n = s.len() as int;
    let sum = permille_sum(s, t);
    let rem = rem_sum(s, t);
    lemma_permille_sum_identity(s, t);
    assert((2 * t) * sum == 2000 * t + n * t - rem);
    assert(n * t <= 3 * t) by (nonlinear_arith)
        requires 0 <= n <= 3, t > 0;
    assert(n * t - n * (2 * t - 1) == n - n * t) by (nonlinear_arith);
    if sum > 1001 {
        lemma_mul_inequality(1002, sum, 2 * t);
        assert(1002 * (2 * t) == 2004 * t) by (nonlinear_arith);
        assert((2 * t) * sum <= 2003 * t);
        assert(false);
    }
    if sum < 999 {
        lemma_mul_inequality(sum, 998, 2 * t);
        assert(998 * (2 * t) == 1996 * t) by (nonlinear_arith);
        assert(rem <= n * (2 * t - 1));
        assert((2 * t) * sum >= 2000 * t + n - n * t);
        assert((2 * t) * sum >= 1997 * t);
        assert(false);
    }
}

/// The sum of the permille fields over report entries.
pub open spec fn entries_permille_sum(e: Seq<(Seq<char>, Seq<char>, u64)>) -> int
    decreases e.len(),
{
    if e.len() == 0 {
        0
    } else {
        entries_permille_sum(e.drop_last()) + e.last().2
    }
}

proof fn lemma_sum_remove(e: Seq<(Seq<char>, Seq<char>, u64)>, j: int)
    requires
        0 <= j < e.len(),
    ensures
        entries_permille_sum(e) == entries_permille_sum(e.remove(j)) + e[j].2,
    decreases e.len(),
{
    if j == e.len() - 1 {
        assert(e.remove(j) =~= e.drop_last());
    } else {
        assert(e.remove(j).drop_last() =~= e.drop_last().remove(j));
        assert(e.remove(j).last() == e.last());
        lemma_sum_remove(e.drop_last(), j);
        assert(e.drop_last()[j] == e[j]);
    }
}

/// Entry sums are invariant under reordering.
proof fn lemma_sum_permutation(
    e1: Seq<(Seq<char>, Seq<char>, u64)>,
    e2: Seq<(Seq<char>, Seq<char>, u64)>,
)
    requires
        e1.to_multiset() == e2.to_multiset(),
    ensures
        entries_permille_sum(e1) == entries_permille_sum(e2),
    decreases e1.len(),
{
    broadcast use vstd::seq_lib::group_to_multiset_ensures;
    broadcast use vstd::multiset::group_multiset_axioms;

    if e1.len() == 0 {
        assert(e1.to_multiset().len() == 0);
        assert(e2.len() == 0);
    } else {
        let x = e1.last();
        assert(e1.drop_last().push(x) =~= e1);
        assert(e1.to_multiset().contains(x));
        assert(e2.to_multiset().contains(x));
        assert(e2.contains(x));
        let j = choose|j: int| 0 <= j < e2.len() && e2[j] == x;
        lemma_sum_remove(e2, j);
        assert(e1.drop_last().to_multiset() =~= e1.to_multiset().remove(x));
        assert(e2.remove(j).to_multiset() =~= e2.to_multiset().remove(x));
        lemma_sum_permutation(e1.drop_last(), e2.remove(j));
    }
}

proof fn lemma_perm_entries_sum(s: Seq<(Seq<char>, u64)>, t: int)
    requires
        t > 0,
        forall|i: int| 0 <= i < s.len() ==> 0 <= #[trigger] s[i].1 <= t,
    ensures
        entries_permille_sum(perm_entries(s, t)) == permille_sum(s, t),
    decreases s.len(),
{
    if s.len() > 0 {
        let s0 = s.drop_last();
        assert(perm_entries(s, t).drop_last() =~= perm_entries(s0, t));
        assert(forall|i: int| 0 <= i < s0.len() ==> s0[i] == s[i]);
        lemma_perm_entries_sum(s0, t);
        lemma_permille_range(s.last().1 as int, t);
        assert(perm_entries(s, t).last() == perm_entry(s.last(), t));
    }
}

/// LAW: for any tally with at least one classified byte and at most three
/// languages, the permille values of the reported, sorted language list sum
/// to [999, 1001] — that is, the reported percentages sum to a value in
/// [99.9, 100.1].
pub proof fn lemma_report_percentage_sum(s: Seq<(Seq<char>, u64)>)
    requires
        total_bytes(s) > 0,
        s.len() <= 3,
    ensures
        999 <= entries_permille_sum(spec_language_list(s)) <= 1001,
{
    let t = total_bytes(s);
    lemma_permille_sum_near_total(s);
    assert forall|i: int| 0 <= i < s.len() implies 0 <= #[trigger] s[i].1 <= t by {
        lemma_elem_le_total(s, i);
    }
    lemma_perm_entries_sum(s, t);
    lemma_lang_order_total();
    perm_entries(s, t).lemma_sort_by_ensures(lang_order());
    lemma_sum_permutation(spec_language_list(s), perm_entries(s, t));
}

/// The byte tally a list of scanned files produces, on top of a starting
/// tally: binary-extension files are skipped, every other file with a
/// classified extension adds its size under its language.
pub open spec fn tally_files(
    s0: Seq<(Seq<char>, u64)>,
    files: Seq<(Seq<char>, u64)>,
) -> Seq<(Seq<char>, u64)>
    decreases files.len(),
{
    if files.len() == 0 {
        s0
    } else {
        let rest = tally_files(s0, files.drop_last());
        let f = files.last();
        if is_binary_ext(f.0) {
            rest
        } else {
            spec_record(rest, f.0, f.1)
        }
    }
}

/// LAW: a file whose extension stands in the binary table never contributes
/// to the byte tally: removing it from the scanned file list leaves the
/// tally — and with it the reported language list — unchanged.
pub proof fn lemma_binary_never_counted(
    s0: Seq<(Seq<char>, u64)>,
    files: Seq<(Seq<char>, u64)>,
    i: int,
)
    requires
        0 <= i < files.len(),
        is_binary_ext(files[i].0),
    ensures
        tally_files(s0, files) == tally_files(s0, files.remove(i)),
    decreases files.len(),
{
    if i == files.len() - 1 {
        assert(files.remove(i) =~= files.drop_last());
    } else {
        assert(files.remove(i).drop_last() =~= files.drop_last().remove(i));
        assert(files.remove(i).last() == files.last());
        lemma_binary_never_counted(s0, files.drop_last(), i);
        assert(files.drop_last()[i] == files[i]);
    }
}

} // verus!
