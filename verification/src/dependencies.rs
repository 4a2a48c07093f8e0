//! Dependency-manifest parsing: one detector per ecosystem, each matching a
//! static keyword table against the root-level manifest the caller read.
//! JSON manifests are parsed through serde_json behind one trusted wrapper
//! whose result carries a name; the matching itself is verified.

use vstd::prelude::*;

verus! {

use crate::frameworks::{lemma_sig_set_distinct, sig_set, SignalMap};
use crate::languages::keys_distinct;
use crate::strings::{contains_chars, contains_name, contains_seq, lower_seq, to_chars,
    to_lower_chars};

/// The names of the members of the object stored under `key` in the JSON
/// document `doc`: what `serde_json::from_str` followed by `Value::get` and
/// `Map::keys` hands back. The result is a function of the two texts alone;
/// a document that does not parse, a missing key and a non-object member
/// all yield the same list as an empty object.
pub uninterp spec fn json_obj_keys(doc: Seq<char>, key: Seq<char>) -> Seq<Seq<char>>;

/// Relies on serde_json::from_str, Value::get, Value::as_object and
/// Map::keys: the names of the members of the JSON object stored under
/// `key`, and nothing for text that does not parse, a missing key or a
/// non-object member. The intermediate JSON values cannot be spoken of, so
/// the one composite result carries the name.
#[verifier::external_body]
fn json_member_keys(content: &str, key: &str) -> (r: Vec<String>)
    ensures
        r.deep_view() == json_obj_keys(content@, key@),
{
    match serde_json::from_str::<serde_json::Value>(content) {
        Ok(v) => match v.get(key) {
            Some(d) => match d.as_object() {
                Some(o) => o.keys().cloned().collect(),
                None => Vec::new(),
            },
            None => Vec::new(),
        },
        Err(_) => Vec::new(),
    }
}

/// The dependency names an npm package manifest declares: the keys of its
/// dependency and development-dependency objects.
pub open spec fn npm_declared(doc: Seq<char>) -> Seq<Seq<char>> {
    json_obj_keys(doc, "dependencies"@) + json_obj_keys(doc, "devDependencies"@)
}

/// The package names a PHP package manifest requires: the keys of its
/// require and require-dev objects.
pub open spec fn php_required(doc: Seq<char>) -> Seq<Seq<char>> {
    json_obj_keys(doc, "require"@) + json_obj_keys(doc, "require-dev"@)
}

/// The declared names of the two objects under `key1` and `key2`, one
/// object's keys after the other's.
fn member_keys_of_two(content: &str, key1: &str, key2: &str) -> (r: Vec<String>)
    ensures
        r.deep_view() == json_obj_keys(content@, key1@) + json_obj_keys(content@, key2@),
{
    let mut deps = json_member_keys(content, key1);
    let mut more = json_member_keys(content, key2);
    let ghost d1 = deps.deep_view();
    let ghost d2 = more.deep_view();
    deps.append(&mut more);
    proof {
        assert(deps.deep_view() =~= d1 + d2);
    }
    deps
}


/// Part 1 of the npm package table.
pub open spec fn spec_npm_a(
    p0: Seq<(Seq<char>, Seq<char>)>,
    deps: Seq<Seq<char>>,
) -> Seq<(Seq<char>, Seq<char>)> {
    let p = p0;
    let p = if deps.contains("react"@) { sig_set(p, "React"@, "framework"@) } else { p };
    let p = if deps.contains("react-native"@) { sig_set(p, "React Native"@, "framework"@) } else { p };
    let p = if deps.contains("next"@) { sig_set(p, "Next.js"@, "framework"@) } else { p };
    let p = if deps.contains("vue"@) { sig_set(p, "Vue"@, "framework"@) } else { p };
    let p = if deps.contains("nuxt"@) { sig_set(p, "Nuxt"@, "framework"@) } else { p };
    let p = if deps.contains("svelte"@) { sig_set(p, "Svelte"@, "framework"@) } else { p };
    let p = if deps.contains("@angular/core"@) { sig_set(p, "Angular"@, "framework"@) } else { p };
    let p = if deps.contains("express"@) { sig_set(p, "Express"@, "framework"@) } else { p };
    p
}

/// Part 2 of the npm package table.
pub open spec fn spec_npm_b(
    p0: Seq<(Seq<char>, Seq<char>)>,
    deps: Seq<Seq<char>>,
) -> Seq<(Seq<char>, Seq<char>)> {
    let p = p0;
    let p = if deps.contains("fastify"@) { sig_set(p, "Fastify"@, "framework"@) } else { p };
    let p = if deps.contains("gatsby"@) { sig_set(p, "Gatsby"@, "framework"@) } else { p };
    let p = if deps.contains("remix"@) { sig_set(p, "Remix"@, "framework"@) } else { p };
    let p = if deps.contains("@nestjs/core"@) { sig_set(p, "NestJS"@, "framework"@) } else { p };
    let p = if deps.contains("koa"@) { sig_set(p, "Koa"@, "framework"@) } else { p };
    let p = if deps.contains("tailwindcss"@) { sig_set(p, "Tailwind CSS"@, "framework"@) } else { p };
    let p = if deps.contains("prisma"@) { sig_set(p, "Prisma"@, "tool"@) } else { p };
    let p = if deps.contains("mongoose"@) { sig_set(p, "Mongoose"@, "tool"@) } else { p };
    p
}

/// Part 3 of the npm package table.
pub open spec fn spec_npm_c(
    p0: Seq<(Seq<char>, Seq<char>)>,
    deps: Seq<Seq<char>>,
) -> Seq<(Seq<char>, Seq<char>)> {
    let p = p0;
    let p = if deps.contains("sequelize"@) { sig_set(p, "Sequelize"@, "tool"@) } else { p };
    let p = if deps.contains("jest"@) { sig_set(p, "Jest"@, "tool"@) } else { p };
    let p = if deps.contains("mocha"@) { sig_set(p, "Mocha"@, "tool"@) } else { p };
    let p = if deps.contains("webpack"@) { sig_set(p, "Webpack"@, "tool"@) } else { p };
    let p = if deps.contains("vite"@) { sig_set(p, "Vite"@, "tool"@) } else { p };
    let p = if deps.contains("typescript"@) { sig_set(p, "TypeScript"@, "language"@) } else { p };
    let p = if deps.contains("three"@) { sig_set(p, "Three.js"@, "framework"@) } else { p };
    let p = if deps.contains("electron"@) { sig_set(p, "Electron"@, "framework"@) } else { p };
    p
}

/// Part 4 of the npm package table.
pub open spec fn spec_npm_d(
    p0: Seq<(Seq<char>, Seq<char>)>,
    deps: Seq<Seq<char>>,
) -> Seq<(Seq<char>, Seq<char>)> {
    let p = p0;
    let p = if deps.contains("socket.io"@) { sig_set(p, "Socket.IO"@, "framework"@) } else { p };
    let p = if deps.contains("graphql"@) { sig_set(p, "GraphQL"@, "tool"@) } else { p };
    let p = if deps.contains("@apollo/client"@) { sig_set(p, "Apollo"@, "framework"@) } else { p };
    let p = if deps.contains("redis"@) { sig_set(p, "Redis"@, "tool"@) } else { p };
    let p = if deps.contains("pg"@) { sig_set(p, "PostgreSQL"@, "tool"@) } else { p };
    let p = if deps.contains("mongodb"@) { sig_set(p, "MongoDB"@, "tool"@) } else { p };
    let p = if deps.contains("supabase"@) { sig_set(p, "Supabase"@, "tool"@) } else { p };
    let p = if deps.contains("firebase"@) { sig_set(p, "Firebase"@, "tool"@) } else { p };
    p
}

/// What the npm package table adds to the signal map for a given list of
/// declared dependency names, in table order.
pub open spec fn npm_apply(
    p0: Seq<(Seq<char>, Seq<char>)>,
    deps: Seq<Seq<char>>,
) -> Seq<(Seq<char>, Seq<char>)> {
    spec_npm_d(spec_npm_c(spec_npm_b(spec_npm_a(p0, deps), deps), deps), deps)
}

fn apply_npm_a(deps: &Vec<String>, frameworks: &mut SignalMap)
    requires
        old(frameworks).wf(),
    ensures
        final(frameworks).wf(),
        final(frameworks).pairs() == spec_npm_a(old(frameworks).pairs(), deps.deep_view()),
{
    if contains_name(deps, "react") {
        frameworks.insert("React", "framework");
    }
    if contains_name(deps, "react-native") {
        frameworks.insert("React Native", "framework");
    }
    if contains_name(deps, "next") {
        frameworks.insert("Next.js", "framework");
    }
    if contains_name(deps, "vue") {
        frameworks.insert("Vue", "framework");
    }
    if contains_name(deps, "nuxt") {
        frameworks.insert("Nuxt", "framework");
    }
    if contains_name(deps, "svelte") {
        frameworks.insert("Svelte", "framework");
    }
    if contains_name(deps, "@angular/core") {
        frameworks.insert("Angular", "framework");
    }
    if contains_name(deps, "express") {
        frameworks.insert("Express", "framework");
    }
}

fn apply_npm_b(deps: &Vec<String>, frameworks: &mut SignalMap)
    requires
        old(frameworks).wf(),
    ensures
        final(frameworks).wf(),
        final(frameworks).pairs() == spec_npm_b(old(frameworks).pairs(), deps.deep_view()),
{
    if contains_name(deps, "fastify") {
        frameworks.insert("Fastify", "framework");
    }
    if contains_name(deps, "gatsby") {
        frameworks.insert("Gatsby", "framework");
    }
    if contains_name(deps, "remix") {
        frameworks.insert("Remix", "framework");
    }
    if contains_name(deps, "@nestjs/core") {
        frameworks.insert("NestJS", "framework");
    }
    if contains_name(deps, "koa") {
        frameworks.insert("Koa", "framework");
    }
    if contains_name(deps, "tailwindcss") {
        frameworks.insert("Tailwind CSS", "framework");
    }
    if contains_name(deps, "prisma") {
        frameworks.insert("Prisma", "tool");
    }
    if contains_name(deps, "mongoose") {
        frameworks.insert("Mongoose", "tool");
    }
}

fn apply_npm_c(deps: &Vec<String>, frameworks: &mut SignalMap)
    requires
        old(frameworks).wf(),
    ensures
        final(frameworks).wf(),
        final(frameworks).pairs() == spec_npm_c(old(frameworks).pairs(), deps.deep_view()),
{
    if contains_name(deps, "sequelize") {
        frameworks.insert("Sequelize", "tool");
    }
    if contains_name(deps, "jest") {
        frameworks.insert("Jest", "tool");
    }
    if contains_name(deps, "mocha") {
        frameworks.insert("Mocha", "tool");
    }
    if contains_name(deps, "webpack") {
        frameworks.insert("Webpack", "tool");
    }
    if contains_name(deps, "vite") {
        frameworks.insert("Vite", "tool");
    }
    if contains_name(deps, "typescript") {
        frameworks.insert("TypeScript", "language");
    }
    if contains_name(deps, "three") {
        frameworks.insert("Three.js", "framework");
    }
    if contains_name(deps, "electron") {
        frameworks.insert("Electron", "framework");
    }
}

fn apply_npm_d(deps: &Vec<String>, frameworks: &mut SignalMap)
    requires
        old(frameworks).wf(),
    ensures
        final(frameworks).wf(),
        final(frameworks).pairs() == spec_npm_d(old(frameworks).pairs(), deps.deep_view()),
{
    if contains_name(deps, "socket.io") {
        frameworks.insert("Socket.IO", "framework");
    }
    if contains_name(deps, "graphql") {
        frameworks.insert("GraphQL", "tool");
    }
    if contains_name(deps, "@apollo/client") {
        frameworks.insert("Apollo", "framework");
    }
    if contains_name(deps, "redis") {
        frameworks.insert("Redis", "tool");
    }
    if contains_name(deps, "pg") {
        frameworks.insert("PostgreSQL", "tool");
    }
    if contains_name(deps, "mongodb") {
        frameworks.insert("MongoDB", "tool");
    }
    if contains_name(deps, "supabase") {
        frameworks.insert("Supabase", "tool");
    }
    if contains_name(deps, "firebase") {
        frameworks.insert("Firebase", "tool");
    }
}

/// Match a list of declared npm dependency names against the package table:
/// each listed name records its display name and category.
pub fn apply_npm_table(deps: &Vec<String>, frameworks: &mut SignalMap)
    requires
        old(frameworks).wf(),
    ensures
        final(frameworks).wf(),
        final(frameworks).pairs() == npm_apply(old(frameworks).pairs(), deps.deep_view()),
{
    apply_npm_a(deps, frameworks);
    apply_npm_b(deps, frameworks);
    apply_npm_c(deps, frameworks);
    apply_npm_d(deps, frameworks);
}

/// Detect frameworks from the text of an npm package manifest: the names
/// declared under its dependency and development-dependency objects are
/// matched against the package table. Text that is not well-formed JSON
/// declares nothing and contributes nothing.
pub fn detect_npm(content: &str, frameworks: &mut SignalMap)
    requires
        old(frameworks).wf(),
    ensures
        final(frameworks).wf(),
        final(frameworks).pairs() == npm_apply(old(frameworks).pairs(), npm_declared(content@)),
{
    let deps = member_keys_of_two(content, "dependencies", "devDependencies");
    apply_npm_table(&deps, frameworks);
}

/// Part 1 of the Python keyword table.
pub open spec fn spec_python_a(
    p0: Seq<(Seq<char>, Seq<char>)>,
    l: Seq<char>,
) -> Seq<(Seq<char>, Seq<char>)> {
    let p = p0;
    let p = if contains_seq(l, "django"@) { sig_set(p, "Django"@, "framework"@) } else { p };
    let p = if contains_seq(l, "flask"@) { sig_set(p, "Flask"@, "framework"@) } else { p };
    let p = if contains_seq(l, "fastapi"@) { sig_set(p, "FastAPI"@, "framework"@) } else { p };
    let p = if contains_seq(l, "tornado"@) { sig_set(p, "Tornado"@, "framework"@) } else { p };
    let p = if contains_seq(l, "celery"@) { sig_set(p, "Celery"@, "tool"@) } else { p };
    let p = if contains_seq(l, "sqlalchemy"@) { sig_set(p, "SQLAlchemy"@, "tool"@) } else { p };
    let p = if contains_seq(l, "pandas"@) { sig_set(p, "pandas"@, "framework"@) } else { p };
    let p = if contains_seq(l, "numpy"@) { sig_set(p, "NumPy"@, "framework"@) } else { p };
    let p = if contains_seq(l, "scipy"@) { sig_set(p, "SciPy"@, "framework"@) } else { p };
    p
}

/// Part 2 of the Python keyword table.
pub open spec fn spec_python_b(
    p0: Seq<(Seq<char>, Seq<char>)>,
    l: Seq<char>,
) -> Seq<(Seq<char>, Seq<char>)> {
    let p = p0;
    let p = if contains_seq(l, "scikit-learn"@) { sig_set(p, "scikit-learn"@, "framework"@) } else { p };
    let p = if contains_seq(l, "tensorflow"@) { sig_set(p, "TensorFlow"@, "framework"@) } else { p };
    let p = if contains_seq(l, "torch"@) { sig_set(p, "PyTorch"@, "framework"@) } else { p };
    let p = if contains_seq(l, "pytest"@) { sig_set(p, "pytest"@, "tool"@) } else { p };
    let p = if contains_seq(l, "pydantic"@) { sig_set(p, "Pydantic"@, "tool"@) } else { p };
    let p = if contains_seq(l, "requests"@) { sig_set(p, "Requests"@, "tool"@) } else { p };
    let p = if contains_seq(l, "boto3"@) { sig_set(p, "AWS SDK"@, "tool"@) } else { p };
    let p = if contains_seq(l, "redis"@) { sig_set(p, "Redis"@, "tool"@) } else { p };
    let p = if contains_seq(l, "psycopg2"@) { sig_set(p, "PostgreSQL"@, "tool"@) } else { p };
    p
}

/// What the Python keyword table adds to the signal map for a given
/// manifest text: a keyword counts as present when it occurs, case folded,
/// anywhere in the text.
pub open spec fn python_apply(
    p0: Seq<(Seq<char>, Seq<char>)>,
    content: Seq<char>,
) -> Seq<(Seq<char>, Seq<char>)> {
    spec_python_b(spec_python_a(p0, lower_seq(content)), lower_seq(content))
}

fn apply_python_a(l: &Vec<char>, frameworks: &mut SignalMap)
    requires
        old(frameworks).wf(),
    ensures
        final(frameworks).wf(),
        final(frameworks).pairs() == spec_python_a(old(frameworks).pairs(), l@),
{
    if contains_chars(l, "django") {
        frameworks.insert("Django", "framework");
    }
    if contains_chars(l, "flask") {
        frameworks.insert("Flask", "framework");
    }
    if contains_chars(l, "fastapi") {
        frameworks.insert("FastAPI", "framework");
    }
    if contains_chars(l, "tornado") {
        frameworks.insert("Tornado", "framework");
    }
    if contains_chars(l, "celery") {
        frameworks.insert("Celery", "tool");
    }
    if contains_chars(l, "sqlalchemy") {
        frameworks.insert("SQLAlchemy", "tool");
    }
    if contains_chars(l, "pandas") {
        frameworks.insert("pandas", "framework");
    }
    if contains_chars(l, "numpy") {
        frameworks.insert("NumPy", "framework");
    }
    if contains_chars(l, "scipy") {
        frameworks.insert("SciPy", "framework");
    }
}

fn apply_python_b(l: &Vec<char>, frameworks: &mut SignalMap)
    requires
        old(frameworks).wf(),
    ensures
        final(frameworks).wf(),
        final(frameworks).pairs() == spec_python_b(old(frameworks).pairs(), l@),
{
    if contains_chars(l, "scikit-learn") {
        frameworks.insert("scikit-learn", "framework");
    }
    if contains_chars(l, "tensorflow") {
        frameworks.insert("TensorFlow", "framework");
    }
    if contains_chars(l, "torch") {
        frameworks.insert("PyTorch", "framework");
    }
    if contains_chars(l, "pytest") {
        frameworks.insert("pytest", "tool");
    }
    if contains_chars(l, "pydantic") {
        frameworks.insert("Pydantic", "tool");
    }
    if contains_chars(l, "requests") {
        frameworks.insert("Requests", "tool");
    }
    if contains_chars(l, "boto3") {
        frameworks.insert("AWS SDK", "tool");
    }
    if contains_chars(l, "redis") {
        frameworks.insert("Redis", "tool");
    }
    if contains_chars(l, "psycopg2") {
        frameworks.insert("PostgreSQL", "tool");
    }
}

/// Detect frameworks from a plain Python requirements listing by
/// case-insensitive substring containment of each table keyword.
pub fn detect_python(content: &str, frameworks: &mut SignalMap)
    requires
        old(frameworks).wf(),
    ensures
        final(frameworks).wf(),
        final(frameworks).pairs() == python_apply(old(frameworks).pairs(), content@),
{
    let lower = to_lower_chars(content);
    apply_python_a(&lower, frameworks);
    apply_python_b(&lower, frameworks);
}

/// Detect frameworks from a Python project metadata document, with the same
/// keyword table and matching as the plain requirements listing.
pub fn detect_pyproject(content: &str, frameworks: &mut SignalMap)
    requires
        old(frameworks).wf(),
    ensures
        final(frameworks).wf(),
        final(frameworks).pairs() == python_apply(old(frameworks).pairs(), content@),
{
    let lower = to_lower_chars(content);
    apply_python_a(&lower, frameworks);
    apply_python_b(&lower, frameworks);
}

/// Part 1 of the Rust crate table.
pub open spec fn spec_rust_a(
    p0: Seq<(Seq<char>, Seq<char>)>,
    l: Seq<char>,
) -> Seq<(Seq<char>, Seq<char>)> {
    let p = p0;
    let p = if contains_seq(l, "actix-web"@) { sig_set(p, "Actix Web"@, "framework"@) } else { p };
    let p = if contains_seq(l, "axum"@) { sig_set(p, "Axum"@, "framework"@) } else { p };
    let p = if contains_seq(l, "rocket"@) { sig_set(p, "Rocket"@, "framework"@) } else { p };
    let p = if contains_seq(l, "tokio"@) { sig_set(p, "Tokio"@, "tool"@) } else { p };
    let p = if contains_seq(l, "serde"@) { sig_set(p, "Serde"@, "tool"@) } else { p };
    let p = if contains_seq(l, "diesel"@) { sig_set(p, "Diesel"@, "tool"@) } else { p };
    p
}

/// Part 2 of the Rust crate table.
pub open spec fn spec_rust_b(
    p0: Seq<(Seq<char>, Seq<char>)>,
    l: Seq<char>,
) -> Seq<(Seq<char>, Seq<char>)> {
    let p = p0;
    let p = if contains_seq(l, "sqlx"@) { sig_set(p, "SQLx"@, "tool"@) } else { p };
    let p = if contains_seq(l, "leptos"@) { sig_set(p, "Leptos"@, "framework"@) } else { p };
    let p = if contains_seq(l, "yew"@) { sig_set(p, "Yew"@, "framework"@) } else { p };
    let p = if contains_seq(l, "tauri"@) { sig_set(p, "Tauri"@, "framework"@) } else { p };
    let p = if contains_seq(l, "wasm-bindgen"@) { sig_set(p, "WebAssembly"@, "tool"@) } else { p };
    p
}

/// What the Rust crate table adds to the signal map for a given crate
/// manifest text, matched case-insensitively.
pub open spec fn rust_apply(
    p0: Seq<(Seq<char>, Seq<char>)>,
    content: Seq<char>,
) -> Seq<(Seq<char>, Seq<char>)> {
    spec_rust_b(spec_rust_a(p0, lower_seq(content)), lower_seq(content))
}

fn apply_rust_a(l: &Vec<char>, frameworks: &mut SignalMap)
    requires
        old(frameworks).wf(),
    ensures
        final(frameworks).wf(),
        final(frameworks).pairs() == spec_rust_a(old(frameworks).pairs(), l@),
{
    if contains_chars(l, "actix-web") {
        frameworks.insert("Actix Web", "framework");
    }
    if contains_chars(l, "axum") {
        frameworks.insert("Axum", "framework");
    }
    if contains_chars(l, "rocket") {
        frameworks.insert("Rocket", "framework");
    }
    if contains_chars(l, "tokio") {
        frameworks.insert("Tokio", "tool");
    }
    if contains_chars(l, "serde") {
        frameworks.insert("Serde", "tool");
    }
    if contains_chars(l, "diesel") {
        frameworks.insert("Diesel", "tool");
    }
}

fn apply_rust_b(l: &Vec<char>, frameworks: &mut SignalMap)
    requires
        old(frameworks).wf(),
    ensures
        final(frameworks).wf(),
        final(frameworks).pairs() == spec_rust_b(old(frameworks).pairs(), l@),
{
    if contains_chars(l, "sqlx") {
        frameworks.insert("SQLx", "tool");
    }
    if contains_chars(l, "leptos") {
        frameworks.insert("Leptos", "framework");
    }
    if contains_chars(l, "yew") {
        frameworks.insert("Yew", "framework");
    }
    if contains_chars(l, "tauri") {
        frameworks.insert("Tauri", "framework");
    }
    if contains_chars(l, "wasm-bindgen") {
        frameworks.insert("WebAssembly", "tool");
    }
}

/// Detect frameworks from a Rust crate manifest by case-insensitive
/// substring containment of each table keyword.
pub fn detect_rust(content: &str, frameworks: &mut SignalMap)
    requires
        old(frameworks).wf(),
    ensures
        final(frameworks).wf(),
        final(frameworks).pairs() == rust_apply(old(frameworks).pairs(), content@),
{
    let lower = to_lower_chars(content);
    apply_rust_a(&lower, frameworks);
    apply_rust_b(&lower, frameworks);
}

/// The Ruby gem table.
pub open spec fn spec_ruby_all(
    p0: Seq<(Seq<char>, Seq<char>)>,
    l: Seq<char>,
) -> Seq<(Seq<char>, Seq<char>)> {
    let p = p0;
    let p = if contains_seq(l, "rails"@) { sig_set(p, "Ruby on Rails"@, "framework"@) } else { p };
    let p = if contains_seq(l, "sinatra"@) { sig_set(p, "Sinatra"@, "framework"@) } else { p };
    let p = if contains_seq(l, "sidekiq"@) { sig_set(p, "Sidekiq"@, "tool"@) } else { p };
    let p = if contains_seq(l, "rspec"@) { sig_set(p, "RSpec"@, "tool"@) } else { p };
    p
}

/// What the Ruby gem table adds to the signal map for a given gem manifest
/// text, matched case-insensitively.
pub open spec fn ruby_apply(
    p0: Seq<(Seq<char>, Seq<char>)>,
    content: Seq<char>,
) -> Seq<(Seq<char>, Seq<char>)> {
    spec_ruby_all(p0, lower_seq(content))
}

fn apply_ruby_all(l: &Vec<char>, frameworks: &mut SignalMap)
    requires
        old(frameworks).wf(),
    ensures
        final(frameworks).wf(),
        final(frameworks).pairs() == spec_ruby_all(old(frameworks).pairs(), l@),
{
    if contains_chars(l, "rails") {
        frameworks.insert("Ruby on Rails", "framework");
    }
    if contains_chars(l, "sinatra") {
        frameworks.insert("Sinatra", "framework");
    }
    if contains_chars(l, "sidekiq") {
        frameworks.insert("Sidekiq", "tool");
    }
    if contains_chars(l, "rspec") {
        frameworks.insert("RSpec", "tool");
    }
}

/// Detect frameworks from a Ruby gem manifest by case-insensitive substring
/// containment of each table keyword.
pub fn detect_ruby(content: &str, frameworks: &mut SignalMap)
    requires
        old(frameworks).wf(),
    ensures
        final(frameworks).wf(),
        final(frameworks).pairs() == ruby_apply(old(frameworks).pairs(), content@),
{
    let lower = to_lower_chars(content);
    apply_ruby_all(&lower, frameworks);
}

/// The Go module table.
pub open spec fn spec_go_all(
    p0: Seq<(Seq<char>, Seq<char>)>,
    l: Seq<char>,
) -> Seq<(Seq<char>, Seq<char>)> {
    let p = p0;
    let p = if contains_seq(l, "github.com/gin-gonic/gin"@) { sig_set(p, "Gin"@, "framework"@) } else { p };
    let p = if contains_seq(l, "github.com/gorilla/mux"@) { sig_set(p, "Gorilla Mux"@, "framework"@) } else { p };
    let p = if contains_seq(l, "github.com/labstack/echo"@) { sig_set(p, "Echo"@, "framework"@) } else { p };
    let p = if contains_seq(l, "github.com/gofiber/fiber"@) { sig_set(p, "Fiber"@, "framework"@) } else { p };
    let p = if contains_seq(l, "gorm.io/gorm"@) { sig_set(p, "GORM"@, "tool"@) } else { p };
    p
}

/// What the Go module table adds to the signal map for a given module file
/// text. Module paths are case-sensitive, so no folding happens here.
pub open spec fn go_apply(
    p0: Seq<(Seq<char>, Seq<char>)>,
    content: Seq<char>,
) -> Seq<(Seq<char>, Seq<char>)> {
    spec_go_all(p0, content)
}

fn apply_go_all(l: &Vec<char>, frameworks: &mut SignalMap)
    requires
        old(frameworks).wf(),
    ensures
        final(frameworks).wf(),
        final(frameworks).pairs() == spec_go_all(old(frameworks).pairs(), l@),
{
    if contains_chars(l, "github.com/gin-gonic/gin") {
        frameworks.insert("Gin", "framework");
    }
    if contains_chars(l, "github.com/gorilla/mux") {
        frameworks.insert("Gorilla Mux", "framework");
    }
    if contains_chars(l, "github.com/labstack/echo") {
        frameworks.insert("Echo", "framework");
    }
    if contains_chars(l, "github.com/gofiber/fiber") {
        frameworks.insert("Fiber", "framework");
    }
    if contains_chars(l, "gorm.io/gorm") {
        frameworks.insert("GORM", "tool");
    }
}

/// Detect frameworks from a Go module file by case-sensitive substring
/// containment of each table keyword.
pub fn detect_go(content: &str, frameworks: &mut SignalMap)
    requires
        old(frameworks).wf(),
    ensures
        final(frameworks).wf(),
        final(frameworks).pairs() == go_apply(old(frameworks).pairs(), content@),
{
    let chars = to_chars(content);
    apply_go_all(&chars, frameworks);
}

/// The PHP package table.
pub open spec fn spec_php_all(
    p0: Seq<(Seq<char>, Seq<char>)>,
    deps: Seq<Seq<char>>,
) -> Seq<(Seq<char>, Seq<char>)> {
    let p = p0;
    let p = if deps.contains("laravel/framework"@) { sig_set(p, "Laravel"@, "framework"@) } else { p };
    let p = if deps.contains("symfony/symfony"@) { sig_set(p, "Symfony"@, "framework"@) } else { p };
    let p = if deps.contains("slim/slim"@) { sig_set(p, "Slim"@, "framework"@) } else { p };
    p
}

/// What the PHP package table adds to the signal map for a given list of
/// required package names.
pub open spec fn php_apply(
    p0: Seq<(Seq<char>, Seq<char>)>,
    deps: Seq<Seq<char>>,
) -> Seq<(Seq<char>, Seq<char>)> {
    spec_php_all(p0, deps)
}

fn apply_php_all(deps: &Vec<String>, frameworks: &mut SignalMap)
    requires
        old(frameworks).wf(),
    ensures
        final(frameworks).wf(),
        final(frameworks).pairs() == spec_php_all(old(frameworks).pairs(), deps.deep_view()),
{
    if contains_name(deps, "laravel/framework") {
        frameworks.insert("Laravel", "framework");
    }
    if contains_name(deps, "symfony/symfony") {
        frameworks.insert("Symfony", "framework");
    }
    if contains_name(deps, "slim/slim") {
        frameworks.insert("Slim", "framework");
    }
}

/// Match a list of required PHP package names against the package table.
pub fn apply_php_table(deps: &Vec<String>, frameworks: &mut SignalMap)
    requires
        old(frameworks).wf(),
    ensures
        final(frameworks).wf(),
        final(frameworks).pairs() == php_apply(old(frameworks).pairs(), deps.deep_view()),
{
    apply_php_all(deps, frameworks);
}

/// Detect frameworks from the text of a PHP package manifest: the names
/// required under its require and require-dev objects are matched against
/// the package table. Text that is not well-formed JSON requires nothing
/// and contributes nothing.
pub fn detect_php(content: &str, frameworks: &mut SignalMap)
    requires
        old(frameworks).wf(),
    ensures
        final(frameworks).wf(),
        final(frameworks).pairs() == php_apply(old(frameworks).pairs(), php_required(content@)),
{
    let deps = member_keys_of_two(content, "require", "require-dev");
    apply_php_table(&deps, frameworks);
}

#[verifier::rlimit(100)]
proof fn lemma_npm_a_distinct(p0: Seq<(Seq<char>, Seq<char>)>, deps: Seq<Seq<char>>)
    requires
        keys_distinct(p0),
    ensures
        keys_distinct(spec_npm_a(p0, deps)),
{
    let p1 = if deps.contains("react"@) {
        lemma_sig_set_distinct(p0, "React"@, "framework"@);
        sig_set(p0, "React"@, "framework"@)
    } else {
        p0
    };
    let p2 = if deps.contains("react-native"@) {
        lemma_sig_set_distinct(p1, "React Native"@, "framework"@);
        sig_set(p1, "React Native"@, "framework"@)
    } else {
        p1
    };
    let p3 = if deps.contains("next"@) {
        lemma_sig_set_distinct(p2, "Next.js"@, "framework"@);
        sig_set(p2, "Next.js"@, "framework"@)
    } else {
        p2
    };
    let p4 = if deps.contains("vue"@) {
        lemma_sig_set_distinct(p3, "Vue"@, "framework"@);
        sig_set(p3, "Vue"@, "framework"@)
    } else {
        p3
    };
    let p5 = if deps.contains("nuxt"@) {
        lemma_sig_set_distinct(p4, "Nuxt"@, "framework"@);
        sig_set(p4, "Nuxt"@, "framework"@)
    } else {
        p4
    };
    let p6 = if deps.contains("svelte"@) {
        lemma_sig_set_distinct(p5, "Svelte"@, "framework"@);
        sig_set(p5, "Svelte"@, "framework"@)
    } else {
        p5
    };
    let p7 = if deps.contains("@angular/core"@) {
        lemma_sig_set_distinct(p6, "Angular"@, "framework"@);
        sig_set(p6, "Angular"@, "framework"@)
    } else {
        p6
    };
    let p8 = if deps.contains("express"@) {
        lemma_sig_set_distinct(p7, "Express"@, "framework"@);
        sig_set(p7, "Express"@, "framework"@)
    } else {
        p7
    };
    assert(p8 == spec_npm_a(p0, deps));
}

#[verifier::rlimit(100)]
proof fn lemma_npm_b_distinct(p0: Seq<(Seq<char>, Seq<char>)>, deps: Seq<Seq<char>>)
    requires
        keys_distinct(p0),
    ensures
        keys_distinct(spec_npm_b(p0, deps)),
{
    let p1 = if deps.contains("fastify"@) {
        lemma_sig_set_distinct(p0, "Fastify"@, "framework"@);
        sig_set(p0, "Fastify"@, "framework"@)
    } else {
        p0
    };
    let p2 = if deps.contains("gatsby"@) {
        lemma_sig_set_distinct(p1, "Gatsby"@, "framework"@);
        sig_set(p1, "Gatsby"@, "framework"@)
    } else {
        p1
    };
    let p3 = if deps.contains("remix"@) {
        lemma_sig_set_distinct(p2, "Remix"@, "framework"@);
        sig_set(p2, "Remix"@, "framework"@)
    } else {
        p2
    };
    let p4 = if deps.contains("@nestjs/core"@) {
        lemma_sig_set_distinct(p3, "NestJS"@, "framework"@);
        sig_set(p3, "NestJS"@, "framework"@)
    } else {
        p3
    };
    let p5 = if deps.contains("koa"@) {
        lemma_sig_set_distinct(p4, "Koa"@, "framework"@);
        sig_set(p4, "Koa"@, "framework"@)
    } else {
        p4
    };
    let p6 = if deps.contains("tailwindcss"@) {
        lemma_sig_set_distinct(p5, "Tailwind CSS"@, "framework"@);
        sig_set(p5, "Tailwind CSS"@, "framework"@)
    } else {
        p5
    };
    let p7 = if deps.contains("prisma"@) {
        lemma_sig_set_distinct(p6, "Prisma"@, "tool"@);
        sig_set(p6, "Prisma"@, "tool"@)
    } else {
        p6
    };
    let p8 = if deps.contains("mongoose"@) {
        lemma_sig_set_distinct(p7, "Mongoose"@, "tool"@);
        sig_set(p7, "Mongoose"@, "tool"@)
    } else {
        p7
    };
    assert(p8 == spec_npm_b(p0, deps));
}

#[verifier::rlimit(100)]
proof fn lemma_npm_c_distinct(p0: Seq<(Seq<char>, Seq<char>)>, deps: Seq<Seq<char>>)
    requires
        keys_distinct(p0),
    ensures
        keys_distinct(spec_npm_c(p0, deps)),
{
    let p1 = if deps.contains("sequelize"@) {
        lemma_sig_set_distinct(p0, "Sequelize"@, "tool"@);
        sig_set(p0, "Sequelize"@, "tool"@)
    } else {
        p0
    };
    let p2 = if deps.contains("jest"@) {
        lemma_sig_set_distinct(p1, "Jest"@, "tool"@);
        sig_set(p1, "Jest"@, "tool"@)
    } else {
        p1
    };
    let p3 = if deps.contains("mocha"@) {
        lemma_sig_set_distinct(p2, "Mocha"@, "tool"@);
        sig_set(p2, "Mocha"@, "tool"@)
    } else {
        p2
    };
    let p4 = if deps.contains("webpack"@) {
        lemma_sig_set_distinct(p3, "Webpack"@, "tool"@);
        sig_set(p3, "Webpack"@, "tool"@)
    } else {
        p3
    };
    let p5 = if deps.contains("vite"@) {
        lemma_sig_set_distinct(p4, "Vite"@, "tool"@);
        sig_set(p4, "Vite"@, "tool"@)
    } else {
        p4
    };
    let p6 = if deps.contains("typescript"@) {
        lemma_sig_set_distinct(p5, "TypeScript"@, "language"@);
        sig_set(p5, "TypeScript"@, "language"@)
    } else {
        p5
    };
    let p7 = if deps.contains("three"@) {
        lemma_sig_set_distinct(p6, "Three.js"@, "framework"@);
        sig_set(p6, "Three.js"@, "framework"@)
    } else {
        p6
    };
    let p8 = if deps.contains("electron"@) {
        lemma_sig_set_distinct(p7, "Electron"@, "framework"@);
        sig_set(p7, "Electron"@, "framework"@)
    } else {
        p7
    };
    assert(p8 == spec_npm_c(p0, deps));
}

#[verifier::rlimit(100)]
proof fn lemma_npm_d_distinct(p0: Seq<(Seq<char>, Seq<char>)>, deps: Seq<Seq<char>>)
    requires
        keys_distinct(p0),
    ensures
        keys_distinct(spec_npm_d(p0, deps)),
{
    let p1 = if deps.contains("socket.io"@) {
        lemma_sig_set_distinct(p0, "Socket.IO"@, "framework"@);
        sig_set(p0, "Socket.IO"@, "framework"@)
    } else {
        p0
    };
    let p2 = if deps.contains("graphql"@) {
        lemma_sig_set_distinct(p1, "GraphQL"@, "tool"@);
        sig_set(p1, "GraphQL"@, "tool"@)
    } else {
        p1
    };
    let p3 = if deps.contains("@apollo/client"@) {
        lemma_sig_set_distinct(p2, "Apollo"@, "framework"@);
        sig_set(p2, "Apollo"@, "framework"@)
    } else {
        p2
    };
    let p4 = if deps.contains("redis"@) {
        lemma_sig_set_distinct(p3, "Redis"@, "tool"@);
        sig_set(p3, "Redis"@, "tool"@)
    } else {
        p3
    };
    let p5 = if deps.contains("pg"@) {
        lemma_sig_set_distinct(p4, "PostgreSQL"@, "tool"@);
        sig_set(p4, "PostgreSQL"@, "tool"@)
    } else {
        p4
    };
    let p6 = if deps.contains("mongodb"@) {
        lemma_sig_set_distinct(p5, "MongoDB"@, "tool"@);
        sig_set(p5, "MongoDB"@, "tool"@)
    } else {
        p5
    };
    let p7 = if deps.contains("supabase"@) {
        lemma_sig_set_distinct(p6, "Supabase"@, "tool"@);
        sig_set(p6, "Supabase"@, "tool"@)
    } else {
        p6
    };
    let p8 = if deps.contains("firebase"@) {
        lemma_sig_set_distinct(p7, "Firebase"@, "tool"@);
        sig_set(p7, "Firebase"@, "tool"@)
    } else {
        p7
    };
    assert(p8 == spec_npm_d(p0, deps));
}

/// Applying the npm table keeps the map's keys distinct.
pub proof fn lemma_npm_apply_distinct(p0: Seq<(Seq<char>, Seq<char>)>, deps: Seq<Seq<char>>)
    requires
        keys_distinct(p0),
    ensures
        keys_distinct(npm_apply(p0, deps)),
{
    lemma_npm_a_distinct(p0, deps);
    lemma_npm_b_distinct(spec_npm_a(p0, deps), deps);
    lemma_npm_c_distinct(spec_npm_b(spec_npm_a(p0, deps), deps), deps);
    lemma_npm_d_distinct(spec_npm_c(spec_npm_b(spec_npm_a(p0, deps), deps), deps), deps);
}

#[verifier::rlimit(100)]
proof fn lemma_python_a_distinct(p0: Seq<(Seq<char>, Seq<char>)>, l: Seq<char>)
    requires
        keys_distinct(p0),
    ensures
        keys_distinct(spec_python_a(p0, l)),
{
    let p1 = if contains_seq(l, "django"@) {
        lemma_sig_set_distinct(p0, "Django"@, "framework"@);
        sig_set(p0, "Django"@, "framework"@)
    } else {
        p0
    };
    let p2 = if contains_seq(l, "flask"@) {
        lemma_sig_set_distinct(p1, "Flask"@, "framework"@);
        sig_set(p1, "Flask"@, "framework"@)
    } else {
        p1
    };
    let p3 = if contains_seq(l, "fastapi"@) {
        lemma_sig_set_distinct(p2, "FastAPI"@, "framework"@);
        sig_set(p2, "FastAPI"@, "framework"@)
    } else {
        p2
    };
    let p4 = if contains_seq(l, "tornado"@) {
        lemma_sig_set_distinct(p3, "Tornado"@, "framework"@);
        sig_set(p3, "Tornado"@, "framework"@)
    } else {
        p3
    };
    let p5 = if contains_seq(l, "celery"@) {
        lemma_sig_set_distinct(p4, "Celery"@, "tool"@);
        sig_set(p4, "Celery"@, "tool"@)
    } else {
        p4
    };
    let p6 = if contains_seq(l, "sqlalchemy"@) {
        lemma_sig_set_distinct(p5, "SQLAlchemy"@, "tool"@);
        sig_set(p5, "SQLAlchemy"@, "tool"@)
    } else {
        p5
    };
    let p7 = if contains_seq(l, "pandas"@) {
        lemma_sig_set_distinct(p6, "pandas"@, "framework"@);
        sig_set(p6, "pandas"@, "framework"@)
    } else {
        p6
    };
    let p8 = if contains_seq(l, "numpy"@) {
        lemma_sig_set_distinct(p7, "NumPy"@, "framework"@);
        sig_set(p7, "NumPy"@, "framework"@)
    } else {
        p7
    };
    let p9 = if contains_seq(l, "scipy"@) {
        lemma_sig_set_distinct(p8, "SciPy"@, "framework"@);
        sig_set(p8, "SciPy"@, "framework"@)
    } else {
        p8
    };
    assert(p9 == spec_python_a(p0, l));
}

#[verifier::rlimit(100)]
proof fn lemma_python_b_distinct(p0: Seq<(Seq<char>, Seq<char>)>, l: Seq<char>)
    requires
        keys_distinct(p0),
    ensures
        keys_distinct(spec_python_b(p0, l)),
{
    let p1 = if contains_seq(l, "scikit-learn"@) {
        lemma_sig_set_distinct(p0, "scikit-learn"@, "framework"@);
        sig_set(p0, "scikit-learn"@, "framework"@)
    } else {
        p0
    };
    let p2 = if contains_seq(l, "tensorflow"@) {
        lemma_sig_set_distinct(p1, "TensorFlow"@, "framework"@);
        sig_set(p1, "TensorFlow"@, "framework"@)
    } else {
        p1
    };
    let p3 = if contains_seq(l, "torch"@) {
        lemma_sig_set_distinct(p2, "PyTorch"@, "framework"@);
        sig_set(p2, "PyTorch"@, "framework"@)
    } else {
        p2
    };
    let p4 = if contains_seq(l, "pytest"@) {
        lemma_sig_set_distinct(p3, "pytest"@, "tool"@);
        sig_set(p3, "pytest"@, "tool"@)
    } else {
        p3
    };
    let p5 = if contains_seq(l, "pydantic"@) {
        lemma_sig_set_distinct(p4, "Pydantic"@, "tool"@);
        sig_set(p4, "Pydantic"@, "tool"@)
    } else {
        p4
    };
    let p6 = if contains_seq(l, "requests"@) {
        lemma_sig_set_distinct(p5, "Requests"@, "tool"@);
        sig_set(p5, "Requests"@, "tool"@)
    } else {
        p5
    };
    let p7 = if contains_seq(l, "boto3"@) {
        lemma_sig_set_distinct(p6, "AWS SDK"@, "tool"@);
        sig_set(p6, "AWS SDK"@, "tool"@)
    } else {
        p6
    };
    let p8 = if contains_seq(l, "redis"@) {
        lemma_sig_set_distinct(p7, "Redis"@, "tool"@);
        sig_set(p7, "Redis"@, "tool"@)
    } else {
        p7
    };
    let p9 = if contains_seq(l, "psycopg2"@) {
        lemma_sig_set_distinct(p8, "PostgreSQL"@, "tool"@);
        sig_set(p8, "PostgreSQL"@, "tool"@)
    } else {
        p8
    };
    assert(p9 == spec_python_b(p0, l));
}

/// Applying the Python table keeps the map's keys distinct.
pub proof fn lemma_python_apply_distinct(p0: Seq<(Seq<char>, Seq<char>)>, content: Seq<char>)
    requires
        keys_distinct(p0),
    ensures
        keys_distinct(python_apply(p0, content)),
{
    lemma_python_a_distinct(p0, lower_seq(content));
    lemma_python_b_distinct(spec_python_a(p0, lower_seq(content)), lower_seq(content));
}

#[verifier::rlimit(100)]
proof fn lemma_rust_a_distinct(p0: Seq<(Seq<char>, Seq<char>)>, l: Seq<char>)
    requires
        keys_distinct(p0),
    ensures
        keys_distinct(spec_rust_a(p0, l)),
{
    let p1 = if contains_seq(l, "actix-web"@) {
        lemma_sig_set_distinct(p0, "Actix Web"@, "framework"@);
        sig_set(p0, "Actix Web"@, "framework"@)
    } else {
        p0
    };
    let p2 = if contains_seq(l, "axum"@) {
        lemma_sig_set_distinct(p1, "Axum"@, "framework"@);
        sig_set(p1, "Axum"@, "framework"@)
    } else {
        p1
    };
    let p3 = if contains_seq(l, "rocket"@) {
        lemma_sig_set_distinct(p2, "Rocket"@, "framework"@);
        sig_set(p2, "Rocket"@, "framework"@)
    } else {
        p2
    };
    let p4 = if contains_seq(l, "tokio"@) {
        lemma_sig_set_distinct(p3, "Tokio"@, "tool"@);
        sig_set(p3, "Tokio"@, "tool"@)
    } else {
        p3
    };
    let p5 = if contains_seq(l, "serde"@) {
        lemma_sig_set_distinct(p4, "Serde"@, "tool"@);
        sig_set(p4, "Serde"@, "tool"@)
    } else {
        p4
    };
    let p6 = if contains_seq(l, "diesel"@) {
        lemma_sig_set_distinct(p5, "Diesel"@, "tool"@);
        sig_set(p5, "Diesel"@, "tool"@)
    } else {
        p5
    };
    assert(p6 == spec_rust_a(p0, l));
}

#[verifier::rlimit(100)]
proof fn lemma_rust_b_distinct(p0: Seq<(Seq<char>, Seq<char>)>, l: Seq<char>)
    requires
        keys_distinct(p0),
    ensures
        keys_distinct(spec_rust_b(p0, l)),
{
    let p1 = if contains_seq(l, "sqlx"@) {
        lemma_sig_set_distinct(p0, "SQLx"@, "tool"@);
        sig_set(p0, "SQLx"@, "tool"@)
    } else {
        p0
    };
    let p2 = if contains_seq(l, "leptos"@) {
        lemma_sig_set_distinct(p1, "Leptos"@, "framework"@);
        sig_set(p1, "Leptos"@, "framework"@)
    } else {
        p1
    };
    let p3 = if contains_seq(l, "yew"@) {
        lemma_sig_set_distinct(p2, "Yew"@, "framework"@);
        sig_set(p2, "Yew"@, "framework"@)
    } else {
        p2
    };
    let p4 = if contains_seq(l, "tauri"@) {
        lemma_sig_set_distinct(p3, "Tauri"@, "framework"@);
        sig_set(p3, "Tauri"@, "framework"@)
    } else {
        p3
    };
    let p5 = if contains_seq(l, "wasm-bindgen"@) {
        lemma_sig_set_distinct(p4, "WebAssembly"@, "tool"@);
        sig_set(p4, "WebAssembly"@, "tool"@)
    } else {
        p4
    };
    assert(p5 == spec_rust_b(p0, l));
}

/// Applying the Rust table keeps the map's keys distinct.
pub proof fn lemma_rust_apply_distinct(p0: Seq<(Seq<char>, Seq<char>)>, content: Seq<char>)
    requires
        keys_distinct(p0),
    ensures
        keys_distinct(rust_apply(p0, content)),
{
    lemma_rust_a_distinct(p0, lower_seq(content));
    lemma_rust_b_distinct(spec_rust_a(p0, lower_seq(content)), lower_seq(content));
}

#[verifier::rlimit(100)]
proof fn lemma_ruby_all_distinct(p0: Seq<(Seq<char>, Seq<char>)>, l: Seq<char>)
    requires
        keys_distinct(p0),
    ensures
        keys_distinct(spec_ruby_all(p0, l)),
{
    let p1 = if contains_seq(l, "rails"@) {
        lemma_sig_set_distinct(p0, "Ruby on Rails"@, "framework"@);
        sig_set(p0, "Ruby on Rails"@, "framework"@)
    } else {
        p0
    };
    let p2 = if contains_seq(l, "sinatra"@) {
        lemma_sig_set_distinct(p1, "Sinatra"@, "framework"@);
        sig_set(p1, "Sinatra"@, "framework"@)
    } else {
        p1
    };
    let p3 = if contains_seq(l, "sidekiq"@) {
        lemma_sig_set_distinct(p2, "Sidekiq"@, "tool"@);
        sig_set(p2, "Sidekiq"@, "tool"@)
    } else {
        p2
    };
    let p4 = if contains_seq(l, "rspec"@) {
        lemma_sig_set_distinct(p3, "RSpec"@, "tool"@);
        sig_set(p3, "RSpec"@, "tool"@)
    } else {
        p3
    };
    assert(p4 == spec_ruby_all(p0, l));
}

/// Applying the Ruby table keeps the map's keys distinct.
pub proof fn lemma_ruby_apply_distinct(p0: Seq<(Seq<char>, Seq<char>)>, content: Seq<char>)
    requires
        keys_distinct(p0),
    ensures
        keys_distinct(ruby_apply(p0, content)),
{
    lemma_ruby_all_distinct(p0, lower_seq(content));
}

#[verifier::rlimit(100)]
proof fn lemma_go_all_distinct(p0: Seq<(Seq<char>, Seq<char>)>, l: Seq<char>)
    requires
        keys_distinct(p0),
    ensures
        keys_distinct(spec_go_all(p0, l)),
{
    let p1 = if contains_seq(l, "github.com/gin-gonic/gin"@) {
        lemma_sig_set_distinct(p0, "Gin"@, "framework"@);
        sig_set(p0, "Gin"@, "framework"@)
    } else {
        p0
    };
    let p2 = if contains_seq(l, "github.com/gorilla/mux"@) {
        lemma_sig_set_distinct(p1, "Gorilla Mux"@, "framework"@);
        sig_set(p1, "Gorilla Mux"@, "framework"@)
    } else {
        p1
    };
    let p3 = if contains_seq(l, "github.com/labstack/echo"@) {
        lemma_sig_set_distinct(p2, "Echo"@, "framework"@);
        sig_set(p2, "Echo"@, "framework"@)
    } else {
        p2
    };
    let p4 = if contains_seq(l, "github.com/gofiber/fiber"@) {
        lemma_sig_set_distinct(p3, "Fiber"@, "framework"@);
        sig_set(p3, "Fiber"@, "framework"@)
    } else {
        p3
    };
    let p5 = if contains_seq(l, "gorm.io/gorm"@) {
        lemma_sig_set_distinct(p4, "GORM"@, "tool"@);
        sig_set(p4, "GORM"@, "tool"@)
    } else {
        p4
    };
    assert(p5 == spec_go_all(p0, l));
}

/// Applying the Go table keeps the map's keys distinct.
pub proof fn lemma_go_apply_distinct(p0: Seq<(Seq<char>, Seq<char>)>, content: Seq<char>)
    requires
        keys_distinct(p0),
    ensures
        keys_distinct(go_apply(p0, content)),
{
    lemma_go_all_distinct(p0, content);
}

#[verifier::rlimit(100)]
proof fn lemma_php_all_distinct(p0: Seq<(Seq<char>, Seq<char>)>, deps: Seq<Seq<char>>)
    requires
        keys_distinct(p0),
    ensures
        keys_distinct(spec_php_all(p0, deps)),
{
    let p1 = if deps.contains("laravel/framework"@) {
        lemma_sig_set_distinct(p0, "Laravel"@, "framework"@);
        sig_set(p0, "Laravel"@, "framework"@)
    } else {
        p0
    };
    let p2 = if deps.contains("symfony/symfony"@) {
        lemma_sig_set_distinct(p1, "Symfony"@, "framework"@);
        sig_set(p1, "Symfony"@, "framework"@)
    } else {
        p1
    };
    let p3 = if deps.contains("slim/slim"@) {
        lemma_sig_set_distinct(p2, "Slim"@, "framework"@);
        sig_set(p2, "Slim"@, "framework"@)
    } else {
        p2
    };
    assert(p3 == spec_php_all(p0, deps));
}

/// Applying the PHP table keeps the map's keys distinct.
pub proof fn lemma_php_apply_distinct(p0: Seq<(Seq<char>, Seq<char>)>, deps: Seq<Seq<char>>)
    requires
        keys_distinct(p0),
    ensures
        keys_distinct(php_apply(p0, deps)),
{
    lemma_php_all_distinct(p0, deps);
}

/// Running every dependency detector keeps the map's keys distinct.
pub proof fn lemma_detect_all_distinct(
    p0: Seq<(Seq<char>, Seq<char>)>,
    package_json: Option<Seq<char>>,
    requirements_txt: Option<Seq<char>>,
    pyproject_toml: Option<Seq<char>>,
    cargo_toml: Option<Seq<char>>,
    gemfile: Option<Seq<char>>,
    go_mod: Option<Seq<char>>,
    composer_json: Option<Seq<char>>,
)
    requires
        keys_distinct(p0),
    ensures
        keys_distinct(spec_detect_all(
            p0,
            package_json,
            requirements_txt,
            pyproject_toml,
            cargo_toml,
            gemfile,
            go_mod,
            composer_json,
        )),
{
    let p1 = if package_json is Some {
        lemma_npm_apply_distinct(p0, npm_declared(package_json->0));
        npm_apply(p0, npm_declared(package_json->0))
    } else {
        p0
    };
    let p2 = if requirements_txt is Some {
        lemma_python_apply_distinct(p1, requirements_txt->0);
        python_apply(p1, requirements_txt->0)
    } else {
        p1
    };
    let p3 = if pyproject_toml is Some {
        lemma_python_apply_distinct(p2, pyproject_toml->0);
        python_apply(p2, pyproject_toml->0)
    } else {
        p2
    };
    let p4 = if cargo_toml is Some {
        lemma_rust_apply_distinct(p3, cargo_toml->0);
        rust_apply(p3, cargo_toml->0)
    } else {
        p3
    };
    let p5 = if gemfile is Some {
        lemma_ruby_apply_distinct(p4, gemfile->0);
        ruby_apply(p4, gemfile->0)
    } else {
        p4
    };
    let p6 = if go_mod is Some {
        lemma_go_apply_distinct(p5, go_mod->0);
        go_apply(p5, go_mod->0)
    } else {
        p5
    };
    let p7 = if composer_json is Some {
        lemma_php_apply_distinct(p6, php_required(composer_json->0));
        php_apply(p6, php_required(composer_json->0))
    } else {
        p6
    };
    assert(p7 == spec_detect_all(
        p0,
        package_json,
        requirements_txt,
        pyproject_toml,
        cargo_toml,
        gemfile,
        go_mod,
        composer_json,
    ));
}

/// The root-level manifest texts a scan hands to the dependency detectors.
/// `None` stands both for a file that is absent and for one that could not
/// be read; either way that ecosystem contributes no signals.
pub struct Manifests {
    pub package_json: Option<String>,
    pub requirements_txt: Option<String>,
    pub pyproject_toml: Option<String>,
    pub cargo_toml: Option<String>,
    pub gemfile: Option<String>,
    pub go_mod: Option<String>,
    pub composer_json: Option<String>,
}

/// The view of an optional manifest text.
pub open spec fn opt_view(o: Option<String>) -> Option<Seq<char>> {
    match o {
        Some(s) => Some(s@),
        None => None,
    }
}

impl Manifests {
    /// A manifest set with no file present.
    pub fn none() -> (r: Self)
        ensures
            opt_view(r.package_json) is None,
            opt_view(r.requirements_txt) is None,
            opt_view(r.pyproject_toml) is None,
            opt_view(r.cargo_toml) is None,
            opt_view(r.gemfile) is None,
            opt_view(r.go_mod) is None,
            opt_view(r.composer_json) is None,
    {
        Manifests {
            package_json: None,
            requirements_txt: None,
            pyproject_toml: None,
            cargo_toml: None,
            gemfile: None,
            go_mod: None,
            composer_json: None,
        }
    }
}

/// What one run of all dependency detectors adds to the signal map: each
/// present manifest applies its table in the fixed order npm, Python,
/// Python metadata, Rust, Ruby, Go, PHP; an absent manifest changes
/// nothing.
pub open spec fn spec_detect_all(
    p0: Seq<(Seq<char>, Seq<char>)>,
    package_json: Option<Seq<char>>,
    requirements_txt: Option<Seq<char>>,
    pyproject_toml: Option<Seq<char>>,
    cargo_toml: Option<Seq<char>>,
    gemfile: Option<Seq<char>>,
    go_mod: Option<Seq<char>>,
    composer_json: Option<Seq<char>>,
) -> Seq<(Seq<char>, Seq<char>)> {
    let p = if package_json is Some { npm_apply(p0, npm_declared(package_json->0)) } else { p0 };
    let p = if requirements_txt is Some { python_apply(p, requirements_txt->0) } else { p };
    let p = if pyproject_toml is Some { python_apply(p, pyproject_toml->0) } else { p };
    let p = if cargo_toml is Some { rust_apply(p, cargo_toml->0) } else { p };
    let p = if gemfile is Some { ruby_apply(p, gemfile->0) } else { p };
    let p = if go_mod is Some { go_apply(p, go_mod->0) } else { p };
    let p = if composer_json is Some { php_apply(p, php_required(composer_json->0)) } else { p };
    p
}

/// Run every ecosystem detector on the manifest set, in the fixed order.
pub fn detect_all(manifests: &Manifests, frameworks: &mut SignalMap)
    requires
        old(frameworks).wf(),
    ensures
        final(frameworks).wf(),
        final(frameworks).pairs() == spec_detect_all(
            old(frameworks).pairs(),
            opt_view(manifests.package_json),
            opt_view(manifests.requirements_txt),
            opt_view(manifests.pyproject_toml),
            opt_view(manifests.cargo_toml),
            opt_view(manifests.gemfile),
            opt_view(manifests.go_mod),
            opt_view(manifests.composer_json),
        ),
{
    let ghost p0 = frameworks.pairs();
    match &manifests.package_json {
        Some(c) => detect_npm(c.as_str(), frameworks),
        None => {},
    }
    let ghost p1 = frameworks.pairs();
    match &manifests.requirements_txt {
        Some(c) => detect_python(c.as_str(), frameworks),
        None => {},
    }
    let ghost p2 = frameworks.pairs();
    match &manifests.pyproject_toml {
        Some(c) => detect_pyproject(c.as_str(), frameworks),
        None => {},
    }
    let ghost p3 = frameworks.pairs();
    match &manifests.cargo_toml {
        Some(c) => detect_rust(c.as_str(), frameworks),
        None => {},
    }
    let ghost p4 = frameworks.pairs();
    match &manifests.gemfile {
        Some(c) => detect_ruby(c.as_str(), frameworks),
        None => {},
    }
    let ghost p5 = frameworks.pairs();
    match &manifests.go_mod {
        Some(c) => detect_go(c.as_str(), frameworks),
        None => {},
    }
    let ghost p6 = frameworks.pairs();
    match &manifests.composer_json {
        Some(c) => detect_php(c.as_str(), frameworks),
        None => {},
    }
    proof {
        assert(frameworks.pairs() == spec_detect_all(
            p0,
            opt_view(manifests.package_json),
            opt_view(manifests.requirements_txt),
            opt_view(manifests.pyproject_toml),
            opt_view(manifests.cargo_toml),
            opt_view(manifests.gemfile),
            opt_view(manifests.go_mod),
            opt_view(manifests.composer_json),
        ));
    }
}

} // verus!
