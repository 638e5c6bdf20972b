//! Where the application keeps its files under the user's local data directory:
//! `norenwake/work` for the working copies, `norenwake/caches` for the README cache
//! and `norenwake/caches/caches.json` for its index.
use vstd::prelude::*;

use crate::models::APP_NAME;
use crate::text::string_of;

verus! {

broadcast use vstd::string::group_string_axioms;

/// `std::path::MAIN_SEPARATOR`, documented as `/` on Unix and `\` on Windows.
#[verifier::external_body]
fn main_separator() -> (c: char)
    ensures
        c == '/' || c == '\\',
{
    std::path::MAIN_SEPARATOR
}

/// A path separator of the platform whose main separator is `sep`: `/` always counts.
pub open spec fn is_separator(c: char, sep: char) -> bool {
    c == '/' || c == sep
}

/// `base` joined with the relative component `part`: a separator goes between them
/// unless `base` is empty or already ends with one.
pub open spec fn joined(base: Seq<char>, part: Seq<char>, sep: char) -> Seq<char> {
    if base.len() > 0 && !is_separator(base.last(), sep) {
        base + seq![sep] + part
    } else {
        base + part
    }
}

/// `Path::new(base).join(part)` for a relative `part` on a platform whose main
/// separator is `sep`.
fn join_with(base: &str, part: &str, sep: char) -> (r: String)
    ensures
        r@ == joined(base@, part@, sep),
{
    let chars = crate::text::to_chars(base);
    let mut out = string_of(base);
    if chars.len() > 0 {
        let last = chars[chars.len() - 1];
        if last != '/' && last != sep {
            crate::text::push_char(&mut out, sep);
        }
    }
    out.append(part);
    out
}

/// The application's own directory under the local data directory.
pub fn app_data_dir(data_local_dir: &str) -> (r: String)
    ensures
        exists|sep: char| (sep == '/' || sep == '\\') && r@ == joined(data_local_dir@, APP_NAME@, sep),
{
    join_with(data_local_dir, APP_NAME, main_separator())
}

/// The directory the working copies are cloned into.
pub fn work_dir(app_data_dir: &str) -> (r: String)
    ensures
        exists|sep: char| (sep == '/' || sep == '\\') && r@ == joined(app_data_dir@, "work"@, sep),
{
    join_with(app_data_dir, "work", main_separator())
}

/// The directory of the README cache.
pub fn cache_dir(app_data_dir: &str) -> (r: String)
    ensures
        exists|sep: char| (sep == '/' || sep == '\\') && r@ == joined(app_data_dir@, "caches"@, sep),
{
    join_with(app_data_dir, "caches", main_separator())
}

/// The file of the README cache index.
pub fn cache_index_path(app_data_dir: &str) -> (r: String)
    ensures
        exists|sep: char| (sep == '/' || sep == '\\') && r@ == joined(
            joined(app_data_dir@, "caches"@, sep),
            "caches.json"@,
            sep,
        ),
{
    let sep = main_separator();
    let dir = join_with(app_data_dir, "caches", sep);
    join_with(dir.as_str(), "caches.json", sep)
}

/// All the application's paths, built with one separator.
pub struct DataDirs {
    pub app: String,
    pub work: String,
    pub cache: String,
    pub cache_index: String,
}

/// The application's directory, its work and cache directories and the cache index
/// file, all joined with the platform's one main separator: so the work and cache
/// directories and the index file lie inside the application's directory.
pub fn data_dirs(data_local_dir: &str) -> (r: DataDirs)
    ensures
        exists|sep: char|
            {
                &&& sep == '/' || sep == '\\'
                &&& r.app@ == joined(data_local_dir@, APP_NAME@, sep)
                &&& r.work@ == joined(r.app@, "work"@, sep)
                &&& r.cache@ == joined(r.app@, "caches"@, sep)
                &&& r.cache_index@ == joined(r.cache@, "caches.json"@, sep)
            },
        r.app@.is_prefix_of(r.work@),
        r.app@.is_prefix_of(r.cache@),
        r.cache@.is_prefix_of(r.cache_index@),
        r.app@.is_prefix_of(r.cache_index@),
{
    let sep = main_separator();
    let app = join_with(data_local_dir, APP_NAME, sep);
    let work = join_with(app.as_str(), "work", sep);
    let cache = join_with(app.as_str(), "caches", sep);
    let cache_index = join_with(cache.as_str(), "caches.json", sep);
    proof {
        lemma_joined_extends(app@, "work"@, sep);
        lemma_joined_extends(app@, "caches"@, sep);
        lemma_joined_extends(cache@, "caches.json"@, sep);
    }
    DataDirs { app, work, cache, cache_index }
}

/// A joined path begins with its base.
proof fn lemma_joined_extends(base: Seq<char>, part: Seq<char>, sep: char)
    ensures
        base.is_prefix_of(joined(base, part, sep)),
{
    let j = joined(base, part, sep);
    assert(j.subrange(0, base.len() as int) =~= base);
}

} // verus!
